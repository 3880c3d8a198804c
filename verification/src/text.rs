//! Character and string utilities: ASCII case folding, digit parsing, and
//! the suffix handling used for player-assigned track identifiers.

use vstd::prelude::*;

verus! {

/// Code point of `c`, with ASCII upper-case letters folded to lower case.
pub open spec fn lower_code(c: char) -> int {
    if 65 <= c as u32 && c as u32 <= 90 {
        c as u32 + 32
    } else {
        c as u32 as int
    }
}

/// Case-insensitive (ASCII) prefix match: `name` starts with `title`,
/// comparing folded code points.
pub open spec fn title_matches(name: Seq<char>, title: Seq<char>) -> bool {
    &&& name.len() >= title.len()
    &&& forall|i: int| 0 <= i < title.len() ==> lower_code(name[i]) == lower_code(title[i])
}

pub fn lower_code_of(c: char) -> (r: u32)
    ensures
        r == lower_code(c),
{
    let x: u32 = c as u32;
    if 65 <= x && x <= 90 {
        x + 32
    } else {
        x
    }
}

/// Whether the candidate display name starts with the track title, ignoring
/// ASCII case.  A name with a trailing qualifier still matches.
pub fn candidate_name_matches(name: &str, title: &str) -> (r: bool)
    ensures
        r == title_matches(name@, title@),
{
    let nlen: usize = name.unicode_len();
    let tlen: usize = title.unicode_len();
    if nlen < tlen {
        return false;
    }
    let mut i: usize = 0;
    while i < tlen
        invariant
            i <= tlen,
            tlen == title@.len(),
            nlen == name@.len(),
            nlen >= tlen,
            forall|j: int| 0 <= j < i ==> lower_code(name@[j]) == lower_code(title@[j]),
        decreases tlen - i,
    {
        if lower_code_of(name.get_char(i)) != lower_code_of(title.get_char(i)) {
            return false;
        }
        i = i + 1;
    }
    true
}

/// Exact equality of two string slices, character by character.
pub fn str_eq(a: &str, b: &str) -> (r: bool)
    ensures
        r == (a@ == b@),
{
    let alen: usize = a.unicode_len();
    let blen: usize = b.unicode_len();
    if alen != blen {
        return false;
    }
    let mut i: usize = 0;
    while i < alen
        invariant
            i <= alen,
            alen == a@.len(),
            alen == b@.len(),
            forall|j: int| 0 <= j < i ==> a@[j] == b@[j],
        decreases alen - i,
    {
        if a.get_char(i) != b.get_char(i) {
            return false;
        }
        i = i + 1;
    }
    proof {
        assert(a@ =~= b@);
    }
    true
}

/// `s` ends with `suffix`.
pub open spec fn ends_with(s: Seq<char>, suffix: Seq<char>) -> bool {
    &&& s.len() >= suffix.len()
    &&& s.skip(s.len() - suffix.len()) == suffix
}

pub fn str_ends_with(s: &str, suffix: &str) -> (r: bool)
    ensures
        r == ends_with(s@, suffix@),
{
    let slen: usize = s.unicode_len();
    let mlen: usize = suffix.unicode_len();
    if slen < mlen {
        return false;
    }
    let base: usize = slen - mlen;
    let mut i: usize = 0;
    while i < mlen
        invariant
            i <= mlen,
            slen == s@.len(),
            mlen == suffix@.len(),
            base == slen - mlen,
            forall|j: int| 0 <= j < i ==> s@[base + j] == suffix@[j],
        decreases mlen - i,
    {
        if s.get_char(base + i) != suffix.get_char(i) {
            proof {
                assert(s@.skip(base as int)[i as int] == s@[base + i]);
            }
            return false;
        }
        i = i + 1;
    }
    proof {
        assert(s@.skip(base as int) =~= suffix@);
    }
    true
}

pub open spec fn is_digit(c: char) -> bool {
    48 <= c as u32 && c as u32 <= 57
}

pub open spec fn digit_val(c: char) -> int {
    c as u32 - 48
}

pub open spec fn all_digits(s: Seq<char>) -> bool {
    forall|i: int| 0 <= i < s.len() ==> is_digit(s[i])
}

/// Value of a digit string read in base ten.
pub open spec fn digits_val(s: Seq<char>) -> int
    decreases s.len(),
{
    if s.len() == 0 {
        0
    } else {
        digits_val(s.drop_last()) * 10 + digit_val(s.last())
    }
}

pub proof fn lemma_digits_val_nonneg(s: Seq<char>)
    requires
        all_digits(s),
    ensures
        digits_val(s) >= 0,
    decreases s.len(),
{
    if s.len() > 0 {
        assert(all_digits(s.drop_last()));
        lemma_digits_val_nonneg(s.drop_last());
    }
}

/// The value of a digit string dominates the value of any of its prefixes.
pub proof fn lemma_digits_val_prefix_le(s: Seq<char>, k: int)
    requires
        all_digits(s),
        0 <= k <= s.len(),
    ensures
        digits_val(s.take(k)) <= digits_val(s),
    decreases s.len() - k,
{
    if k < s.len() {
        assert(s.take(k + 1).drop_last() =~= s.take(k));
        assert(s.take(k + 1).last() == s[k]);
        assert(all_digits(s.take(k)));
        lemma_digits_val_nonneg(s.take(k));
        assert(digits_val(s.take(k)) <= digits_val(s.take(k + 1)));
        lemma_digits_val_prefix_le(s, k + 1);
    } else {
        assert(s.take(k) =~= s);
    }
}

/// The digits of a decimal number, after an optional leading plus sign.
pub open spec fn decimal_digits(s: Seq<char>) -> Seq<char> {
    if s.len() > 0 && s[0] == '+' {
        s.drop_first()
    } else {
        s
    }
}

/// Decimal parse into `u64`: an optional `+`, then one or more digits whose
/// value fits; anything else is rejected.
pub open spec fn parse_u64_spec(s: Seq<char>) -> Option<u64> {
    let ds = decimal_digits(s);
    if ds.len() > 0 && all_digits(ds) && digits_val(ds) <= u64::MAX {
        Some(digits_val(ds) as u64)
    } else {
        None
    }
}

pub fn parse_u64_str(s: &str) -> (r: Option<u64>)
    ensures
        r == parse_u64_spec(s@),
{
    let n: usize = s.unicode_len();
    if n == 0 {
        return None;
    }
    let b: usize = if s.get_char(0) == '+' {
        1
    } else {
        0
    };
    let ghost ds = decimal_digits(s@);
    proof {
        if b == 1 {
            assert(ds =~= s@.skip(1));
        } else {
            assert(ds =~= s@);
        }
    }
    if n == b {
        proof {
            assert(ds.len() == 0);
        }
        return None;
    }
    let mut acc: u64 = 0;
    let mut i: usize = b;
    while i < n
        invariant
            b <= i <= n,
            b <= 1,
            n == s@.len(),
            ds == decimal_digits(s@),
            ds.len() == n - b,
            forall|j: int| 0 <= j < ds.len() ==> ds[j] == s@[j + b],
            all_digits(ds.take(i - b)),
            acc == digits_val(ds.take(i - b)),
        decreases n - i,
    {
        let c = s.get_char(i);
        let x: u32 = c as u32;
        if x < 48 || x > 57 {
            proof {
                assert(ds[i - b] == s@[i as int]);
                assert(!is_digit(ds[i - b]));
            }
            return None;
        }
        let d: u64 = (x - 48) as u64;
        if acc > (u64::MAX - d) / 10 {
            proof {
                let k = i - b;
                assert(ds.take(k + 1).drop_last() =~= ds.take(k));
                assert(ds.take(k + 1).last() == ds[k]);
                assert(digits_val(ds.take(k + 1)) == acc * 10 + d);
                assert(acc * 10 + d > u64::MAX);
                if all_digits(ds) {
                    lemma_digits_val_prefix_le(ds, k + 1);
                    assert(digits_val(ds) > u64::MAX);
                }
            }
            return None;
        }
        proof {
            let k = i - b;
            assert(ds.take(k + 1).drop_last() =~= ds.take(k));
            assert(ds.take(k + 1).last() == ds[k]);
        }
        acc = acc * 10 + d;
        i = i + 1;
    }
    proof {
        assert(ds.take(n - b) =~= ds);
    }
    Some(acc)
}

/// The lines of `s`, split on `\n`: one more line than there are newlines,
/// so the empty text has one empty line.
pub open spec fn split_lines_spec(s: Seq<char>) -> Seq<Seq<char>>
    decreases s.len(),
{
    if s.len() == 0 {
        seq![Seq::<char>::empty()]
    } else {
        let rest = split_lines_spec(s.drop_last());
        if s.last() == '\n' {
            rest.push(Seq::empty())
        } else {
            rest.update(rest.len() - 1, rest.last().push(s.last()))
        }
    }
}

pub proof fn lemma_split_lines_nonempty(s: Seq<char>)
    ensures
        split_lines_spec(s).len() >= 1,
    decreases s.len(),
{
    if s.len() > 0 {
        lemma_split_lines_nonempty(s.drop_last());
    }
}

/// Split `s` into its `\n`-separated lines.
pub fn split_lines(s: &str) -> (r: Vec<String>)
    ensures
        r.deep_view() == split_lines_spec(s@),
{
    let n: usize = s.unicode_len();
    let mut out: Vec<String> = Vec::new();
    let mut start: usize = 0;
    let mut i: usize = 0;
    proof {
        assert(s@.take(0) =~= Seq::<char>::empty());
        assert(s@.subrange(0, 0) =~= Seq::<char>::empty());
        assert(split_lines_spec(s@.take(0)) =~= out.deep_view().push(s@.subrange(0, 0)));
    }
    while i < n
        invariant
            start <= i <= n,
            n == s@.len(),
            split_lines_spec(s@.take(i as int)) == out.deep_view().push(
                s@.subrange(start as int, i as int),
            ),
        decreases n - i,
    {
        let c: char = s.get_char(i);
        proof {
            assert(s@.take(i + 1).drop_last() =~= s@.take(i as int));
            assert(s@.take(i + 1).last() == s@[i as int]);
            lemma_split_lines_nonempty(s@.take(i as int));
        }
        if c == '\n' {
            let line: String = String::from_str(s.substring_char(start, i));
            let ghost pre = out.deep_view();
            out.push(line);
            proof {
                assert(line@ =~= s@.subrange(start as int, i as int));
                assert(out.deep_view() =~= pre.push(line@));
                assert(s@.subrange(i + 1, i + 1) =~= Seq::<char>::empty());
                let prev = split_lines_spec(s@.take(i as int));
                assert(split_lines_spec(s@.take(i + 1)) == prev.push(Seq::<char>::empty()));
                assert(split_lines_spec(s@.take(i + 1)) =~= out.deep_view().push(
                    s@.subrange(i + 1, i + 1),
                ));
            }
            start = i + 1;
        } else {
            proof {
                let prev = split_lines_spec(s@.take(i as int));
                assert(prev == out.deep_view().push(s@.subrange(start as int, i as int)));
                assert(prev.last() == s@.subrange(start as int, i as int));
                assert(s@.subrange(start as int, i as int).push(s@[i as int]) =~= s@.subrange(
                    start as int,
                    i + 1,
                ));
                assert(split_lines_spec(s@.take(i + 1)) == prev.update(
                    prev.len() - 1,
                    prev.last().push(s@[i as int]),
                ));
                assert(prev.update(prev.len() - 1, prev.last().push(s@[i as int]))
                    =~= out.deep_view().push(s@.subrange(start as int, i + 1)));
            }
        }
        i = i + 1;
    }
    let line: String = String::from_str(s.substring_char(start, n));
    let ghost pre = out.deep_view();
    out.push(line);
    proof {
        assert(s@.take(n as int) =~= s@);
        assert(line@ =~= s@.subrange(start as int, n as int));
        assert(out.deep_view() =~= pre.push(line@));
    }
    out
}

/// Index just after the last `/` of `s`, or `0` when none occurs: where the
/// final path segment begins.
pub open spec fn suffix_start(s: Seq<char>) -> int
    decreases s.len(),
{
    if s.len() == 0 {
        0
    } else if s.last() == '/' {
        s.len() as int
    } else {
        suffix_start(s.drop_last())
    }
}

pub proof fn lemma_suffix_start_bounds(s: Seq<char>)
    ensures
        0 <= suffix_start(s) <= s.len(),
    decreases s.len(),
{
    if s.len() > 0 && s.last() != '/' {
        lemma_suffix_start_bounds(s.drop_last());
    }
}

pub fn last_segment_start(s: &str) -> (r: usize)
    ensures
        r == suffix_start(s@),
{
    let n: usize = s.unicode_len();
    proof {
        assert(s@.take(n as int) =~= s@);
    }
    let mut i: usize = n;
    while i > 0
        invariant
            i <= n,
            n == s@.len(),
            suffix_start(s@) == suffix_start(s@.take(i as int)),
        decreases i,
    {
        if s.get_char(i - 1) == '/' {
            proof {
                assert(s@.take(i as int).last() == s@[i - 1]);
            }
            return i;
        }
        proof {
            assert(s@.take(i as int).last() == s@[i - 1]);
            assert(s@.take(i as int).drop_last() =~= s@.take(i - 1));
        }
        i = i - 1;
    }
    proof {
        assert(s@.take(0) =~= Seq::<char>::empty());
    }
    0
}

/// The numeric value embedded as the final `/`-separated segment of `s`,
/// if that segment parses as a decimal `u64`.
pub open spec fn numeric_suffix_spec(s: Seq<char>) -> Option<u64> {
    parse_u64_spec(s.skip(suffix_start(s)))
}

pub fn numeric_suffix(s: &str) -> (r: Option<u64>)
    ensures
        r == numeric_suffix_spec(s@),
{
    let n: usize = s.unicode_len();
    let st: usize = last_segment_start(s);
    proof {
        lemma_suffix_start_bounds(s@);
    }
    let seg: &str = s.substring_char(st, n);
    proof {
        assert(seg@ =~= s@.skip(st as int));
    }
    parse_u64_str(seg)
}

} // verus!
