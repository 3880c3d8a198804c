//! Timestamp-tagged lyric text: the tag grammar, and the merge of a primary
//! line set with an optional translated line set into one time-ordered model.
//!
//! A line has the shape `[MM:SS.FFF]text`: one to seven minute digits, two
//! second digits, an optional fraction of one to three digits, then the text.
//! Lines whose tag does not have this shape are skipped, not an error.

use vstd::prelude::*;

use crate::text::{all_digits, digit_val, digits_val, is_digit};

verus! {

/// One timed lyric line: a millisecond offset, the primary text, and an
/// optional translation anchored at the same timestamp.
pub struct LyricLine {
    pub time_ms: u64,
    pub text: String,
    pub tlyric: Option<String>,
}

pub open spec fn pow10(n: nat) -> int
    decreases n,
{
    if n == 0 {
        1
    } else {
        10 * pow10((n - 1) as nat)
    }
}

proof fn lemma_pow10_range(k: nat)
    requires
        k <= 7,
    ensures
        1 <= pow10(k) <= 10000000,
{
    assert(pow10(0) == 1);
    assert(pow10(1) == 10);
    assert(pow10(2) == 100);
    assert(pow10(3) == 1000);
    assert(pow10(4) == 10000);
    assert(pow10(5) == 100000);
    assert(pow10(6) == 1000000);
    assert(pow10(7) == 10000000);
}

/// First index at or after `from` holding a non-digit, or the length.
pub open spec fn digits_end(s: Seq<char>, from: int) -> int
    decreases s.len() - from when from <= s.len()
{
    if from < 0 || from >= s.len() {
        from
    } else if !is_digit(s[from]) {
        from
    } else {
        digits_end(s, from + 1)
    }
}

proof fn lemma_digits_end_eq(s: Seq<char>, from: int, i: int)
    requires
        0 <= from <= i <= s.len(),
        forall|j: int| from <= j < i ==> is_digit(s[j]),
        i < s.len() ==> !is_digit(s[i]),
    ensures
        digits_end(s, from) == i,
    decreases i - from,
{
    if from < i {
        lemma_digits_end_eq(s, from + 1, i);
    }
}

proof fn lemma_digits_end_lb(s: Seq<char>, from: int)
    requires
        0 <= from <= s.len(),
    ensures
        from <= digits_end(s, from) <= s.len(),
    decreases s.len() - from,
{
    if from < s.len() && is_digit(s[from]) {
        lemma_digits_end_lb(s, from + 1);
    }
}

proof fn lemma_digits_end_ge(s: Seq<char>, from: int, i: int)
    requires
        0 <= from <= i <= s.len(),
        forall|j: int| from <= j < i ==> is_digit(s[j]),
    ensures
        digits_end(s, from) >= i,
    decreases i - from,
{
    if from < i {
        lemma_digits_end_ge(s, from + 1, i);
    } else {
        lemma_digits_end_lb(s, from);
    }
}

/// Milliseconds named by a fraction field of one to three digits.
pub open spec fn frac_ms(s: Seq<char>, from: int, to: int) -> int {
    if to - from == 1 {
        digit_val(s[from]) * 100
    } else if to - from == 2 {
        digit_val(s[from]) * 100 + digit_val(s[from + 1]) * 10
    } else {
        digit_val(s[from]) * 100 + digit_val(s[from + 1]) * 10 + digit_val(s[from + 2])
    }
}

pub open spec fn tag_ms(minv: int, sec: int, frac: int) -> int {
    minv * 60000 + sec * 1000 + frac
}

/// Parse the leading timestamp tag of one lyric line.  On success the result
/// is the millisecond offset and the text after the closing bracket.
pub open spec fn parse_tag(s: Seq<char>) -> Option<(u64, Seq<char>)> {
    if s.len() == 0 || s[0] != '[' {
        None
    } else {
        let me = digits_end(s, 1);
        if !(2 <= me && me <= 8) {
            None
        } else if me + 3 > s.len() || s[me] != ':' || !is_digit(s[me + 1]) || !is_digit(
            s[me + 2],
        ) {
            None
        } else {
            let minv = digits_val(s.subrange(1, me));
            let sec = digit_val(s[me + 1]) * 10 + digit_val(s[me + 2]);
            let p = me + 3;
            if p < s.len() && s[p] == ']' {
                Some((tag_ms(minv, sec, 0) as u64, s.skip(p + 1)))
            } else if p < s.len() && s[p] == '.' {
                let fe = digits_end(s, p + 1);
                if p + 2 <= fe && fe <= p + 4 && fe < s.len() && s[fe] == ']' {
                    Some((tag_ms(minv, sec, frac_ms(s, p + 1, fe)) as u64, s.skip(fe + 1)))
                } else {
                    None
                }
            } else {
                None
            }
        }
    }
}

fn char_is_digit(c: char) -> (r: bool)
    ensures
        r == is_digit(c),
{
    let x: u32 = c as u32;
    48 <= x && x <= 57
}

fn digit_of(c: char) -> (r: u64)
    requires
        is_digit(c),
    ensures
        r == digit_val(c),
{
    (c as u32 - 48) as u64
}

/// Scan the minute digits that follow the opening bracket.  Stops after
/// eight digits: such a tag is malformed.
fn scan_minutes(s: &str) -> (r: (usize, u64))
    requires
        s@.len() >= 1,
    ensures
        ({
            let (i, minv) = r;
            &&& 1 <= i <= 9
            &&& i <= s@.len()
            &&& forall|j: int| 1 <= j < i ==> is_digit(s@[j])
            &&& minv == digits_val(s@.subrange(1, i as int))
            &&& (i <= 8 ==> minv <= 9999999)
            &&& (i < 9 ==> digits_end(s@, 1) == i)
            &&& (i == 9 ==> digits_end(s@, 1) >= 9)
        }),
{
    let n: usize = s.unicode_len();
    let mut i: usize = 1;
    let mut minv: u64 = 0;
    proof {
        assert(s@.subrange(1, 1) =~= Seq::<char>::empty());
    }
    while i < n && i < 9 && char_is_digit(s.get_char(i))
        invariant
            1 <= i <= 9,
            i <= n,
            n == s@.len(),
            forall|j: int| 1 <= j < i ==> is_digit(s@[j]),
            minv == digits_val(s@.subrange(1, i as int)),
            minv < pow10((i - 1) as nat),
        decreases n - i,
    {
        let d: u64 = digit_of(s.get_char(i));
        proof {
            lemma_pow10_range((i - 1) as nat);
            assert(s@.subrange(1, i + 1).drop_last() =~= s@.subrange(1, i as int));
            assert(s@.subrange(1, i + 1).last() == s@[i as int]);
            assert(pow10(i as nat) == 10 * pow10((i - 1) as nat));
        }
        minv = minv * 10 + d;
        i = i + 1;
    }
    proof {
        if i <= 8 {
            lemma_pow10_range((i - 1) as nat);
        }
    }
    proof {
        if i == 9 {
            lemma_digits_end_ge(s@, 1, 9);
        } else if i == n {
            lemma_digits_end_eq(s@, 1, i as int);
        } else {
            assert(!is_digit(s@[i as int]));
            lemma_digits_end_eq(s@, 1, i as int);
        }
    }
    (i, minv)
}

/// Parse one lyric line into its millisecond offset and remaining text.
pub fn parse_tag_line(s: &str) -> (r: Option<(u64, String)>)
    ensures
        match r {
            Some(p) => parse_tag(s@) == Some((p.0, p.1@)),
            None => parse_tag(s@) is None,
        },
{
    let n: usize = s.unicode_len();
    if n == 0 {
        return None;
    }
    if s.get_char(0) != '[' {
        return None;
    }
    let sm = scan_minutes(s);
    let me: usize = sm.0;
    let minv: u64 = sm.1;
    if me == 1 || me == 9 {
        return None;
    }
    if me + 3 > n {
        return None;
    }
    if s.get_char(me) != ':' {
        return None;
    }
    if !char_is_digit(s.get_char(me + 1)) {
        return None;
    }
    if !char_is_digit(s.get_char(me + 2)) {
        return None;
    }
    let sec: u64 = digit_of(s.get_char(me + 1)) * 10 + digit_of(s.get_char(me + 2));
    let p: usize = me + 3;
    if p >= n {
        return None;
    }
    let cp: char = s.get_char(p);
    if cp == ']' {
        let time: u64 = minv * 60000 + sec * 1000;
        let text: String = String::from_str(s.substring_char(p + 1, n));
        proof {
            assert(s@.skip(p + 1) =~= s@.subrange(p + 1, n as int));
            assert(parse_tag(s@) == Some((time, text@)));
        }
        return Some((time, text));
    }
    if cp != '.' {
        return None;
    }
    let q: usize = p + 1;
    if q >= n || !char_is_digit(s.get_char(q)) {
        proof {
            lemma_digits_end_eq(s@, q as int, q as int);
        }
        return None;
    }
    let d1: u64 = digit_of(s.get_char(q));
    let c2: bool = q + 1 < n && char_is_digit(s.get_char(q + 1));
    let c3: bool = c2 && q + 2 < n && char_is_digit(s.get_char(q + 2));
    let c4: bool = c3 && q + 3 < n && char_is_digit(s.get_char(q + 3));
    if c4 {
        proof {
            lemma_digits_end_ge(s@, q as int, q + 4);
        }
        return None;
    }
    let fe: usize = if c3 {
        q + 3
    } else if c2 {
        q + 2
    } else {
        q + 1
    };
    let frac: u64 = if c3 {
        d1 * 100 + digit_of(s.get_char(q + 1)) * 10 + digit_of(s.get_char(q + 2))
    } else if c2 {
        d1 * 100 + digit_of(s.get_char(q + 1)) * 10
    } else {
        d1 * 100
    };
    proof {
        lemma_digits_end_eq(s@, q as int, fe as int);
    }
    if fe >= n {
        return None;
    }
    if s.get_char(fe) != ']' {
        return None;
    }
    let time: u64 = minv * 60000 + sec * 1000 + frac;
    let text: String = String::from_str(s.substring_char(fe + 1, n));
    proof {
        assert(s@.skip(fe + 1) =~= s@.subrange(fe + 1, n as int));
        assert(parse_tag(s@) == Some((time, text@)));
    }
    Some((time, text))
}

/// Timestamp of a line, when its tag is well-formed.
pub open spec fn line_time(l: Seq<char>) -> Option<u64> {
    match parse_tag(l) {
        Some(p) => Some(p.0),
        None => None,
    }
}

/// Text of a line after its tag; the empty sequence when malformed.
pub open spec fn line_text(l: Seq<char>) -> Seq<char> {
    match parse_tag(l) {
        Some(p) => p.1,
        None => Seq::empty(),
    }
}

/// Text of the first line of `lines` whose tag names timestamp `t`.
pub open spec fn first_text_at(lines: Seq<Seq<char>>, t: u64) -> Option<Seq<char>>
    decreases lines.len(),
{
    if lines.len() == 0 {
        None
    } else if line_time(lines[0]) == Some(t) {
        Some(line_text(lines[0]))
    } else {
        first_text_at(lines.drop_first(), t)
    }
}

pub proof fn lemma_first_text_push(lines: Seq<Seq<char>>, x: Seq<char>, t: u64)
    ensures
        first_text_at(lines.push(x), t) == (if first_text_at(lines, t) is Some {
            first_text_at(lines, t)
        } else if line_time(x) == Some(t) {
            Some(line_text(x))
        } else {
            None
        }),
    decreases lines.len(),
{
    if lines.len() == 0 {
        assert(lines.push(x)[0] == x);
        assert(lines.push(x).drop_first() =~= Seq::<Seq<char>>::empty());
        assert(first_text_at(Seq::<Seq<char>>::empty(), t) is None);
        assert(first_text_at(lines, t) is None);
    } else {
        assert(lines.push(x)[0] == lines[0]);
        assert(lines.push(x).drop_first() =~= lines.drop_first().push(x));
        lemma_first_text_push(lines.drop_first(), x, t);
    }
}

/// Timestamps strictly increase along the model.
pub open spec fn sorted_unique(s: Seq<LyricLine>) -> bool {
    forall|i: int, j: int| 0 <= i < j < s.len() ==> s[i].time_ms < s[j].time_ms
}

pub open spec fn has_time(s: Seq<LyricLine>, t: u64) -> bool {
    exists|i: int| 0 <= i < s.len() && s[i].time_ms == t
}

pub open spec fn opt_text(o: Option<String>) -> Option<Seq<char>> {
    match o {
        Some(s) => Some(s@),
        None => None,
    }
}

/// `r` is the merge of primary lines `lines` with translations `tlines`:
/// strictly time-ordered; one entry for each primary timestamp, carrying the
/// first primary text at that time; the translation attached exactly when a
/// translated line shares the timestamp.  Translation-only timestamps do not
/// appear.
pub open spec fn is_merged(r: Seq<LyricLine>, lines: Seq<Seq<char>>, tlines: Seq<Seq<char>>) -> bool {
    &&& sorted_unique(r)
    &&& forall|i: int| 0 <= i < r.len() ==> first_text_at(lines, r[i].time_ms) == Some(r[i].text@)
    &&& forall|i: int| 0 <= i < r.len() ==> opt_text(r[i].tlyric) == first_text_at(
        tlines,
        r[i].time_ms,
    )
    &&& forall|t: u64| first_text_at(lines, t) is Some ==> has_time(r, t)
}

/// Insert a primary line into the sorted model, keeping the first text seen
/// for a timestamp.
#[verifier::rlimit(50)]
fn insert_line(out: &mut Vec<LyricLine>, t: u64, text: String)
    requires
        sorted_unique(old(out)@),
    ensures
        sorted_unique(final(out)@),
        forall|t2: u64| has_time(final(out)@, t2) <==> (has_time(old(out)@, t2) || t2 == t),
        forall|i: int| #![trigger final(out)@[i]]
            0 <= i < final(out)@.len() ==> (if final(out)@[i].time_ms == t && !has_time(
                old(out)@,
                t,
            ) {
                final(out)@[i].text == text && final(out)@[i].tlyric is None
            } else {
                exists|j: int| 0 <= j < old(out)@.len() && final(out)@[i] == old(out)@[j]
            }),
{
    let n: usize = out.len();
    let mut idx: usize = 0;
    while idx < n && out[idx].time_ms < t
        invariant
            idx <= n,
            n == out@.len(),
            out@ == old(out)@,
            sorted_unique(out@),
            forall|j: int| 0 <= j < idx ==> out@[j].time_ms < t,
        decreases n - idx,
    {
        idx = idx + 1;
    }
    if idx < n && out[idx].time_ms == t {
        proof {
            assert(has_time(out@, t));
            assert forall|i: int| #![trigger out@[i]] 0 <= i < out@.len() implies exists|j: int|
                0 <= j < old(out)@.len() && out@[i] == old(out)@[j] by {
                assert(out@[i] == old(out)@[i]);
            }
        }
        return ;
    }
    proof {
        assert forall|j: int| 0 <= j < out@.len() implies out@[j].time_ms != t by {
            if j >= idx {
                if j > idx {
                    assert(out@[idx as int].time_ms < out@[j].time_ms);
                }
            }
        }
        assert(!has_time(old(out)@, t));
        old(out)@.insert_ensures(idx as int, (LyricLine { time_ms: t, text: text, tlyric: None }));
    }
    let ghost pre = out@;
    out.insert(idx, LyricLine { time_ms: t, text, tlyric: None });
    proof {
        let v = out@;
        assert(v == pre.insert(idx as int, (LyricLine { time_ms: t, text: text, tlyric: None })));
        assert forall|i: int, j: int| 0 <= i < j < v.len() implies v[i].time_ms < v[j].time_ms by {
            if i < idx && j < idx {
            } else if i < idx && j == idx {
                assert(v[i] == pre[i]);
            } else if i == idx {
                assert(v[j] == pre[j - 1]);
                assert(pre[j - 1].time_ms != t);
                assert(pre[j - 1].time_ms >= t) by {
                    if j - 1 > idx {
                        assert(pre[idx as int].time_ms < pre[j - 1].time_ms);
                        assert(pre[idx as int].time_ms > t || pre[idx as int].time_ms == t
                            || pre[idx as int].time_ms < t);
                    }
                }
            } else if i > idx {
                assert(v[i] == pre[i - 1]);
                assert(v[j] == pre[j - 1]);
            } else {
                assert(v[i] == pre[i]);
                assert(v[j] == pre[j - 1]);
                assert(pre[j - 1].time_ms >= t);
            }
        }
        assert forall|t2: u64| has_time(v, t2) <==> (has_time(pre, t2) || t2 == t) by {
            if has_time(v, t2) {
                let i = choose|i: int| 0 <= i < v.len() && v[i].time_ms == t2;
                if i < idx {
                    assert(pre[i].time_ms == t2);
                } else if i == idx {
                } else {
                    assert(pre[i - 1].time_ms == t2);
                }
            }
            if has_time(pre, t2) {
                let j = choose|j: int| 0 <= j < pre.len() && pre[j].time_ms == t2;
                if j < idx {
                    assert(v[j].time_ms == t2);
                } else {
                    assert(v[j + 1].time_ms == t2);
                }
            }
            if t2 == t {
                assert(v[idx as int].time_ms == t);
            }
        }
        assert forall|i: int| #![trigger v[i]] 0 <= i < v.len() implies (if v[i].time_ms == t
            && !has_time(pre, t) {
            v[i].text == text && v[i].tlyric is None
        } else {
            exists|j: int| 0 <= j < pre.len() && v[i] == pre[j]
        }) by {
            if i < idx {
                assert(v[i] == pre[i]);
                assert(pre[i].time_ms != t);
            } else if i == idx {
            } else {
                assert(v[i] == pre[i - 1]);
                assert(pre[i - 1].time_ms != t);
            }
        }
    }
}

/// Attach a translated text to the entry anchored at `t`, if that entry
/// exists and has no translation yet.
fn attach_translation(out: &mut Vec<LyricLine>, t: u64, text: String)
    requires
        sorted_unique(old(out)@),
    ensures
        final(out)@.len() == old(out)@.len(),
        forall|i: int|
            0 <= i < old(out)@.len() ==> final(out)@[i].time_ms == old(out)@[i].time_ms
                && final(out)@[i].text == old(out)@[i].text,
        forall|i: int|
            0 <= i < old(out)@.len() ==> final(out)@[i].tlyric == (if old(out)@[i].time_ms == t
                && old(out)@[i].tlyric is None {
                Some(text)
            } else {
                old(out)@[i].tlyric
            }),
{
    let n: usize = out.len();
    let mut idx: usize = 0;
    while idx < n
        invariant
            idx <= n,
            n == out@.len(),
            out@ == old(out)@,
            sorted_unique(out@),
            forall|j: int| 0 <= j < idx ==> out@[j].time_ms != t || !(out@[j].tlyric is None),
        decreases n - idx,
    {
        let hit: bool = out[idx].time_ms == t;
        if hit {
            let still_none: bool = match &out[idx].tlyric {
                Option::None => true,
                Option::Some(_) => false,
            };
            if still_none {
                let e: LyricLine = out.remove(idx);
                let ghost pre = old(out)@;
                out.insert(
                    idx,
                    LyricLine { time_ms: e.time_ms, text: e.text, tlyric: Some(text) },
                );
                proof {
                    pre.remove_ensures(idx as int);
                    pre.remove(idx as int).insert_ensures(
                        idx as int,
                        (LyricLine { time_ms: e.time_ms, text: e.text, tlyric: Some(text) }),
                    );
                    assert(out@ =~= pre.update(
                        idx as int,
                        (LyricLine { time_ms: e.time_ms, text: e.text, tlyric: Some(text) }),
                    ));
                    assert forall|i: int| 0 <= i < pre.len() && i != idx implies out@[i]
                        == pre[i] by {}
                    assert forall|i: int| 0 <= i < pre.len() && i != idx implies pre[i].time_ms
                        != t by {
                        if i < idx {
                            assert(pre[i].time_ms < pre[idx as int].time_ms);
                        } else {
                            assert(pre[idx as int].time_ms < pre[i].time_ms);
                        }
                    }
                }
                return ;
            } else {
                proof {
                    assert(!(out@[idx as int].tlyric is None));
                }
            }
        }
        idx = idx + 1;
    }
}

/// Merge the primary line set with the translated line set into one ordered
/// sequence of timed lyric lines.  Lines with malformed tags are skipped;
/// for a repeated primary timestamp the first text wins; a translation is
/// kept only when a primary line anchors its timestamp.
pub fn parse_netease_lyrics(lyric: Vec<String>, tlyric: Vec<String>) -> (r: Vec<LyricLine>)
    ensures
        is_merged(r@, lyric.deep_view(), tlyric.deep_view()),
{
    let ghost lseq = lyric.deep_view();
    let ghost tseq = tlyric.deep_view();
    let mut out: Vec<LyricLine> = Vec::new();
    let mut k: usize = 0;
    proof {
        assert(lseq.take(0) =~= Seq::<Seq<char>>::empty());
    }
    while k < lyric.len()
        invariant
            k <= lyric.len(),
            lseq == lyric.deep_view(),
            lseq.len() == lyric@.len(),
            sorted_unique(out@),
            forall|i: int|
                0 <= i < out@.len() ==> first_text_at(lseq.take(k as int), out@[i].time_ms)
                    == Some(out@[i].text@),
            forall|i: int| 0 <= i < out@.len() ==> out@[i].tlyric is None,
            forall|t: u64| first_text_at(lseq.take(k as int), t) is Some ==> has_time(out@, t),
        decreases lyric.len() - k,
    {
        let ghost prefix = lseq.take(k as int);
        let ghost x = lseq[k as int];
        proof {
            assert(x == lyric@[k as int]@);
            assert(lseq.take(k + 1) =~= prefix.push(x));
        }
        let parsed = parse_tag_line(lyric[k].as_str());
        proof {
            assert(lyric@[k as int]@ == x);
            assert forall|t2: u64| #[trigger] first_text_at(prefix.push(x), t2) == (if first_text_at(
                prefix,
                t2,
            ) is Some {
                first_text_at(prefix, t2)
            } else if line_time(x) == Some(t2) {
                Some(line_text(x))
            } else {
                None
            }) by {
                lemma_first_text_push(prefix, x, t2);
            }
        }
        match parsed {
            Option::Some(pair) => {
                let ghost pre_out = out@;
                let (t, text) = pair;
                proof {
                    assert(line_time(x) == Some(t));
                    assert(line_text(x) == text@);
                }
                insert_line(&mut out, t, text);
                proof {
                    assert forall|i: int|
                        0 <= i < out@.len() implies first_text_at(lseq.take(k + 1), out@[i].time_ms)
                        == Some(out@[i].text@) by {
                        if out@[i].time_ms == t && !has_time(pre_out, t) {
                            assert(first_text_at(prefix, t) is None);
                        } else {
                            let j = choose|j: int| 0 <= j < pre_out.len() && out@[i] == pre_out[j];
                            assert(first_text_at(prefix, pre_out[j].time_ms) == Some(
                                pre_out[j].text@,
                            ));
                        }
                    }
                    assert forall|t2: u64|
                        first_text_at(lseq.take(k + 1), t2) is Some implies has_time(out@, t2) by {
                        if first_text_at(prefix, t2) is Some {
                            assert(has_time(pre_out, t2));
                        } else {
                            assert(line_time(x) == Some(t2));
                        }
                    }
                    assert forall|i: int| 0 <= i < out@.len() implies out@[i].tlyric is None by {
                        if out@[i].time_ms == t && !has_time(pre_out, t) {
                        } else {
                            let j = choose|j: int| 0 <= j < pre_out.len() && out@[i] == pre_out[j];
                        }
                    }
                }
            },
            Option::None => {
                proof {
                    assert(line_time(x) is None);
                }
            },
        }
        k = k + 1;
    }
    proof {
        assert(lseq.take(lyric@.len() as int) =~= lseq);
        assert(tseq.take(0) =~= Seq::<Seq<char>>::empty());
        assert forall|i: int| 0 <= i < out@.len() implies opt_text(out@[i].tlyric) == first_text_at(
            tseq.take(0),
            out@[i].time_ms,
        ) by {}
    }
    let mut m: usize = 0;
    while m < tlyric.len()
        invariant
            m <= tlyric.len(),
            tseq == tlyric.deep_view(),
            tseq.len() == tlyric@.len(),
            sorted_unique(out@),
            forall|i: int|
                0 <= i < out@.len() ==> first_text_at(lseq, out@[i].time_ms) == Some(out@[i].text@),
            forall|t: u64| first_text_at(lseq, t) is Some ==> has_time(out@, t),
            forall|i: int|
                0 <= i < out@.len() ==> opt_text(out@[i].tlyric) == first_text_at(
                    tseq.take(m as int),
                    out@[i].time_ms,
                ),
        decreases tlyric.len() - m,
    {
        let ghost prefix = tseq.take(m as int);
        let ghost x = tseq[m as int];
        proof {
            assert(x == tlyric@[m as int]@);
            assert(tseq.take(m + 1) =~= prefix.push(x));
        }
        let parsed = parse_tag_line(tlyric[m].as_str());
        proof {
            assert(tlyric@[m as int]@ == x);
            assert forall|t2: u64| #[trigger] first_text_at(prefix.push(x), t2) == (if first_text_at(
                prefix,
                t2,
            ) is Some {
                first_text_at(prefix, t2)
            } else if line_time(x) == Some(t2) {
                Some(line_text(x))
            } else {
                None
            }) by {
                lemma_first_text_push(prefix, x, t2);
            }
        }
        match parsed {
            Option::Some(pair) => {
                let ghost pre_out = out@;
                let (t, text) = pair;
                proof {
                    assert(line_time(x) == Some(t));
                    assert(line_text(x) == text@);
                }
                attach_translation(&mut out, t, text);
                proof {
                    assert forall|i: int|
                        0 <= i < out@.len() implies opt_text(out@[i].tlyric) == first_text_at(
                        tseq.take(m + 1),
                        out@[i].time_ms,
                    ) by {
                        assert(out@[i].time_ms == pre_out[i].time_ms);
                        if pre_out[i].time_ms == t && pre_out[i].tlyric is None {
                            assert(first_text_at(prefix, t) is None);
                        }
                    }
                    assert forall|i: int, j: int|
                        0 <= i < j < out@.len() implies out@[i].time_ms < out@[j].time_ms by {
                        assert(out@[i].time_ms == pre_out[i].time_ms);
                        assert(out@[j].time_ms == pre_out[j].time_ms);
                    }
                    assert forall|t2: u64|
                        first_text_at(lseq, t2) is Some implies has_time(out@, t2) by {
                        assert(has_time(pre_out, t2));
                        let j = choose|j: int| 0 <= j < pre_out.len() && pre_out[j].time_ms == t2;
                        assert(out@[j].time_ms == t2);
                    }
                }
            },
            Option::None => {
                proof {
                    assert(line_time(x) is None);
                }
            },
        }
        m = m + 1;
    }
    proof {
        assert(tseq.take(tlyric@.len() as int) =~= tseq);
    }
    out
}

} // verus!
