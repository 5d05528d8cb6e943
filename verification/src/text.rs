//! Text as a sequence of characters: runs, dot-separated fields, trimming
//! and substring search.

use vstd::prelude::*;

verus! {

/// How many characters at the front of `s` satisfy `p` before the first one
/// that does not.
pub open spec fn run_len(s: Seq<char>, p: spec_fn(char) -> bool) -> nat
    decreases s.len(),
{
    if s.len() > 0 && p(s[0]) {
        1 + run_len(s.skip(1), p)
    } else {
        0
    }
}

/// The run at the front of `s` lies within `s`, holds only characters that
/// satisfy `p`, and ends at the end of `s` or before one that does not.
pub proof fn lemma_run_len(s: Seq<char>, p: spec_fn(char) -> bool)
    ensures
        run_len(s, p) <= s.len(),
        forall|i: int| 0 <= i < run_len(s, p) ==> p(#[trigger] s[i]),
        run_len(s, p) < s.len() ==> !p(s[run_len(s, p) as int]),
    decreases s.len(),
{
    if s.len() > 0 && p(s[0]) {
        let t = s.skip(1);
        lemma_run_len(t, p);
        assert forall|i: int| 0 <= i < run_len(s, p) implies p(#[trigger] s[i]) by {
            if i > 0 {
                assert(s[i] == t[i - 1]);
            }
        }
    }
}

/// A prefix whose characters all satisfy `p` and that ends at the end of `s`
/// or before a character that does not is the run at the front of `s`.
pub proof fn lemma_run_len_unique(s: Seq<char>, p: spec_fn(char) -> bool, k: int)
    requires
        0 <= k <= s.len(),
        forall|i: int| 0 <= i < k ==> p(#[trigger] s[i]),
        k < s.len() ==> !p(s[k]),
    ensures
        run_len(s, p) == k,
    decreases s.len(),
{
    if s.len() > 0 && p(s[0]) {
        let t = s.skip(1);
        assert forall|i: int| 0 <= i < k - 1 implies p(#[trigger] t[i]) by {
            assert(t[i] == s[i + 1]);
        }
        lemma_run_len_unique(t, p, k - 1);
    }
}

/// The length of the text before the first `.` of `s`, or of all of `s` where
/// it holds none.
pub open spec fn field_len(s: Seq<char>) -> nat {
    run_len(s, |c: char| c != '.')
}

/// The field of `s` with index `k`, counted from 0, where `s` is cut at each
/// `.`; `None` where `s` has no more than `k` fields. Field 0 always exists.
pub open spec fn field(s: Seq<char>, k: nat) -> Option<Seq<char>>
    decreases k,
{
    let n = field_len(s) as int;
    if k == 0 {
        Some(s.take(n))
    } else if n < s.len() {
        field(s.skip(n + 1), (k - 1) as nat)
    } else {
        None
    }
}

/// A text that holds a dot is its first field, the dot, and the rest; one
/// that holds none is its first field.
pub proof fn lemma_field_split(s: Seq<char>)
    ensures
        field_len(s) <= s.len(),
        field_len(s) == s.len() ==> s == s.take(field_len(s) as int),
        field_len(s) < s.len() ==> s == s.take(field_len(s) as int) + seq!['.'] + s.skip(
            field_len(s) as int + 1,
        ),
{
    let n = field_len(s) as int;
    lemma_run_len(s, |c: char| c != '.');
    if n == s.len() {
        assert(s =~= s.take(n));
    } else {
        assert(s =~= s.take(n) + seq!['.'] + s.skip(n + 1));
    }
}

/// The fields after the first are the fields of what follows the first dot.
pub proof fn lemma_field_step(s: Seq<char>, k: nat)
    ensures
        field(s, 0) == Some(s.take(field_len(s) as int)),
        field_len(s) < s.len() ==> field(s, k + 1) == field(s.skip(field_len(s) as int + 1), k),
        field_len(s) >= s.len() ==> field(s, k + 1) is None,
{
    lemma_run_len(s, |c: char| c != '.');
}

/// The text of an optional field with the dot that precedes it.
pub open spec fn dot_and(f: Option<Seq<char>>) -> Seq<char> {
    match f {
        Some(t) => seq!['.'] + t,
        None => Seq::empty(),
    }
}

/// A text of at most three fields is its fields joined by dots.
pub proof fn lemma_fields_join(s: Seq<char>)
    requires
        field(s, 3) is None,
    ensures
        field(s, 0) is Some,
        s == field(s, 0)->0 + dot_and(field(s, 1)) + dot_and(field(s, 2)),
{
    let f0 = field(s, 0)->0;
    let t1 = dot_and(field(s, 1));
    let t2 = dot_and(field(s, 2));
    lemma_field_step(s, 0);
    lemma_field_step(s, 1);
    lemma_field_step(s, 2);
    lemma_field_split(s);
    if field_len(s) < s.len() {
        let r1 = s.skip(field_len(s) as int + 1);
        lemma_field_step(r1, 0);
        lemma_field_step(r1, 1);
        lemma_field_split(r1);
        if field_len(r1) < r1.len() {
            let r2 = r1.skip(field_len(r1) as int + 1);
            lemma_field_step(r2, 0);
            lemma_field_split(r2);
            assert(t2 == seq!['.'] + r2);
            assert(t1 + t2 =~= seq!['.'] + r1);
            assert(f0 + t1 + t2 =~= s);
        } else {
            assert(t1 == seq!['.'] + r1);
            assert(f0 + t1 + t2 =~= s);
        }
    } else {
        assert(f0 + t1 + t2 =~= s);
    }
}

/// A text without a dot that is followed by nothing or by a dot is the first
/// field of the whole, and what follows the dot is the rest.
pub proof fn lemma_field_of_prefix(t: Seq<char>, rest: Seq<char>)
    requires
        forall|i: int| 0 <= i < t.len() ==> #[trigger] t[i] != '.',
        rest.len() == 0 || rest[0] == '.',
    ensures
        field_len(t + rest) == t.len(),
        field(t + rest, 0) == Some(t),
        rest.len() > 0 ==> (t + rest).skip(t.len() as int + 1) == rest.skip(1),
{
    let s = t + rest;
    assert forall|i: int| 0 <= i < t.len() implies s[i] != '.' by {
        assert(s[i] == t[i]);
    }
    if rest.len() > 0 {
        assert(s[t.len() as int] == rest[0]);
        assert(s.skip(t.len() as int + 1) =~= rest.skip(1));
    }
    lemma_run_len_unique(s, |c: char| c != '.', t.len() as int);
    assert(s.take(t.len() as int) =~= t);
}

/// Whether `c` has the Unicode property White_Space: the ASCII space and
/// controls from tab to carriage return, next line, the no-break spaces, the
/// Ogham space mark, the spaces of the General Punctuation block, the line
/// and paragraph separators, the medium mathematical space and the
/// ideographic space.
pub open spec fn white_space(c: char) -> bool {
    ||| '\u{9}' <= c <= '\u{d}'
    ||| c == ' '
    ||| c == '\u{85}'
    ||| c == '\u{a0}'
    ||| c == '\u{1680}'
    ||| '\u{2000}' <= c <= '\u{200a}'
    ||| c == '\u{2028}'
    ||| c == '\u{2029}'
    ||| c == '\u{202f}'
    ||| c == '\u{205f}'
    ||| c == '\u{3000}'
}

/// `char::is_whitespace`: whether the character has the Unicode property
/// White_Space.
#[verifier::external_body]
fn is_white_space(c: char) -> (b: bool)
    ensures
        b == white_space(c),
{
    c.is_whitespace()
}

/// `s` without the white space at its two ends.
pub open spec fn trim(s: Seq<char>) -> Seq<char> {
    let rest = s.skip(run_len(s, |c: char| white_space(c)) as int);
    rest.take(rest.len() - run_len(rest.reverse(), |c: char| white_space(c)))
}

/// Trimming cuts a text into white space, a piece that neither begins nor
/// ends with white space, and white space again, and gives the piece.
pub proof fn law_trim(s: Seq<char>)
    ensures
        exists|a: int, b: int|
            {
                &&& 0 <= a <= b <= s.len()
                &&& #[trigger] s.subrange(a, b) == trim(s)
                &&& forall|i: int| 0 <= i < a ==> white_space(#[trigger] s[i])
                &&& forall|i: int| b <= i < s.len() ==> white_space(#[trigger] s[i])
            },
        trim(s).len() > 0 ==> !white_space(trim(s).first()) && !white_space(trim(s).last()),
{
    let ws = |c: char| white_space(c);
    let a = run_len(s, ws) as int;
    lemma_run_len(s, ws);
    let rest = s.skip(a);
    let back = rest.reverse();
    let k = run_len(back, ws) as int;
    lemma_run_len(back, ws);
    let b = s.len() - k;
    assert(s.subrange(a, b) =~= trim(s));
    assert forall|i: int| b <= i < s.len() implies white_space(#[trigger] s[i]) by {
        assert(back[s.len() - 1 - i] == s[i]);
    }
    if trim(s).len() > 0 {
        assert(trim(s).first() == s[a]);
        assert(trim(s).last() == back[k]);
    }
}

/// Every character of `s` is white space.
pub open spec fn all_white_space(s: Seq<char>) -> bool {
    forall|i: int| 0 <= i < s.len() ==> white_space(#[trigger] s[i])
}

/// Trimming takes away the white space around a text that neither begins nor
/// ends with white space, and nothing else.
pub proof fn law_trim_padded(lead: Seq<char>, t: Seq<char>, trail: Seq<char>)
    requires
        all_white_space(lead),
        all_white_space(trail),
        t.len() > 0 ==> !white_space(t.first()) && !white_space(t.last()),
    ensures
        trim(lead + t + trail) == t,
{
    let ws = |c: char| white_space(c);
    let s = lead + t + trail;
    if t.len() == 0 {
        assert forall|i: int| 0 <= i < s.len() implies ws(#[trigger] s[i]) by {
            if i < lead.len() {
                assert(s[i] == lead[i]);
            } else {
                assert(s[i] == trail[i - lead.len()]);
            }
        }
        lemma_run_len_unique(s, ws, s.len() as int);
        let rest = s.skip(s.len() as int);
        lemma_run_len(rest.reverse(), ws);
        assert(trim(s) =~= t);
    } else {
        assert forall|i: int| 0 <= i < lead.len() implies ws(#[trigger] s[i]) by {
            assert(s[i] == lead[i]);
        }
        assert(s[lead.len() as int] == t.first());
        lemma_run_len_unique(s, ws, lead.len() as int);
        let rest = s.skip(lead.len() as int);
        assert(rest =~= t + trail);
        let back = rest.reverse();
        assert forall|i: int| 0 <= i < trail.len() implies ws(#[trigger] back[i]) by {
            assert(back[i] == trail[trail.len() - 1 - i]);
        }
        assert(back[trail.len() as int] == t.last());
        lemma_run_len_unique(back, ws, trail.len() as int);
        assert(trim(s) =~= t);
    }
}

/// `pat` stands in `s` at index `i`.
pub open spec fn occurs_at(s: Seq<char>, pat: Seq<char>, i: int) -> bool {
    &&& 0 <= i
    &&& i + pat.len() <= s.len()
    &&& s.subrange(i, i + pat.len()) == pat
}

/// The least index at or after `from` at which `pat` stands in `s`.
pub open spec fn find_from(s: Seq<char>, pat: Seq<char>, from: int) -> Option<int>
    decreases s.len() - from + 1,
{
    if from < 0 || from + pat.len() > s.len() {
        None
    } else if occurs_at(s, pat, from) {
        Some(from)
    } else {
        find_from(s, pat, from + 1)
    }
}

/// The index of the first occurrence of `pat` in `s`.
pub open spec fn find(s: Seq<char>, pat: Seq<char>) -> Option<int> {
    find_from(s, pat, 0)
}

/// `find_from` gives an occurrence that no other at or after `from` precedes,
/// and gives none only where there is none.
pub proof fn law_find_is_first(s: Seq<char>, pat: Seq<char>, from: int)
    requires
        0 <= from,
    ensures
        match find_from(s, pat, from) {
            Some(i) => from <= i && occurs_at(s, pat, i) && forall|j: int|
                from <= j < i ==> !occurs_at(s, pat, j),
            None => forall|j: int| from <= j ==> !occurs_at(s, pat, j),
        },
    decreases s.len() - from + 1,
{
    if from + pat.len() <= s.len() && !occurs_at(s, pat, from) {
        law_find_is_first(s, pat, from + 1);
    }
}

/// The characters of `s`, one by one.
pub fn chars_of(s: &str) -> (v: Vec<char>)
    ensures
        v@ == s@,
{
    let mut v: Vec<char> = Vec::new();
    for c in it: s.chars()
        invariant
            it.seq() == s@,
            v@.len() == it.index(),
            forall|j: int| 0 <= j < v@.len() ==> v@[j] == it.seq()[j],
    {
        v.push(c);
    }
    assert(v@ =~= s@);
    v
}

/// The characters of `text` from `from` up to `to`, as a string.
pub fn string_of(text: &[char], from: usize, to: usize) -> (s: String)
    requires
        from <= to <= text@.len(),
    ensures
        s@ == text@.subrange(from as int, to as int),
{
    let mut s = String::new();
    let mut i: usize = from;
    while i < to
        invariant
            from <= i <= to <= text@.len(),
            s@ == text@.subrange(from as int, i as int),
        decreases to - i,
    {
        s.push(text[i]);
        i += 1;
        assert(s@ =~= text@.subrange(from as int, i as int));
    }
    s
}

/// Where the field that starts at `from` ends: at the next `.` or at the end
/// of `text`.
pub fn field_end(text: &[char], from: usize) -> (end: usize)
    requires
        from <= text@.len(),
    ensures
        from <= end <= text@.len(),
        end - from == field_len(text@.skip(from as int)),
{
    let mut end: usize = from;
    while end < text.len() && text[end] != '.'
        invariant
            from <= end <= text@.len(),
            forall|j: int| from <= j < end ==> text@[j] != '.',
        decreases text@.len() - end,
    {
        end += 1;
    }
    proof {
        lemma_run_len_unique(text@.skip(from as int), |c: char| c != '.', end - from);
    }
    end
}

/// The bounds of `text[from..to]` without the white space at its two ends.
pub fn trim_bounds(text: &[char], from: usize, to: usize) -> (r: (usize, usize))
    requires
        from <= to <= text@.len(),
    ensures
        from <= r.0 <= r.1 <= to,
        text@.subrange(r.0 as int, r.1 as int) == trim(text@.subrange(from as int, to as int)),
{
    let ghost s = text@.subrange(from as int, to as int);
    let ghost ws = |c: char| white_space(c);
    let mut a: usize = from;
    while a < to && is_white_space(text[a])
        invariant
            from <= a <= to <= text@.len(),
            forall|j: int| from <= j < a ==> white_space(text@[j]),
        decreases to - a,
    {
        a += 1;
    }
    let ghost rest = s.skip(a - from);
    proof {
        lemma_run_len_unique(s, ws, a - from);
        assert(rest =~= text@.subrange(a as int, to as int));
    }
    let mut b: usize = to;
    while b > a && is_white_space(text[b - 1])
        invariant
            a <= b <= to <= text@.len(),
            forall|j: int| b <= j < to ==> white_space(text@[j]),
        decreases b - a,
    {
        b -= 1;
    }
    proof {
        lemma_run_len_unique(rest.reverse(), ws, to - b);
        assert(text@.subrange(a as int, b as int) =~= rest.take(rest.len() - (to - b)));
    }
    (a, b)
}

/// Whether `pat` stands in `text` at index `i`.
pub fn matches_at(text: &[char], pat: &[char], i: usize) -> (b: bool)
    ensures
        b == occurs_at(text@, pat@, i as int),
{
    if pat.len() > text.len() || i > text.len() - pat.len() {
        return false;
    }
    let mut k: usize = 0;
    while k < pat.len()
        invariant
            i + pat.len() <= text.len(),
            k <= pat.len(),
            forall|j: int| 0 <= j < k ==> text@[i + j] == pat@[j],
        decreases pat@.len() - k,
    {
        if text[i + k] != pat[k] {
            proof {
                assert(text@.subrange(i as int, i + pat@.len())[k as int] == text@[i + k]);
            }
            return false;
        }
        k += 1;
    }
    assert(text@.subrange(i as int, i + pat@.len()) =~= pat@);
    true
}

/// The index of the first occurrence of `pat` in `text`.
pub fn find_first(text: &[char], pat: &[char]) -> (r: Option<usize>)
    ensures
        r matches Some(i) ==> (find(text@, pat@) == Some(i as int) && i + pat@.len()
            <= text@.len()),
        r is None ==> find(text@, pat@) is None,
{
    if pat.len() > text.len() {
        return None;
    }
    let last: usize = text.len() - pat.len();
    let mut i: usize = 0;
    while i < last
        invariant
            i <= last,
            last + pat.len() == text.len(),
            find(text@, pat@) == find_from(text@, pat@, i as int),
        decreases last - i,
    {
        if matches_at(text, pat, i) {
            return Some(i);
        }
        i += 1;
    }
    assert(find_from(text@, pat@, last + 1) is None);
    if matches_at(text, pat, last) {
        Some(last)
    } else {
        None
    }
}

} // verus!
