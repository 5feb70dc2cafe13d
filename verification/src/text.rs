//! Text as sequences of characters: search, trimming and case folding.
//!
//! Every contract here speaks of `Seq<char>`, the view of `str` and `String`.
//! Offsets count characters, not bytes.

use vstd::prelude::*;

verus! {

/// The view of an optional text.
pub open spec fn text_view(text: Option<String>) -> Option<Seq<char>> {
    match text {
        Some(t) => Some(t@),
        None => None,
    }
}

/// `needle` stands in `hay` at character offset `at`.
pub open spec fn occurs_at(hay: Seq<char>, at: int, needle: Seq<char>) -> bool {
    &&& 0 <= at
    &&& at + needle.len() <= hay.len()
    &&& hay.subrange(at, at + needle.len()) == needle
}

/// `needle` stands somewhere in `hay`.
pub open spec fn contains_text(hay: Seq<char>, needle: Seq<char>) -> bool {
    exists|at: int| occurs_at(hay, at, needle)
}

/// `at` is the leftmost offset at which `needle` stands in `hay`.
pub open spec fn is_first_occurrence(hay: Seq<char>, at: int, needle: Seq<char>) -> bool {
    &&& occurs_at(hay, at, needle)
    &&& forall|earlier: int| 0 <= earlier < at ==> !occurs_at(hay, earlier, needle)
}

/// The leftmost offset at which `needle` stands in `hay`, if it stands there at all.
pub open spec fn first_occurrence(hay: Seq<char>, needle: Seq<char>) -> Option<int> {
    if contains_text(hay, needle) {
        Some(choose|at: int| is_first_occurrence(hay, at, needle))
    } else {
        None
    }
}

/// Some occurrence at or before `bound` implies a leftmost one.
proof fn lemma_leftmost_exists(hay: Seq<char>, needle: Seq<char>, bound: int)
    requires
        occurs_at(hay, bound, needle),
    ensures
        exists|at: int| is_first_occurrence(hay, at, needle),
    decreases bound,
{
    if exists|earlier: int| 0 <= earlier < bound && occurs_at(hay, earlier, needle) {
        let earlier = choose|earlier: int| 0 <= earlier < bound && occurs_at(hay, earlier, needle);
        lemma_leftmost_exists(hay, needle, earlier);
    } else {
        assert(is_first_occurrence(hay, bound, needle));
    }
}

/// A leftmost occurrence is the one that `first_occurrence` names.
pub proof fn lemma_first_occurrence_is(hay: Seq<char>, at: int, needle: Seq<char>)
    requires
        is_first_occurrence(hay, at, needle),
    ensures
        first_occurrence(hay, needle) == Some(at),
{
    let chosen = choose|c: int| is_first_occurrence(hay, c, needle);
    assert(is_first_occurrence(hay, chosen, needle));
    assert(chosen == at);
}

/// What `first_occurrence` names is a leftmost occurrence, and `None` means there is none.
pub proof fn lemma_first_occurrence_meaning(hay: Seq<char>, needle: Seq<char>)
    ensures
        match first_occurrence(hay, needle) {
            Some(at) => is_first_occurrence(hay, at, needle),
            None => forall|at: int| !occurs_at(hay, at, needle),
        },
{
    if contains_text(hay, needle) {
        let witness = choose|at: int| occurs_at(hay, at, needle);
        lemma_leftmost_exists(hay, needle, witness);
    }
}

/// The characters of `s`, in order.
pub fn chars_of(s: &str) -> (out: Vec<char>)
    ensures
        out@ == s@,
{
    let mut out: Vec<char> = Vec::new();
    for c in it: s.chars()
        invariant
            out@ == it.seq().take(it.index()),
    {
        out.push(c);
    }
    out
}

/// Whether `needle` stands in `hay` at offset `at`.
pub fn matches_at(hay: &[char], at: usize, needle: &[char]) -> (found: bool)
    ensures
        found == occurs_at(hay@, at as int, needle@),
{
    if needle.len() > hay.len() || at > hay.len() - needle.len() {
        return false;
    }
    let mut k: usize = 0;
    while k < needle.len()
        invariant
            k <= needle.len(),
            at + needle.len() <= hay.len(),
            forall|j: int| 0 <= j < k ==> hay@[at + j] == needle@[j],
        decreases needle.len() - k,
    {
        if hay[at + k] != needle[k] {
            assert(hay@.subrange(at as int, at + needle.len())[k as int] == hay@[at + k]);
            return false;
        }
        k += 1;
    }
    assert(hay@.subrange(at as int, at + needle.len()) =~= needle@);
    true
}

/// The leftmost offset at which `needle` stands in `hay`.
pub fn find_first(hay: &[char], needle: &[char]) -> (found: Option<usize>)
    ensures
        match found {
            Some(at) => is_first_occurrence(hay@, at as int, needle@),
            None => !contains_text(hay@, needle@),
        },
        first_occurrence(hay@, needle@) == match found {
            Some(at) => Some(at as int),
            None => None,
        },
{
    if needle.len() > hay.len() {
        return None;
    }
    let last: usize = hay.len() - needle.len();
    let mut at: usize = 0;
    while at < last
        invariant
            last == hay.len() - needle.len(),
            at <= last,
            forall|earlier: int| 0 <= earlier < at ==> !occurs_at(hay@, earlier, needle@),
        decreases last - at,
    {
        if matches_at(hay, at, needle) {
            proof {
                lemma_first_occurrence_is(hay@, at as int, needle@);
            }
            return Some(at);
        }
        at += 1;
    }
    if matches_at(hay, last, needle) {
        proof {
            lemma_first_occurrence_is(hay@, last as int, needle@);
        }
        return Some(last);
    }
    None
}

/// Whether `c` has the Unicode property White_Space.
pub open spec fn is_white_space(c: char) -> bool {
    ||| '\u{9}' <= c <= '\u{d}'
    ||| c == ' '
    ||| c == '\u{85}'
    ||| c == '\u{a0}'
    ||| c == '\u{1680}'
    ||| '\u{2000}' <= c <= '\u{200a}'
    ||| c == '\u{2028}'
    ||| c == '\u{2029}'
    ||| c == '\u{202f}'
    ||| c == '\u{205f}'
    ||| c == '\u{3000}'
}

/// Whether `c` has the Unicode property White_Space.
pub fn is_whitespace(c: char) -> (white: bool)
    ensures
        white == is_white_space(c),
{
    (c >= '\u{9}' && c <= '\u{d}') || c == ' ' || c == '\u{85}' || c == '\u{a0}' || c
        == '\u{1680}' || (c >= '\u{2000}' && c <= '\u{200a}') || c == '\u{2028}' || c
        == '\u{2029}' || c == '\u{202f}' || c == '\u{205f}' || c == '\u{3000}'
}

/// `s` without its leading white space.
pub open spec fn trim_start_of(s: Seq<char>) -> Seq<char>
    decreases s.len(),
{
    if s.len() > 0 && is_white_space(s.first()) {
        trim_start_of(s.drop_first())
    } else {
        s
    }
}

/// `s` without its trailing white space.
pub open spec fn trim_end_of(s: Seq<char>) -> Seq<char>
    decreases s.len(),
{
    if s.len() > 0 && is_white_space(s.last()) {
        trim_end_of(s.drop_last())
    } else {
        s
    }
}

/// `s` without its leading and trailing white space.
pub open spec fn trimmed(s: Seq<char>) -> Seq<char> {
    trim_end_of(trim_start_of(s))
}

/// Trailing white space is cut from the end only: what is left is a prefix.
pub proof fn lemma_trim_end_is_prefix(s: Seq<char>)
    ensures
        trim_end_of(s).len() <= s.len(),
        trim_end_of(s) == s.take(trim_end_of(s).len() as int),
    decreases s.len(),
{
    if s.len() > 0 && is_white_space(s.last()) {
        lemma_trim_end_is_prefix(s.drop_last());
        let kept = trim_end_of(s).len() as int;
        assert(s.drop_last().take(kept) =~= s.take(kept));
    } else {
        assert(s.take(s.len() as int) =~= s);
    }
}

/// The offset at which `chars[from..]` stops being white space.
fn skip_white_space(chars: &[char], from: usize) -> (start: usize)
    requires
        from <= chars.len(),
    ensures
        from <= start <= chars.len(),
        chars@.subrange(start as int, chars.len() as int) == trim_start_of(
            chars@.subrange(from as int, chars.len() as int),
        ),
{
    let mut start: usize = from;
    while start < chars.len() && is_whitespace(chars[start])
        invariant
            from <= start <= chars.len(),
            trim_start_of(chars@.subrange(start as int, chars.len() as int)) == trim_start_of(
                chars@.subrange(from as int, chars.len() as int),
            ),
        decreases chars.len() - start,
    {
        assert(chars@.subrange(start as int, chars.len() as int).drop_first()
            =~= chars@.subrange(start + 1, chars.len() as int));
        start += 1;
    }
    start
}

/// The offset at which the trailing white space of `chars[from..to]` begins.
fn drop_white_space(chars: &[char], from: usize, to: usize) -> (end: usize)
    requires
        from <= to <= chars.len(),
    ensures
        from <= end <= to,
        chars@.subrange(from as int, end as int) == trim_end_of(
            chars@.subrange(from as int, to as int),
        ),
{
    let mut end: usize = to;
    while end > from && is_whitespace(chars[end - 1])
        invariant
            from <= end <= to,
            to <= chars.len(),
            trim_end_of(chars@.subrange(from as int, end as int)) == trim_end_of(
                chars@.subrange(from as int, to as int),
            ),
        decreases end - from,
    {
        assert(chars@.subrange(from as int, end as int).drop_last() =~= chars@.subrange(
            from as int,
            end - 1,
        ));
        end -= 1;
    }
    end
}

/// `s` without its leading and trailing white space.
pub fn trim<'a>(s: &'a str) -> (out: &'a str)
    ensures
        out@ == trimmed(s@),
{
    let chars = chars_of(s);
    let start: usize = skip_white_space(chars.as_slice(), 0);
    let end: usize = drop_white_space(chars.as_slice(), start, chars.len());
    assert(chars@.subrange(0, chars.len() as int) =~= chars@);
    s.substring_char(start, end)
}

/// `s` without its trailing white space.
pub fn trim_end<'a>(s: &'a str) -> (out: &'a str)
    ensures
        out@ == trim_end_of(s@),
{
    let chars = chars_of(s);
    let end: usize = drop_white_space(chars.as_slice(), 0, chars.len());
    assert(chars@.subrange(0, chars.len() as int) =~= chars@);
    s.substring_char(0, end)
}

/// Whether `a` and `b` hold the same characters.
pub fn same_text(a: &str, b: &str) -> (same: bool)
    ensures
        same == (a@ == b@),
{
    let left = chars_of(a);
    let right = chars_of(b);
    if left.len() != right.len() {
        return false;
    }
    let found = matches_at(left.as_slice(), 0, right.as_slice());
    assert(left@.subrange(0, left@.len() as int) =~= left@);
    found
}

// What `str::to_lowercase` returns for the text `s`.
pub uninterp spec fn lowercase_of(s: Seq<char>) -> Seq<char>;

/// `str::to_lowercase`: the lowercase equivalent of `s` under the Unicode
/// case mapping. The mapping is not restated here; the result is a function
/// of the characters of `s` alone, named `lowercase_of`.
#[verifier::external_body]
pub(crate) fn to_lowercase(s: &str) -> (out: String)
    ensures
        out@ == lowercase_of(s@),
{
    s.to_lowercase()
}

} // verus!
