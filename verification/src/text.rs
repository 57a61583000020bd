//! Text helpers over `String` and `&str`, stated over their views.

use vstd::prelude::*;
use vstd::string::*;
use crate::lift::views;

verus! {

/// Whether `prefix` stands at the start of `s`.
pub open spec fn starts_with(s: Seq<char>, prefix: Seq<char>) -> bool {
    prefix.len() <= s.len() && s.subrange(0, prefix.len() as int) == prefix
}

/// What follows the first `n` characters of `s`.
pub open spec fn after(s: Seq<char>, n: nat) -> Seq<char> {
    s.subrange(n as int, s.len() as int)
}

/// Compares two strings character by character.
pub fn str_eq(a: &str, b: &str) -> (same: bool)
    ensures
        same == (a@ == b@),
{
    let left = String::from_str(a);
    let right = String::from_str(b);
    left == right
}

/// Whether the first `prefix.len()` characters of `s` are those of `prefix`.
pub fn has_prefix(s: &str, prefix: &str) -> (found: bool)
    ensures
        found == starts_with(s@, prefix@),
{
    let n = s.unicode_len();
    let m = prefix.unicode_len();
    if n < m {
        return false;
    }
    let mut i: usize = 0;
    while i < m
        invariant
            i <= m,
            m == prefix@.len(),
            n == s@.len(),
            m <= n,
            forall|j: int| 0 <= j < i ==> s@[j] == prefix@[j],
        decreases m - i,
    {
        if s.get_char(i) != prefix.get_char(i) {
            assert(s@.subrange(0, m as int)[i as int] == s@[i as int]);
            return false;
        }
        i += 1;
    }
    assert(s@.subrange(0, m as int) =~= prefix@);
    true
}

/// The rest of `s` behind `prefix`, when `s` starts with it.
pub fn strip_prefix(s: &str, prefix: &str) -> (rest: Option<String>)
    ensures
        match rest {
            Some(r) => starts_with(s@, prefix@) && r@ == after(s@, prefix@.len()),
            None => !starts_with(s@, prefix@),
        },
{
    if has_prefix(s, prefix) {
        let n = s.unicode_len();
        let m = prefix.unicode_len();
        Some(String::from_str(s.substring_char(m, n)))
    } else {
        None
    }
}

/// `a`, `b` and `c` one after the other.
pub fn concat3(a: &str, b: &str, c: &str) -> (joined: String)
    ensures
        joined@ == a@ + b@ + c@,
{
    let mut out = String::from_str(a);
    out.append(b);
    out.append(c);
    out
}

/// Whether a character is white space: whether it is one of the characters
/// to which Unicode gives the property `White_Space`.
pub open spec fn white_space(c: char) -> bool {
    let code = c as u32;
    ||| 0x09 <= code <= 0x0d
    ||| code == 0x20
    ||| code == 0x85
    ||| code == 0xa0
    ||| code == 0x1680
    ||| 0x2000 <= code <= 0x200a
    ||| code == 0x2028
    ||| code == 0x2029
    ||| code == 0x202f
    ||| code == 0x205f
    ||| code == 0x3000
}

/// Whether a character is white space.
pub fn is_white_space(c: char) -> (white: bool)
    ensures
        white == white_space(c),
{
    let code: u32 = c as u32;
    (0x09 <= code && code <= 0x0d) || code == 0x20 || code == 0x85 || code == 0xa0 || code
        == 0x1680 || (0x2000 <= code && code <= 0x200a) || code == 0x2028 || code == 0x2029
        || code == 0x202f || code == 0x205f || code == 0x3000
}

/// How many marks stand at the start without a gap.
pub open spec fn leading(marked: Seq<bool>) -> nat
    decreases marked.len(),
{
    if marked.len() > 0 && marked.first() {
        1 + leading(marked.drop_first())
    } else {
        0
    }
}

/// How many marks stand at the end without a gap.
pub open spec fn trailing(marked: Seq<bool>) -> nat
    decreases marked.len(),
{
    if marked.len() > 0 && marked.last() {
        1 + trailing(marked.drop_last())
    } else {
        0
    }
}

/// `s` without the marked characters at its start and, of what is left,
/// without the marked characters at its end. Marks that are not as many as
/// the characters mark nothing.
pub open spec fn trimmed_by(s: Seq<char>, marked: Seq<bool>) -> Seq<char> {
    if marked.len() != s.len() {
        s
    } else {
        let start = leading(marked);
        let end = marked.len() - trailing(marked.skip(start as int));
        s.subrange(start as int, end)
    }
}

/// For each character, whether it is white space.
pub open spec fn white_spaces(s: Seq<char>) -> Seq<bool> {
    Seq::new(s.len(), |i: int| white_space(s[i]))
}

/// `s` without the white space at its two ends.
pub open spec fn trimmed(s: Seq<char>) -> Seq<char> {
    trimmed_by(s, white_spaces(s))
}

/// The first `count` characters are marked and the next one is not: that many
/// marks stand at the start.
pub proof fn lemma_leading(marked: Seq<bool>, count: int)
    requires
        0 <= count <= marked.len(),
        forall|j: int| 0 <= j < count ==> marked[j],
        count == marked.len() || !marked[count],
    ensures
        leading(marked) == count,
    decreases count,
{
    if count > 0 {
        assert(marked.first());
        let rest = marked.drop_first();
        assert forall|j: int| 0 <= j < count - 1 implies rest[j] by {
            assert(marked[j + 1]);
        }
        lemma_leading(rest, count - 1);
    }
}

/// The last `count` characters are marked and the one before them is not:
/// that many marks stand at the end.
pub proof fn lemma_trailing(marked: Seq<bool>, count: int)
    requires
        0 <= count <= marked.len(),
        forall|j: int| marked.len() - count <= j < marked.len() ==> marked[j],
        count == marked.len() || !marked[marked.len() - count - 1],
    ensures
        trailing(marked) == count,
    decreases count,
{
    if count > 0 {
        assert(marked.last());
        let rest = marked.drop_last();
        assert forall|j: int| rest.len() - (count - 1) <= j < rest.len() implies rest[j] by {
            assert(marked[j]);
        }
        lemma_trailing(rest, count - 1);
    }
}

/// As many marks stand at the start as `leading` says, and what follows them
/// is no mark.
pub proof fn lemma_leading_marks(marked: Seq<bool>)
    ensures
        leading(marked) <= marked.len(),
        forall|j: int| 0 <= j < leading(marked) ==> marked[j],
        leading(marked) < marked.len() ==> !marked[leading(marked) as int],
    decreases marked.len(),
{
    if marked.len() > 0 && marked.first() {
        let rest = marked.drop_first();
        lemma_leading_marks(rest);
        assert forall|j: int| 0 <= j < leading(marked) implies marked[j] by {
            if j > 0 {
                assert(rest[j - 1]);
            }
        }
        if leading(marked) < marked.len() {
            assert(rest[leading(rest) as int] == marked[leading(marked) as int]);
        }
    }
}

/// As many marks stand at the end as `trailing` says, and what stands before
/// them is no mark.
pub proof fn lemma_trailing_marks(marked: Seq<bool>)
    ensures
        trailing(marked) <= marked.len(),
        forall|j: int| marked.len() - trailing(marked) <= j < marked.len() ==> marked[j],
        trailing(marked) < marked.len() ==> !marked[marked.len() - trailing(marked) - 1],
    decreases marked.len(),
{
    if marked.len() > 0 && marked.last() {
        let rest = marked.drop_last();
        lemma_trailing_marks(rest);
        assert forall|j: int|
            marked.len() - trailing(marked) <= j < marked.len() implies marked[j] by {
            if j < rest.len() {
                assert(rest[j]);
            }
        }
        if trailing(marked) < marked.len() {
            assert(rest[rest.len() - trailing(rest) - 1] == marked[marked.len() - trailing(
                marked,
            ) - 1]);
        }
    }
}

/// Where the white space at the start of `s` ends.
pub open spec fn trim_start(s: Seq<char>) -> int {
    leading(white_spaces(s)) as int
}

/// Where the white space at the end of `s` starts.
pub open spec fn trim_end(s: Seq<char>) -> int {
    s.len() - trailing(white_spaces(s).skip(trim_start(s)))
}

/// Trimming takes white space off the two ends and nothing else: what is
/// left is a part of the text, all that stands before it and behind it is
/// white space, and it neither starts nor ends with white space.
pub proof fn lemma_trimmed(s: Seq<char>)
    ensures
        0 <= trim_start(s) <= trim_end(s) <= s.len(),
        trimmed(s) == s.subrange(trim_start(s), trim_end(s)),
        forall|j: int| 0 <= j < trim_start(s) ==> white_space(#[trigger] s[j]),
        forall|j: int| trim_end(s) <= j < s.len() ==> white_space(#[trigger] s[j]),
        trim_start(s) < trim_end(s) ==> !white_space(s[trim_start(s)]) && !white_space(
            s[trim_end(s) - 1],
        ),
        trimmed(s).len() > 0 ==> !white_space(trimmed(s).first()) && !white_space(
            trimmed(s).last(),
        ),
{
    let marked = white_spaces(s);
    let start = trim_start(s);
    let behind = marked.skip(start);
    lemma_leading_marks(marked);
    lemma_trailing_marks(behind);
    assert forall|j: int| 0 <= j < start implies white_space(#[trigger] s[j]) by {
        assert(marked[j]);
    }
    assert forall|j: int| trim_end(s) <= j < s.len() implies white_space(#[trigger] s[j]) by {
        assert(behind[j - start]);
    }
    if start < trim_end(s) {
        assert(!marked[start]);
        assert(behind[behind.len() - trailing(behind) - 1] == marked[trim_end(s) - 1]);
    }
}

/// A text that neither starts nor ends with white space is left as it is.
pub proof fn lemma_trimmed_unchanged(s: Seq<char>)
    requires
        s.len() == 0 || (!white_space(s.first()) && !white_space(s.last())),
    ensures
        trimmed(s) == s,
{
    let marked = white_spaces(s);
    lemma_leading(marked, 0);
    assert(marked.skip(0) =~= marked);
    lemma_trailing(marked, 0);
    assert(s.subrange(0, s.len() as int) =~= s);
}

/// Takes the marked characters off the two ends of `s`.
pub fn trim_by(s: &str, marked: &Vec<bool>) -> (rest: String)
    ensures
        rest@ == trimmed_by(s@, marked@),
{
    let n = marked.len();
    if s.unicode_len() != n {
        return String::from_str(s);
    }
    let mut start: usize = 0;
    while start < n && marked[start]
        invariant
            start <= n,
            n == marked@.len(),
            forall|j: int| 0 <= j < start ==> marked@[j],
        decreases n - start,
    {
        start += 1;
    }
    let mut end: usize = n;
    while end > start && marked[end - 1]
        invariant
            start <= end <= n,
            n == marked@.len(),
            forall|j: int| end <= j < n ==> marked@[j],
        decreases end,
    {
        end -= 1;
    }
    proof {
        lemma_leading(marked@, start as int);
        let behind = marked@.skip(start as int);
        assert forall|j: int| behind.len() - (n - end) <= j < behind.len() implies behind[j] by {
            assert(marked@[j + start]);
        }
        lemma_trailing(behind, n - end);
    }
    String::from_str(s.substring_char(start, end))
}

/// For each character of `s`, whether it is white space.
pub fn mark_white_space(s: &str) -> (marked: Vec<bool>)
    ensures
        marked@ == white_spaces(s@),
{
    let mut marked: Vec<bool> = Vec::new();
    for c in it: s.chars()
        invariant
            it.seq() == s@,
            marked@.len() == it.index(),
            forall|j: int| 0 <= j < marked@.len() ==> marked@[j] == white_space(s@[j]),
    {
        marked.push(is_white_space(c));
    }
    assert(marked@ =~= white_spaces(s@));
    marked
}

/// Takes the white space off the two ends of `s`.
pub fn trim(s: &str) -> (rest: String)
    ensures
        rest@ == trimmed(s@),
{
    let marked = mark_white_space(s);
    trim_by(s, &marked)
}

/// The lines one after the other, with `separator` between each two.
pub open spec fn joined(lines: Seq<Seq<char>>, separator: Seq<char>) -> Seq<char>
    decreases lines.len(),
{
    if lines.len() == 0 {
        Seq::empty()
    } else if lines.len() == 1 {
        lines[0]
    } else {
        joined(lines.drop_last(), separator) + separator + lines.last()
    }
}

/// Joins the lines, with `separator` between each two.
pub fn join(lines: &Vec<String>, separator: &str) -> (text: String)
    ensures
        text@ == joined(views(lines@), separator@),
{
    let ghost all = views(lines@);
    let mut text = String::new();
    let mut i: usize = 0;
    while i < lines.len()
        invariant
            i <= lines@.len(),
            all == views(lines@),
            text@ == joined(all.take(i as int), separator@),
        decreases lines@.len() - i,
    {
        proof {
            assert(all.take(i + 1).drop_last() =~= all.take(i as int));
            assert(all.take(i + 1).last() == lines@[i as int]@);
            if i == 0 {
                assert(Seq::<char>::empty() + lines@[0]@ =~= lines@[0]@);
            }
        }
        if i > 0 {
            text.append(separator);
        }
        text.append(lines[i].as_str());
        i += 1;
    }
    assert(all.take(i as int) =~= all);
    text
}

} // verus!
