//! Text as sequences of characters: trimming, comparing, splitting, joining and
//! quoting.

use vstd::prelude::*;
use vstd::string::*;

verus! {

/// `String::push` appends one character.
pub assume_specification[ String::push ](s: &mut String, c: char)
    ensures
        final(s)@ == old(s)@.push(c),
;

/// The characters of a text, in order.
pub fn chars_of(text: &str) -> (chars: Vec<char>)
    ensures
        chars@ == text@,
{
    let mut chars: Vec<char> = Vec::new();
    for c in it: text.chars()
        invariant
            it.seq() == text@,
            chars@ == it.seq().take(it.index() as int),
    {
        chars.push(c);
    }
    chars
}

/// The text that the characters from `from` up to `to` make.
pub fn text_of(chars: &Vec<char>, from: usize, to: usize) -> (text: String)
    requires
        from <= to <= chars@.len(),
    ensures
        text@ == chars@.subrange(from as int, to as int),
{
    let mut text = String::new();
    let mut i: usize = from;
    while i < to
        invariant
            from <= i <= to <= chars@.len(),
            text@ == chars@.subrange(from as int, i as int),
        decreases to - i,
    {
        text.push(chars[i]);
        assert(text@ =~= chars@.subrange(from as int, i + 1));
        i += 1;
    }
    text
}

/// Whether two texts hold the same characters.
pub fn same(left: &str, right: &str) -> (equal: bool)
    ensures
        equal == (left@ == right@),
{
    left.to_owned() == right.to_owned()
}

/// A text that may be there, borrowed.
pub fn borrowed(text: &Option<String>) -> (view: Option<&str>)
    ensures
        view.deep_view() == text.deep_view(),
{
    match text {
        Some(t) => Some(t.as_str()),
        None => None,
    }
}

/// An owned copy of a text that may be absent.
pub fn owned(text: Option<&str>) -> (copy: Option<String>)
    ensures
        copy.deep_view() == text.deep_view(),
{
    match text {
        Some(t) => Some(t.to_owned()),
        None => None,
    }
}

/// Copies of texts, in order.
pub fn copies(texts: &Vec<String>) -> (all: Vec<String>)
    ensures
        all.deep_view() == texts.deep_view(),
{
    let mut all: Vec<String> = Vec::new();
    let mut i: usize = 0;
    while i < texts.len()
        invariant
            i <= texts.len(),
            all.len() == i,
            forall|j: int| 0 <= j < i ==> (#[trigger] all@[j])@ == texts@[j]@,
        decreases texts.len() - i,
    {
        all.push(texts[i].clone());
        i += 1;
    }
    assert(all.deep_view() =~= texts.deep_view());
    all
}

// ---------------------------------------------------------------- whitespace

/// The characters that Unicode calls white space.
pub open spec fn is_space(c: char) -> bool {
    ||| '\u{9}' <= c <= '\u{d}'
    ||| c == '\u{20}'
    ||| c == '\u{85}'
    ||| c == '\u{a0}'
    ||| c == '\u{1680}'
    ||| '\u{2000}' <= c <= '\u{200a}'
    ||| c == '\u{2028}'
    ||| c == '\u{2029}'
    ||| c == '\u{202f}'
    ||| c == '\u{205f}'
    ||| c == '\u{3000}'
}

/// Whether a character is white space.
pub fn whitespace(c: char) -> (yes: bool)
    ensures
        yes == is_space(c),
{
    ('\u{9}' <= c && c <= '\u{d}') || c == '\u{20}' || c == '\u{85}' || c == '\u{a0}' || c
        == '\u{1680}' || ('\u{2000}' <= c && c <= '\u{200a}') || c == '\u{2028}' || c == '\u{2029}'
        || c == '\u{202f}' || c == '\u{205f}' || c == '\u{3000}'
}

/// A text without the white space that it starts with.
pub open spec fn trimmed_start(text: Seq<char>) -> Seq<char>
    decreases text.len(),
{
    if text.len() > 0 && is_space(text[0]) {
        trimmed_start(text.drop_first())
    } else {
        text
    }
}

/// A text without the white space that it ends with.
pub open spec fn trimmed_end(text: Seq<char>) -> Seq<char>
    decreases text.len(),
{
    if text.len() > 0 && is_space(text.last()) {
        trimmed_end(text.drop_last())
    } else {
        text
    }
}

/// A text without white space at either end.
pub open spec fn trimmed(text: Seq<char>) -> Seq<char> {
    trimmed_end(trimmed_start(text))
}

/// How many characters of white space a text starts with.
fn leading_space(chars: &Vec<char>) -> (count: usize)
    ensures
        count <= chars@.len(),
        trimmed_start(chars@) == chars@.skip(count as int),
{
    let mut i: usize = 0;
    assert(chars@.skip(0) =~= chars@);
    while i < chars.len() && whitespace(chars[i])
        invariant
            i <= chars@.len(),
            trimmed_start(chars@) == trimmed_start(chars@.skip(i as int)),
        decreases chars@.len() - i,
    {
        assert(chars@.skip(i as int).drop_first() =~= chars@.skip(i + 1));
        i += 1;
    }
    i
}

/// A text without white space at either end.
pub fn trim(text: &str) -> (result: String)
    ensures
        result@ == trimmed(text@),
{
    let chars = chars_of(text);
    let start = leading_space(&chars);
    let ghost rest = chars@.skip(start as int);
    let mut end: usize = chars.len();
    assert(chars@.subrange(start as int, end as int) =~= rest);
    while start < end && whitespace(chars[end - 1])
        invariant
            start <= end <= chars@.len(),
            trimmed_end(rest) == trimmed_end(chars@.subrange(start as int, end as int)),
        decreases end,
    {
        assert(chars@.subrange(start as int, end as int).drop_last() =~= chars@.subrange(
            start as int,
            end - 1,
        ));
        end -= 1;
    }
    text_of(&chars, start, end)
}

/// Whether a text, after the white space at its start, goes on with `first`.
pub open spec fn opens_with(text: Seq<char>, first: char) -> bool {
    trimmed_start(text).len() > 0 && trimmed_start(text)[0] == first
}

/// Whether a text, after the white space at its start, goes on with `first`.
pub fn starts_after_space(text: &str, first: char) -> (yes: bool)
    ensures
        yes == opens_with(text@, first),
{
    let chars = chars_of(text);
    let start = leading_space(&chars);
    start < chars.len() && chars[start] == first
}

// ------------------------------------------------------------ letter case

/// A character with an ASCII capital made small.
pub open spec fn lower(c: char) -> char {
    if 'A' <= c <= 'Z' {
        (c as u32 + 32) as char
    } else {
        c
    }
}

/// Whether two texts agree but for the case of ASCII letters.
pub open spec fn same_letters(left: Seq<char>, right: Seq<char>) -> bool {
    &&& left.len() == right.len()
    &&& forall|i: int| 0 <= i < left.len() ==> lower(#[trigger] left[i]) == lower(right[i])
}

fn to_lower(c: char) -> (small: char)
    ensures
        small == lower(c),
{
    if 'A' <= c && c <= 'Z' {
        (c as u8 + 32) as char
    } else {
        c
    }
}

/// Whether two texts agree but for the case of ASCII letters.
pub fn eq_ignore_ascii_case(left: &str, right: &str) -> (equal: bool)
    ensures
        equal == same_letters(left@, right@),
{
    let a = chars_of(left);
    let b = chars_of(right);
    if a.len() != b.len() {
        return false;
    }
    let mut i: usize = 0;
    while i < a.len()
        invariant
            i <= a@.len(),
            a@ == left@,
            b@ == right@,
            a@.len() == b@.len(),
            forall|j: int| 0 <= j < i ==> lower(#[trigger] left@[j]) == lower(right@[j]),
        decreases a@.len() - i,
    {
        if to_lower(a[i]) != to_lower(b[i]) {
            assert(lower(left@[i as int]) != lower(right@[i as int]));
            return false;
        }
        i += 1;
    }
    true
}

// ------------------------------------------------------ splitting and joining

/// The pieces of a text between the places where `mark` stands.
pub open spec fn pieces(text: Seq<char>, mark: char) -> Seq<Seq<char>>
    decreases text.len(),
{
    if text.len() == 0 {
        seq![Seq::empty()]
    } else {
        let before = pieces(text.drop_last(), mark);
        if text.last() == mark {
            before.push(Seq::empty())
        } else {
            before.drop_last().push(before.last().push(text.last()))
        }
    }
}

/// The pieces of a text between the places where `mark` stands.
pub fn split(text: &str, mark: char) -> (parts: Vec<String>)
    ensures
        parts.deep_view() == pieces(text@, mark),
{
    let chars = chars_of(text);
    let mut parts: Vec<String> = Vec::new();
    let mut part = String::new();
    let mut i: usize = 0;
    proof {
        assert(chars@.take(0) =~= Seq::<char>::empty());
        assert(parts.deep_view().push(part@) =~= pieces(chars@.take(0), mark));
    }
    while i < chars.len()
        invariant
            i <= chars@.len(),
            parts.deep_view().push(part@) == pieces(chars@.take(i as int), mark),
        decreases chars@.len() - i,
    {
        let ghost before = parts.deep_view().push(part@);
        proof {
            assert(chars@.take(i + 1).drop_last() =~= chars@.take(i as int));
            assert(before.drop_last() =~= parts.deep_view());
        }
        if chars[i] == mark {
            parts.push(part);
            part = String::new();
            assert(parts.deep_view() =~= before);
        } else {
            part.push(chars[i]);
        }
        assert(parts.deep_view().push(part@) =~= pieces(chars@.take(i + 1), mark));
        i += 1;
    }
    assert(chars@.take(chars@.len() as int) =~= chars@);
    parts.push(part);
    assert(parts.deep_view() =~= pieces(text@, mark));
    parts
}

/// What follows a `mark` and holds none is a piece of its own, after those of
/// what stands before.
pub proof fn a_mark_begins_a_piece(left: Seq<char>, mark: char, right: Seq<char>)
    requires
        !right.contains(mark),
    ensures
        pieces(left + seq![mark] + right, mark) == pieces(left, mark).push(right),
    decreases right.len(),
{
    let text = left + seq![mark] + right;
    if right.len() == 0 {
        assert(text.drop_last() =~= left);
        assert(right =~= Seq::empty());
    } else {
        let shorter = right.drop_last();
        assert(!shorter.contains(mark)) by {
            assert forall|i: int| 0 <= i < shorter.len() implies shorter[i] != mark by {
                assert(shorter[i] == right[i]);
            }
        }
        a_mark_begins_a_piece(left, mark, shorter);
        assert(text.drop_last() =~= left + seq![mark] + shorter);
        assert(right.last() != mark);
        assert(shorter.push(right.last()) =~= right);
        assert(pieces(text, mark) =~= pieces(left, mark).push(right));
    }
}

/// A text without any `mark` is its only piece.
pub proof fn without_a_mark_there_is_one_piece(text: Seq<char>, mark: char)
    requires
        !text.contains(mark),
    ensures
        pieces(text, mark) == seq![text],
    decreases text.len(),
{
    if text.len() > 0 {
        let shorter = text.drop_last();
        assert(!shorter.contains(mark)) by {
            assert forall|i: int| 0 <= i < shorter.len() implies shorter[i] != mark by {
                assert(shorter[i] == text[i]);
            }
        }
        without_a_mark_there_is_one_piece(shorter, mark);
        assert(text.last() != mark);
        assert(shorter.push(text.last()) =~= text);
        assert(pieces(text, mark) =~= seq![text]);
    } else {
        assert(text =~= Seq::empty());
    }
}

/// Texts set one after the other with `mark` between neighbours.
pub open spec fn joined(parts: Seq<Seq<char>>, mark: Seq<char>) -> Seq<char>
    decreases parts.len(),
{
    if parts.len() == 0 {
        Seq::empty()
    } else if parts.len() == 1 {
        parts[0]
    } else {
        joined(parts.drop_last(), mark) + mark + parts.last()
    }
}

/// Texts set one after the other with `mark` between neighbours.
pub fn join(parts: &Vec<String>, mark: &str) -> (text: String)
    ensures
        text@ == joined(parts.deep_view(), mark@),
{
    let mut text = String::new();
    let mut i: usize = 0;
    let ghost all = parts.deep_view();
    assert(all.take(0) =~= Seq::<Seq<char>>::empty());
    while i < parts.len()
        invariant
            i <= parts.len(),
            all == parts.deep_view(),
            text@ == joined(all.take(i as int), mark@),
        decreases parts.len() - i,
    {
        assert(all.take(i + 1).drop_last() =~= all.take(i as int));
        if i > 0 {
            text.append(mark);
        }
        text.append(parts[i].as_str());
        assert(text@ =~= joined(all.take(i + 1), mark@));
        i += 1;
    }
    assert(all.take(all.len() as int) =~= all);
    text
}

/// A text without any `dropped`.
pub open spec fn stripped(text: Seq<char>, dropped: char) -> Seq<char> {
    text.filter(|c: char| c != dropped)
}

/// A text without any `dropped`.
pub fn without(text: &str, dropped: char) -> (result: String)
    ensures
        result@ == stripped(text@, dropped),
{
    let chars = chars_of(text);
    let mut result = String::new();
    let mut i: usize = 0;
    proof {
        reveal(Seq::filter);
        assert(stripped(chars@.take(0), dropped) =~= Seq::<char>::empty());
    }
    while i < chars.len()
        invariant
            i <= chars@.len(),
            result@ == stripped(chars@.take(i as int), dropped),
        decreases chars@.len() - i,
    {
        proof {
            reveal(Seq::filter);
            assert(chars@.take(i + 1).drop_last() =~= chars@.take(i as int));
        }
        if chars[i] != dropped {
            result.push(chars[i]);
        }
        i += 1;
    }
    assert(chars@.take(chars@.len() as int) =~= chars@);
    result
}

// -------------------------------------------------------------------- quoting

/// What `std` writes for a text under `{:?}`: the text in double quotes, with
/// escapes.
pub uninterp spec fn quotation(text: Seq<char>) -> Seq<char>;

/// `<str as std::fmt::Debug>::fmt`, by way of `format!`. What it writes depends
/// on the text alone; how it escapes which characters is left unsaid.
#[verifier::external_body]
pub(crate) fn quoted(text: &str) -> (quote: String)
    ensures
        quote@ == quotation(text@),
{
    format!("{text:?}")
}

// ------------------------------------------------------------------------ laws

proof fn start_is_trimmed(text: Seq<char>) -> (start: int)
    ensures
        0 <= start <= text.len(),
        trimmed_start(text) == text.skip(start),
        forall|k: int| 0 <= k < start ==> is_space(#[trigger] text[k]),
        start < text.len() ==> !is_space(text[start]),
    decreases text.len(),
{
    if text.len() > 0 && is_space(text[0]) {
        let rest = text.drop_first();
        let start = start_is_trimmed(rest) + 1;
        assert(rest.skip(start - 1) =~= text.skip(start));
        assert forall|k: int| 0 <= k < start implies is_space(#[trigger] text[k]) by {
            if k > 0 {
                assert(text[k] == rest[k - 1]);
            }
        }
        start
    } else {
        assert(text.skip(0) =~= text);
        0
    }
}

proof fn end_is_trimmed(text: Seq<char>) -> (end: int)
    ensures
        0 <= end <= text.len(),
        trimmed_end(text) == text.take(end),
        forall|k: int| end <= k < text.len() ==> is_space(#[trigger] text[k]),
        end > 0 ==> !is_space(text[end - 1]),
    decreases text.len(),
{
    if text.len() > 0 && is_space(text.last()) {
        let rest = text.drop_last();
        let end = end_is_trimmed(rest);
        assert(rest.take(end) =~= text.take(end));
        assert forall|k: int| end <= k < text.len() implies is_space(#[trigger] text[k]) by {
            if k < rest.len() {
                assert(text[k] == rest[k]);
            }
        }
        end
    } else {
        assert(text.take(text.len() as int) =~= text);
        text.len() as int
    }
}

/// Trimming takes white space away at both ends, all of it and nothing else:
/// what is left has none at its ends, and everything left out is white space.
pub proof fn trimming_takes_the_space_around(text: Seq<char>) -> (ends: (int, int))
    ensures
        0 <= ends.0 <= ends.1 <= text.len(),
        trimmed(text) == text.subrange(ends.0, ends.1),
        forall|k: int| 0 <= k < ends.0 ==> is_space(#[trigger] text[k]),
        forall|k: int| ends.1 <= k < text.len() ==> is_space(#[trigger] text[k]),
        ends.0 < ends.1 ==> !is_space(text[ends.0]) && !is_space(text[ends.1 - 1]),
{
    let start = start_is_trimmed(text);
    let rest = text.skip(start);
    let length = end_is_trimmed(rest);
    assert(rest.take(length) =~= text.subrange(start, start + length));
    assert forall|k: int| start + length <= k < text.len() implies is_space(#[trigger] text[k]) by {
        assert(text[k] == rest[k - start]);
    }
    if length > 0 {
        assert(rest[length - 1] == text[start + length - 1]);
    }
    (start, start + length)
}

/// A text without white space at its ends is left as it is by trimming.
pub proof fn nothing_else_is_trimmed(text: Seq<char>)
    requires
        text.len() > 0 ==> !is_space(text[0]) && !is_space(text.last()),
    ensures
        trimmed(text) == text,
{
}

/// Whether a text opens with a character goes by the first one that is no white
/// space.
pub proof fn a_text_opens_after_its_space(
    space: Seq<char>,
    head: char,
    rest: Seq<char>,
    first: char,
)
    requires
        forall|k: int| 0 <= k < space.len() ==> is_space(#[trigger] space[k]),
        !is_space(head),
    ensures
        opens_with(space + seq![head] + rest, first) == (head == first),
{
    let text = space + seq![head] + rest;
    let start = start_is_trimmed(text);
    assert(text[space.len() as int] == head);
    if start < space.len() {
        assert(text[start] == space[start]);
    }
    if start > space.len() {
        assert(is_space(text[space.len() as int]));
    }
    assert(text.skip(start)[0] == head);
}

/// The pieces of a text hold no mark, and with the mark between them they are the
/// text again.
pub proof fn pieces_make_up_the_text(text: Seq<char>, mark: char)
    ensures
        pieces(text, mark).len() > 0,
        forall|i: int|
            0 <= i < pieces(text, mark).len() ==> !(#[trigger] pieces(text, mark)[i]).contains(
                mark,
            ),
        joined(pieces(text, mark), seq![mark]) == text,
    decreases text.len(),
{
    if text.len() == 0 {
        assert(joined(pieces(text, mark), seq![mark]) =~= text);
    } else {
        let shorter = text.drop_last();
        let last = text.last();
        pieces_make_up_the_text(shorter, mark);
        let before = pieces(shorter, mark);
        let all = pieces(text, mark);
        let link = seq![mark];
        if last == mark {
            assert(all.drop_last() =~= before);
            assert(joined(all, link) =~= text);
        } else {
            let tail = before.last().push(last);
            assert(all.drop_last() =~= before.drop_last());
            assert forall|i: int| 0 <= i < all.len() implies !(#[trigger] all[i]).contains(
                mark,
            ) by {
                if i == all.len() - 1 {
                    assert forall|k: int| 0 <= k < tail.len() implies tail[k] != mark by {
                        if k < tail.len() - 1 {
                            assert(tail[k] == before[before.len() - 1][k]);
                            assert(!before[before.len() - 1].contains(mark));
                        }
                    }
                } else {
                    assert(all[i] == before[i]);
                }
            }
            if before.len() == 1 {
                assert(all[0] == tail);
                assert(tail =~= text);
            } else {
                assert(all.last() == tail);
                let front = joined(before.drop_last(), link) + link;
                assert(joined(before, link) == front + before.last());
                assert(all.len() == before.len());
                assert(joined(all, link) == front + tail);
                assert(front + tail =~= (front + before.last()).push(last));
                assert(shorter.push(last) =~= text);
            }
        }
    }
}

/// Two texts have the same letters where they are as long as each other and
/// differ, place by place, in nothing but the case of an ASCII letter.
pub proof fn letters_differ_in_case_only(left: Seq<char>, right: Seq<char>)
    ensures
        same_letters(left, right) <==> (left.len() == right.len() && forall|i: int|
            0 <= i < left.len() ==> {
                ||| #[trigger] left[i] == right[i]
                ||| 'A' <= left[i] <= 'Z' && right[i] as u32 == left[i] as u32 + 32
                ||| 'A' <= right[i] <= 'Z' && left[i] as u32 == right[i] as u32 + 32
            }),
        same_letters(left, right) == same_letters(right, left),
        same_letters(left, left),
{
    if left.len() == right.len() {
        assert forall|i: int| 0 <= i < left.len() implies ((lower(left[i]) == lower(right[i])) <==> {
            ||| #[trigger] left[i] == right[i]
            ||| 'A' <= left[i] <= 'Z' && right[i] as u32 == left[i] as u32 + 32
            ||| 'A' <= right[i] <= 'Z' && left[i] as u32 == right[i] as u32 + 32
        }) by {}
    }
}

/// Stripping a text takes every one of a character away and nothing else, and
/// leaves the rest in its order.
pub proof fn stripping_takes_one_character_away(
    before: Seq<char>,
    after: Seq<char>,
    dropped: char,
    kept: char,
)
    requires
        kept != dropped,
    ensures
        !stripped(before, dropped).contains(dropped),
        stripped(before.push(dropped) + after, dropped) == stripped(before, dropped) + stripped(
            after,
            dropped,
        ),
        stripped(before.push(kept) + after, dropped) == stripped(before, dropped).push(kept)
            + stripped(after, dropped),
{
    stripping_goes_piece_by_piece(before.push(dropped), after, dropped);
    stripping_goes_piece_by_piece(before.push(kept), after, dropped);
    reveal(Seq::filter);
    assert(before.push(dropped).drop_last() =~= before);
    assert(before.push(kept).drop_last() =~= before);
    assert(!stripped(before, dropped).contains(dropped)) by {
        broadcast use vstd::seq_lib::group_filter_ensures;

    }
}

proof fn stripping_goes_piece_by_piece(before: Seq<char>, after: Seq<char>, dropped: char)
    ensures
        stripped(before + after, dropped) == stripped(before, dropped) + stripped(after, dropped),
    decreases after.len(),
{
    reveal(Seq::filter);
    if after.len() == 0 {
        assert(before + after =~= before);
        assert(stripped(before, dropped) + stripped(after, dropped) =~= stripped(before, dropped));
    } else {
        let shorter = after.drop_last();
        stripping_goes_piece_by_piece(before, shorter, dropped);
        assert((before + after).drop_last() =~= before + shorter);
        assert(stripped(before + after, dropped) =~= stripped(before, dropped) + stripped(
            after,
            dropped,
        ));
    }
}

/// Texts are joined one behind the other with the mark between them, and a text
/// by itself is left as it is.
pub proof fn joining_puts_the_mark_between(
    parts: Seq<Seq<char>>,
    last: Seq<char>,
    mark: Seq<char>,
)
    ensures
        joined(Seq::empty(), mark).len() == 0,
        joined(seq![last], mark) == last,
        parts.len() > 0 ==> joined(parts.push(last), mark) == joined(parts, mark) + mark + last,
{
    assert(parts.push(last).drop_last() =~= parts);
}

} // verus!
