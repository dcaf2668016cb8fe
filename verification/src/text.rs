//! Text as sequences of characters, and what is assumed of the string
//! functions of the standard library that the library calls.

use vstd::prelude::*;

verus! {

/// The texts that a sequence of strings holds, in the same order.
pub open spec fn texts(strings: Seq<String>) -> Seq<Seq<char>> {
    strings.map_values(|s: String| s@)
}

/// An ASCII upper-case letter becomes its lower-case letter; every other
/// character stays.
pub open spec fn ascii_lower(c: char) -> char {
    if 'A' <= c && c <= 'Z' {
        ((c as u8) + 32) as u8 as char
    } else {
        c
    }
}

/// A text with its ASCII letters in lower case.
pub open spec fn ascii_folded(s: Seq<char>) -> Seq<char> {
    s.map_values(|c: char| ascii_lower(c))
}

/// Two texts that differ at most in the case of their ASCII letters.
pub open spec fn same_ignoring_ascii_case(a: Seq<char>, b: Seq<char>) -> bool {
    ascii_folded(a) == ascii_folded(b)
}

/// `str == str`: two string slices are equal when they hold the same
/// characters.
pub assume_specification[ <str as PartialEq>::eq ](a: &str, b: &str) -> (r: bool)
    ensures
        r == (a@ == b@),
;

/// `str::eq_ignore_ascii_case`: an ASCII case-insensitive match, which std
/// documents as the equality of the two strings' ASCII lower-case forms.
pub assume_specification[ str::eq_ignore_ascii_case ](a: &str, b: &str) -> (r: bool)
    ensures
        r == same_ignoring_ascii_case(a@, b@),
;

/// `str::contains` with a character for its pattern: whether the character
/// occurs in the string.
#[verifier::external_body]
pub(crate) fn contains_char(s: &str, c: char) -> (r: bool)
    ensures
        r == s@.contains(c),
{
    s.contains(c)
}

/// Whether `list` holds a string with the text of `wanted`.
pub fn contains_text(list: &Vec<String>, wanted: &str) -> (found: bool)
    ensures
        found == texts(list@).contains(wanted@),
{
    let mut i: usize = 0;
    while i < list.len()
        invariant
            i <= list.len(),
            forall|j: int| 0 <= j < i ==> texts(list@)[j] != wanted@,
        decreases list.len() - i,
    {
        if *list[i].as_str() == *wanted {
            assert(texts(list@)[i as int] == wanted@);
            return true;
        }
        i += 1;
    }
    false
}

/// What `str::to_lowercase` gives for a text.
pub uninterp spec fn lowercase_text(s: Seq<char>) -> Seq<char>;

/// `str::to_lowercase`: the lower-case form by the rules of Unicode, a
/// function of the text alone, named and not spelled out.
#[verifier::external_body]
pub(crate) fn to_lowercase(s: &str) -> (r: String)
    ensures
        r@ == lowercase_text(s@),
{
    s.to_lowercase()
}

/// The string that holds `first` and then `second`.
pub fn join2(first: &str, second: &str) -> (joined: String)
    ensures
        joined@ == first@ + second@,
{
    let mut joined = first.to_owned();
    joined.append(second);
    joined
}

/// The string that holds the three parts one after another.
pub fn join3(first: &str, second: &str, third: &str) -> (joined: String)
    ensures
        joined@ == first@ + second@ + third@,
{
    let mut joined = first.to_owned();
    joined.append(second);
    joined.append(third);
    joined
}

/// What `str::trim` leaves of a text.
pub uninterp spec fn trimmed_text(s: Seq<char>) -> Seq<char>;

/// `str::trim`: the text without the white space, as Unicode defines it, at
/// its two ends; a function of the text alone, named and not spelled out.
#[verifier::external_body]
pub(crate) fn trim(s: &str) -> (r: &str)
    ensures
        r@ == trimmed_text(s@),
{
    s.trim()
}

/// The pieces of a text between its commas: one more than it has commas, so
/// that a text without a comma is its own only piece.
pub open spec fn comma_pieces(text: Seq<char>) -> Seq<Seq<char>>
    decreases text.len(),
{
    if text.len() == 0 {
        seq![Seq::empty()]
    } else {
        let before = comma_pieces(text.drop_last());
        if text.last() == ',' {
            before.push(Seq::empty())
        } else {
            before.update(before.len() - 1, before.last().push(text.last()))
        }
    }
}

/// The entries of a comma-separated list: its pieces, each trimmed.
pub open spec fn list_entries(text: Seq<char>) -> Seq<Seq<char>> {
    comma_pieces(text).map_values(|piece: Seq<char>| trimmed_text(piece))
}

/// A text has at least one piece.
pub proof fn lemma_comma_pieces_not_empty(text: Seq<char>)
    ensures
        comma_pieces(text).len() > 0,
    decreases text.len(),
{
    if text.len() > 0 {
        lemma_comma_pieces_not_empty(text.drop_last());
    }
}

/// Reads a comma-separated list: the text is cut at each comma, and each
/// piece is trimmed. An empty text gives one empty entry.
pub fn split_list(text: &str) -> (entries: Vec<String>)
    ensures
        texts(entries@) == list_entries(text@),
{
    let mut entries: Vec<String> = Vec::new();
    let n = text.unicode_len();
    let mut start: usize = 0;
    let mut i: usize = 0;
    let ghost mut done: Seq<Seq<char>> = Seq::empty();
    proof {
        assert(text@.take(0) =~= Seq::empty());
        assert(text@.subrange(0, 0) =~= Seq::empty());
        assert(comma_pieces(text@.take(0)) =~= done.push(text@.subrange(0, 0)));
        assert(texts(entries@) =~= done.map_values(|piece: Seq<char>| trimmed_text(piece)));
    }
    while i < n
        invariant
            n == text@.len(),
            start <= i <= n,
            comma_pieces(text@.take(i as int)) == done.push(text@.subrange(start as int, i as int)),
            texts(entries@) == done.map_values(|piece: Seq<char>| trimmed_text(piece)),
        decreases n - i,
    {
        proof {
            assert(text@.take(i as int + 1).drop_last() =~= text@.take(i as int));
            assert(text@.take(i as int + 1).last() == text@[i as int]);
        }
        if text.get_char(i) == ',' {
            let piece = text.substring_char(start, i);
            let ghost before = entries@;
            entries.push(trim(piece).to_owned());
            proof {
                let whole = done.push(text@.subrange(start as int, i as int));
                assert(text@.subrange(i as int + 1, i as int + 1) =~= Seq::empty());
                assert(texts(entries@) =~= texts(before).push(trimmed_text(piece@)));
                assert(texts(entries@) =~= whole.map_values(
                    |piece: Seq<char>| trimmed_text(piece),
                ));
                done = whole;
            }
            start = i + 1;
        } else {
            proof {
                let whole = done.push(text@.subrange(start as int, i as int));
                assert(text@.subrange(start as int, i as int).push(text@[i as int])
                    =~= text@.subrange(start as int, i as int + 1));
                assert(whole.update(whole.len() - 1, whole.last().push(text@[i as int]))
                    =~= done.push(text@.subrange(start as int, i as int + 1)));
            }
        }
        i += 1;
    }
    let piece = text.substring_char(start, n);
    let ghost before = entries@;
    entries.push(trim(piece).to_owned());
    proof {
        let whole = done.push(text@.subrange(start as int, n as int));
        assert(text@.take(n as int) =~= text@);
        assert(texts(entries@) =~= texts(before).push(trimmed_text(piece@)));
        assert(texts(entries@) =~= whole.map_values(|piece: Seq<char>| trimmed_text(piece)));
    }
    entries
}

/// What `{:?}` prints for a list of strings.
pub uninterp spec fn debug_list_text(items: Seq<Seq<char>>) -> Seq<char>;

/// The `Debug` form of a `Vec<String>`, as `format!("{:?}", ..)` gives it: a
/// function of the strings alone, named and not spelled out.
#[verifier::external_body]
pub(crate) fn debug_list(items: &Vec<String>) -> (r: String)
    ensures
        r@ == debug_list_text(texts(items@)),
{
    format!("{:?}", items)
}

} // verus!
