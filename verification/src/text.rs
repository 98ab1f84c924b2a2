//! Small building blocks for working with text as sequences of characters.

use vstd::prelude::*;
use vstd::string::*;

verus! {

/// The views of the elements of a sequence, in the same order.
pub open spec fn views<T: View>(items: Seq<T>) -> Seq<T::V> {
    Seq::new(items.len(), |i: int| items[i]@)
}

/// Whether two pieces of text hold the same characters.
pub fn text_eq(a: &str, b: &str) -> (same: bool)
    ensures
        same == (a@ == b@),
{
    let x = a.to_owned();
    let y = b.to_owned();
    x == y
}

/// Whether `text` ends with `suffix`.
pub fn ends_with(text: &str, suffix: &str) -> (found: bool)
    ensures
        found == suffix@.is_suffix_of(text@),
{
    let n = text.unicode_len();
    let k = suffix.unicode_len();
    if k > n {
        false
    } else {
        text_eq(text.substring_char(n - k, n), suffix)
    }
}

/// The lowercase form of a text, as the standard library computes it.
pub uninterp spec fn lowercase(text: Seq<char>) -> Seq<char>;

/// Returns the lowercase form of `text`.
///
/// Calls `str::to_lowercase`, which maps a text to its lowercase equivalent
/// by the rules of Unicode. The result depends on the text alone, so the
/// contract gives it a name and claims nothing else of it.
#[verifier::external_body]
pub(crate) fn to_lowercase(text: &str) -> (lowered: String)
    ensures
        lowered@ == lowercase(text@),
{
    text.to_lowercase()
}

/// The pieces of `text` between separators, a separator being any character
/// of `separators`. There is always one piece more than there are
/// separators in the text, so a text without separator is its own single
/// piece, and a piece may be empty.
pub open spec fn split_text(text: Seq<char>, separators: Seq<char>) -> Seq<Seq<char>>
    decreases text.len(),
{
    if text.len() == 0 {
        seq![Seq::empty()]
    } else {
        let before = split_text(text.drop_last(), separators);
        if separators.contains(text.last()) {
            before.push(Seq::empty())
        } else {
            before.drop_last().push(before.last().push(text.last()))
        }
    }
}

/// Whether no character of `text` is a separator.
pub open spec fn is_plain(text: Seq<char>, separators: Seq<char>) -> bool {
    forall|i: int| 0 <= i < text.len() ==> !separators.contains(#[trigger] text[i])
}

/// Every text splits into at least one piece.
pub proof fn lemma_split_text_nonempty(text: Seq<char>, separators: Seq<char>)
    ensures
        split_text(text, separators).len() >= 1,
    decreases text.len(),
{
    if text.len() > 0 {
        lemma_split_text_nonempty(text.drop_last(), separators);
    }
}

/// Text without separator that follows a text adds to its last piece.
pub proof fn lemma_split_plain_tail(front: Seq<char>, tail: Seq<char>, separators: Seq<char>)
    requires
        is_plain(tail, separators),
    ensures
        split_text(front, separators).len() >= 1,
        split_text(front + tail, separators) == split_text(front, separators).drop_last().push(
            split_text(front, separators).last() + tail,
        ),
    decreases tail.len(),
{
    let pieces = split_text(front, separators);
    lemma_split_text_nonempty(front, separators);
    if tail.len() == 0 {
        assert(front + tail =~= front);
        assert(pieces.last() + tail =~= pieces.last());
        assert(pieces.drop_last().push(pieces.last()) =~= pieces);
    } else {
        let shorter = tail.drop_last();
        assert(is_plain(shorter, separators)) by {
            assert forall|i: int| 0 <= i < shorter.len() implies !separators.contains(
                #[trigger] shorter[i],
            ) by {
                assert(shorter[i] == tail[i]);
            }
        }
        lemma_split_plain_tail(front, shorter, separators);
        assert((front + tail).drop_last() =~= front + shorter);
        assert((front + tail).last() == tail[tail.len() - 1]);
        let before = pieces.drop_last().push(pieces.last() + shorter);
        assert(before.drop_last() =~= pieces.drop_last());
        assert(before.last() == pieces.last() + shorter);
        assert((pieces.last() + shorter).push(tail.last()) =~= pieces.last() + tail);
    }
}

/// A text without separator is its own single piece.
pub proof fn lemma_split_plain(text: Seq<char>, separators: Seq<char>)
    requires
        is_plain(text, separators),
    ensures
        split_text(text, separators) == seq![text],
{
    let front = Seq::<char>::empty();
    lemma_split_plain_tail(front, text, separators);
    assert(front + text =~= text);
    let pieces = split_text(front, separators);
    assert(pieces.last() + text =~= text);
    assert(pieces.drop_last().push(text) =~= seq![text]);
}

/// Behind a separator a new piece begins: text without separator that
/// follows one is a piece of its own.
pub proof fn lemma_split_after_separator(
    front: Seq<char>,
    separator: char,
    tail: Seq<char>,
    separators: Seq<char>,
)
    requires
        separators.contains(separator),
        is_plain(tail, separators),
    ensures
        split_text(front.push(separator) + tail, separators) == split_text(
            front,
            separators,
        ).push(tail),
{
    let cut = front.push(separator);
    lemma_split_plain_tail(cut, tail, separators);
    assert(cut.drop_last() =~= front);
    assert(cut.last() == separator);
    let pieces = split_text(front, separators);
    let opened = pieces.push(Seq::<char>::empty());
    assert(split_text(cut, separators) == opened);
    assert(opened.drop_last() =~= pieces);
    assert(opened.last() + tail =~= tail);
}

/// Whether `c` is one of the characters of `set`.
pub fn has_char(set: &str, c: char) -> (found: bool)
    ensures
        found == set@.contains(c),
{
    let n = set.unicode_len();
    let mut i: usize = 0;
    while i < n
        invariant
            n == set@.len(),
            i <= n,
            forall|j: int| 0 <= j < i ==> set@[j] != c,
        decreases n - i,
    {
        if set.get_char(i) == c {
            return true;
        }
        i = i + 1;
    }
    false
}

/// Cuts `text` at every character that is one of `separators`.
pub fn split(text: &str, separators: &str) -> (pieces: Vec<String>)
    ensures
        views(pieces@) == split_text(text@, separators@),
        pieces@.len() >= 1,
{
    let n = text.unicode_len();
    let mut pieces: Vec<String> = Vec::new();
    let mut start: usize = 0;
    let mut i: usize = 0;
    assert(text@.subrange(0, 0) =~= Seq::empty());
    assert(views(pieces@).push(text@.subrange(0, 0)) =~= seq![Seq::empty()]);
    while i < n
        invariant
            n == text@.len(),
            start <= i <= n,
            split_text(text@.subrange(0, i as int), separators@) == views(pieces@).push(
                text@.subrange(start as int, i as int),
            ),
        decreases n - i,
    {
        let c = text.get_char(i);
        let ghost done = views(pieces@);
        let ghost current = text@.subrange(start as int, i as int);
        proof {
            let longer = text@.subrange(0, i + 1);
            assert(longer.drop_last() =~= text@.subrange(0, i as int));
            assert(longer.last() == c);
            assert(done.push(current).drop_last() =~= done);
            assert(done.push(current).last() == current);
        }
        if has_char(separators, c) {
            pieces.push(text.substring_char(start, i).to_owned());
            start = i + 1;
            proof {
                assert(views(pieces@) =~= done.push(current));
                assert(text@.subrange(start as int, i + 1) =~= Seq::empty());
            }
        } else {
            proof {
                assert(text@.subrange(start as int, i + 1) =~= current.push(c));
            }
        }
        i = i + 1;
    }
    let ghost done = views(pieces@);
    pieces.push(text.substring_char(start, n).to_owned());
    proof {
        assert(text@.subrange(0, n as int) =~= text@);
        assert(views(pieces@) =~= done.push(text@.subrange(start as int, n as int)));
    }
    pieces
}

} // verus!
