//! Small operations on text that the rest of the library is built from:
//! comparing two strings, looking for a space, and cutting a line at its
//! spaces.

use vstd::prelude::*;
use crate::search::lemma_no_place;

verus! {

/// The character at which names end and command lines are cut.
pub open spec fn separator() -> char {
    ' '
}

/// The pieces of `text` between its spaces, in order. A text without a space
/// is a single piece; two spaces in a row enclose an empty piece, and so do a
/// leading and a trailing space with the text's ends.
pub open spec fn pieces(text: Seq<char>) -> Seq<Seq<char>>
    decreases text.len(),
{
    if text.len() == 0 {
        seq![Seq::<char>::empty()]
    } else {
        let before = pieces(text.drop_last());
        if text.last() == separator() {
            before.push(Seq::<char>::empty())
        } else {
            before.drop_last().push(before.last().push(text.last()))
        }
    }
}

/// `parts`, with a space between each two neighbours.
pub open spec fn joined(parts: Seq<Seq<char>>) -> Seq<char>
    decreases parts.len(),
{
    if parts.len() == 0 {
        Seq::<char>::empty()
    } else if parts.len() == 1 {
        parts[0]
    } else {
        joined(parts.drop_last()) + seq![separator()] + parts.last()
    }
}

/// Cutting a text at its spaces loses nothing: there is at least one piece,
/// no piece holds a space, and the pieces joined by spaces are the text.
pub proof fn lemma_pieces_rebuild(text: Seq<char>)
    ensures
        pieces(text).len() >= 1,
        forall|i: int| 0 <= i < pieces(text).len() ==> !(#[trigger] pieces(text)[i]).contains(separator()),
        joined(pieces(text)) == text,
    decreases text.len(),
{
    if text.len() == 0 {
        assert(joined(pieces(text)) =~= text);
    } else {
        let shorter = text.drop_last();
        let before = pieces(shorter);
        lemma_pieces_rebuild(shorter);
        if text.last() == separator() {
            let now = before.push(Seq::<char>::empty());
            assert(now.drop_last() =~= before);
            assert(joined(now) =~= joined(before) + seq![separator()]);
            assert(shorter + seq![separator()] =~= text);
        } else {
            let grown = before.last().push(text.last());
            let now = before.drop_last().push(grown);
            assert(now.drop_last() =~= before.drop_last());
            assert forall|i: int| 0 <= i < now.len() implies !(#[trigger] now[i]).contains(
                separator(),
            ) by {
                if i == now.len() - 1 {
                    assert(!before.last().contains(separator()));
                    if grown.contains(separator()) {
                        let k = choose|k: int| 0 <= k < grown.len() && grown[k] == separator();
                        assert(before.last()[k] == separator());
                    }
                } else {
                    assert(now[i] == before[i]);
                }
            }
            if before.len() == 1 {
                assert(joined(now) =~= text);
            } else {
                assert(joined(before) == joined(before.drop_last()) + seq![separator()]
                    + before.last());
                assert(joined(now) =~= joined(before).push(text.last()));
                assert(shorter.push(text.last()) =~= text);
            }
        }
    }
}

/// `str`'s `==` from the standard library: it answers `true` exactly when the
/// two texts hold the same characters in the same order.
#[verifier::external_body]
pub(crate) fn same_text(left: &str, right: &str) -> (same: bool)
    ensures
        same == (left@ == right@),
{
    left == right
}

/// `str::contains` from the standard library, asked for a single character:
/// it answers `true` exactly when that character occurs in the text.
#[verifier::external_body]
pub(crate) fn holds_char(text: &str, wanted: char) -> (found: bool)
    ensures
        found == text@.contains(wanted),
{
    text.contains(wanted)
}

/// Whether `text` holds a space.
pub fn has_space(text: &str) -> (found: bool)
    ensures
        found == text@.contains(separator()),
{
    holds_char(text, ' ')
}

/// The views of a list of strings, in order.
pub open spec fn texts(list: Seq<String>) -> Seq<Seq<char>> {
    list.map_values(|s: String| s@)
}

/// Cuts `line` at every space. The result is `pieces` of the line: nothing is
/// quoted or escaped, and empty pieces are kept.
pub fn split_at_spaces(line: &str) -> (parts: Vec<String>)
    ensures
        texts(parts@) == pieces(line@),
{
    let n: usize = line.unicode_len();
    let mut parts: Vec<String> = Vec::new();
    let mut start: usize = 0;
    let mut at: usize = 0;
    proof {
        assert(line@.subrange(0, 0) =~= Seq::<char>::empty());
        assert(texts(parts@).push(line@.subrange(0, 0)) =~= pieces(line@.subrange(0, 0)));
    }
    while at < n
        invariant
            n == line@.len(),
            start <= at <= n,
            texts(parts@).push(line@.subrange(start as int, at as int)) == pieces(
                line@.subrange(0, at as int),
            ),
        decreases n - at,
    {
        let c = line.get_char(at);
        proof {
            let upto = line@.subrange(0, at as int + 1);
            assert(upto.drop_last() =~= line@.subrange(0, at as int));
            assert(upto.last() == c);
            let open = line@.subrange(start as int, at as int);
            let before = texts(parts@).push(open);
            assert(before.drop_last() =~= texts(parts@));
            assert(before.last() == open);
            assert(open.push(c) =~= line@.subrange(start as int, at as int + 1));
            assert(line@.subrange(at as int + 1, at as int + 1) =~= Seq::<char>::empty());
        }
        if c == ' ' {
            let piece = line.substring_char(start, at).to_owned();
            proof {
                assert(texts(parts@.push(piece)) =~= texts(parts@).push(piece@));
            }
            parts.push(piece);
            start = at + 1;
        }
        at = at + 1;
    }
    let piece = line.substring_char(start, n).to_owned();
    proof {
        assert(line@.subrange(0, n as int) =~= line@);
        assert(texts(parts@.push(piece)) =~= texts(parts@).push(piece@));
    }
    parts.push(piece);
    parts
}

/// Whether one of `list` is the text `wanted`.
pub fn list_holds(list: &Vec<String>, wanted: &str) -> (found: bool)
    ensures
        found == texts(list@).contains(wanted@),
{
    let mut at: usize = 0;
    while at < list.len()
        invariant
            at <= list@.len(),
            forall|j: int| 0 <= j < at ==> texts(list@)[j] != wanted@,
        decreases list.len() - at,
    {
        if same_text(list[at].as_str(), wanted) {
            assert(texts(list@)[at as int] == wanted@);
            return true;
        }
        at = at + 1;
    }
    proof {
        lemma_no_place(texts(list@), wanted@);
    }
    false
}

/// A copy of a list of strings.
pub fn copy_texts(list: &Vec<String>) -> (copy: Vec<String>)
    ensures
        texts(copy@) == texts(list@),
{
    let mut copy: Vec<String> = Vec::new();
    let mut at: usize = 0;
    while at < list.len()
        invariant
            at <= list@.len(),
            texts(copy@) == texts(list@).take(at as int),
        decreases list.len() - at,
    {
        let item = list[at].clone();
        proof {
            assert(texts(copy@.push(item)) =~= texts(copy@).push(item@));
            assert(texts(list@).take(at as int).push(texts(list@)[at as int]) =~= texts(
                list@,
            ).take(at as int + 1));
        }
        copy.push(item);
        at = at + 1;
    }
    proof {
        assert(texts(list@).take(list@.len() as int) =~= texts(list@));
    }
    copy
}

} // verus!
