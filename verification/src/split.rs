//! Splitting text at a separator character.

use vstd::prelude::*;
use crate::text::{lines_view, to_chars, to_string};

verus! {

/// The pieces of `s` between the occurrences of `sep`, in order. There is
/// always one piece more than there are separators, so a text without `sep`
/// is its own single piece and a trailing `sep` leaves an empty last piece.
pub open spec fn split_on(s: Seq<char>, sep: char) -> Seq<Seq<char>>
    decreases s.len(),
{
    if s.len() == 0 {
        seq![Seq::<char>::empty()]
    } else {
        let before = split_on(s.drop_last(), sep);
        if s.last() == sep {
            before.push(Seq::<char>::empty())
        } else {
            before.drop_last().push(before.last().push(s.last()))
        }
    }
}

/// The pieces joined again, with `sep` between neighbours.
pub open spec fn join_with(pieces: Seq<Seq<char>>, sep: char) -> Seq<char>
    decreases pieces.len(),
{
    if pieces.len() == 0 {
        Seq::<char>::empty()
    } else if pieces.len() == 1 {
        pieces[0]
    } else {
        join_with(pieces.drop_last(), sep).push(sep) + pieces.last()
    }
}

/// How often `sep` occurs in `s`.
pub open spec fn count_of(s: Seq<char>, sep: char) -> nat
    decreases s.len(),
{
    if s.len() == 0 {
        0
    } else {
        count_of(s.drop_last(), sep) + if s.last() == sep {
            1nat
        } else {
            0nat
        }
    }
}

/// The character sequences held by a list of character vectors.
pub open spec fn pieces_view(pieces: Seq<Vec<char>>) -> Seq<Seq<char>> {
    Seq::new(pieces.len(), |i: int| pieces[i]@)
}

/// Splitting loses nothing and invents nothing: there is one piece more
/// than there are separators, no piece holds a separator, and joining the
/// pieces with the separator gives the text back.
pub proof fn lemma_split_on(s: Seq<char>, sep: char)
    ensures
        split_on(s, sep).len() == count_of(s, sep) + 1,
        forall|i: int| 0 <= i < split_on(s, sep).len() ==> !(#[trigger] split_on(s, sep)[i]).contains(sep),
        join_with(split_on(s, sep), sep) == s,
    decreases s.len(),
{
    if s.len() == 0 {
        assert(join_with(split_on(s, sep), sep) =~= s);
    } else {
        let head = s.drop_last();
        let before = split_on(head, sep);
        lemma_split_on(head, sep);
        let now = split_on(s, sep);
        if s.last() == sep {
            assert(now.drop_last() =~= before);
            assert(join_with(now, sep) =~= head.push(sep));
            assert(head.push(sep) =~= s);
            assert forall|i: int| 0 <= i < now.len() implies !(#[trigger] now[i]).contains(sep) by {
                if i < before.len() {
                    assert(now[i] == before[i]);
                }
            }
        } else {
            let grown = before.last().push(s.last());
            assert forall|i: int| 0 <= i < now.len() implies !(#[trigger] now[i]).contains(sep) by {
                if i < before.len() - 1 {
                    assert(now[i] == before[i]);
                } else {
                    assert(now[i] == grown);
                    assert(!before[before.len() - 1].contains(sep));
                    if grown.contains(sep) {
                        let j = choose|j: int| 0 <= j < grown.len() && grown[j] == sep;
                        assert(before.last()[j] == sep);
                    }
                }
            }
            if before.len() == 1 {
                assert(join_with(before, sep) == before[0]);
                assert(join_with(now, sep) =~= head.push(s.last()));
            } else {
                assert(now.drop_last() =~= before.drop_last());
                assert(join_with(now, sep) =~= join_with(before, sep).push(s.last()));
            }
            assert(head.push(s.last()) =~= s);
        }
    }
}

/// Splits `text` at every `sep`.
pub fn split_chars(text: &Vec<char>, sep: char) -> (pieces: Vec<Vec<char>>)
    ensures
        pieces_view(pieces@) == split_on(text@, sep),
{
    let mut pieces: Vec<Vec<char>> = Vec::new();
    let mut current: Vec<char> = Vec::new();
    let mut i: usize = 0;
    while i < text.len()
        invariant
            i <= text.len(),
            pieces_view(pieces@).push(current@) == split_on(text@.take(i as int), sep),
        decreases text.len() - i,
    {
        let ghost before = split_on(text@.take(i as int), sep);
        let ghost done = pieces_view(pieces@);
        let c = text[i];
        proof {
            assert(text@.take(i + 1).drop_last() =~= text@.take(i as int));
            assert(before.last() == current@);
            assert(before.drop_last() =~= done);
        }
        if c == sep {
            pieces.push(current);
            current = Vec::new();
            proof {
                assert(pieces_view(pieces@) =~= before);
            }
        } else {
            current.push(c);
        }
        i += 1;
        assert(pieces_view(pieces@).push(current@) =~= split_on(text@.take(i as int), sep));
    }
    let ghost done = pieces_view(pieces@).push(current@);
    pieces.push(current);
    assert(text@.take(i as int) =~= text@);
    assert(pieces_view(pieces@) =~= done);
    pieces
}

/// A line without the carriage return that may stand before its line feed.
pub open spec fn without_carriage_return(line: Seq<char>) -> Seq<char> {
    if line.len() > 0 && line.last() == '\r' {
        line.drop_last()
    } else {
        line
    }
}

/// The lines of a text. A line ends at a line feed; the line feed, and a
/// carriage return directly before it, are not part of the line. What
/// follows the last line feed is a line of its own unless it is empty, and
/// keeps a carriage return at its end.
pub open spec fn lines_of(text: Seq<char>) -> Seq<Seq<char>> {
    let pieces = split_on(text, '\n');
    let ended = pieces.drop_last().map_values(|line: Seq<char>| without_carriage_return(line));
    if pieces.last().len() == 0 {
        ended
    } else {
        ended.push(pieces.last())
    }
}

/// No line holds a line feed.
pub proof fn lemma_lines_hold_no_line_feed(text: Seq<char>)
    ensures
        forall|i: int| 0 <= i < lines_of(text).len() ==> !(#[trigger] lines_of(text)[i]).contains('\n'),
{
    let pieces = split_on(text, '\n');
    let lines = lines_of(text);
    lemma_split_on(text, '\n');
    assert forall|i: int| 0 <= i < lines.len() implies !(#[trigger] lines[i]).contains('\n') by {
        assert(!pieces[i].contains('\n'));
        if lines[i].contains('\n') {
            let j = choose|j: int| 0 <= j < lines[i].len() && lines[i][j] == '\n';
            assert(pieces[i][j] == '\n');
        }
    }
}

/// Splits a text into its lines.
pub fn split_lines(text: &str) -> (lines: Vec<String>)
    ensures
        lines_view(lines@) == lines_of(text@),
{
    let chars = to_chars(text);
    let pieces = split_chars(&chars, '\n');
    let ghost views = pieces_view(pieces@);
    let ghost ended = views.drop_last().map_values(
        |line: Seq<char>| without_carriage_return(line),
    );
    proof {
        lemma_split_on(text@, '\n');
    }
    let mut lines: Vec<String> = Vec::new();
    let last: usize = pieces.len() - 1;
    let mut k: usize = 0;
    while k < last
        invariant
            k <= last,
            last + 1 == pieces.len(),
            views == pieces_view(pieces@),
            ended == views.drop_last().map_values(
                |line: Seq<char>| without_carriage_return(line),
            ),
            lines_view(lines@) == ended.take(k as int),
        decreases last - k,
    {
        let piece = &pieces[k];
        let ghost done = lines_view(lines@);
        assert(views[k as int] == piece@);
        let end: usize = if piece.len() > 0 && piece[piece.len() - 1] == '\r' {
            piece.len() - 1
        } else {
            piece.len()
        };
        let line = to_string(piece, 0, end);
        assert(line@ =~= without_carriage_return(piece@));
        lines.push(line);
        k += 1;
        assert(lines_view(lines@) =~= done.push(line@));
        assert(ended.take(k as int) =~= done.push(ended[k - 1]));
    }
    assert(ended.take(k as int) =~= ended);
    let tail = &pieces[last];
    assert(views.last() == tail@);
    if tail.len() > 0 {
        let ghost done = lines_view(lines@);
        let line = to_string(tail, 0, tail.len());
        assert(line@ =~= tail@);
        lines.push(line);
        assert(lines_view(lines@) =~= done.push(line@));
    }
    lines
}

} // verus!
