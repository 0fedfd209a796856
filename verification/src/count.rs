use vstd::prelude::*;

use crate::piece::{Color, Piece, Size};

verus! {

/// How many pieces of the sequence have this color and size.
pub open spec fn kind_count(pieces: Seq<Piece>, color: Color, size: Size) -> nat
    decreases pieces.len(),
{
    if pieces.len() == 0 {
        0
    } else {
        kind_count(pieces.drop_last(), color, size) + if pieces.last().color == color
            && pieces.last().size == size {
            1nat
        } else {
            0nat
        }
    }
}

/// One if the piece has this color and size, else zero.
pub open spec fn kind_one(piece: Piece, color: Color, size: Size) -> nat {
    if piece.color == color && piece.size == size {
        1
    } else {
        0
    }
}

pub proof fn lemma_kind_count_push(pieces: Seq<Piece>, piece: Piece, color: Color, size: Size)
    ensures
        kind_count(pieces.push(piece), color, size) == kind_count(pieces, color, size) + kind_one(
            piece,
            color,
            size,
        ),
{
    assert(pieces.push(piece).drop_last() =~= pieces);
}

pub proof fn lemma_kind_count_remove(pieces: Seq<Piece>, i: int, color: Color, size: Size)
    requires
        0 <= i < pieces.len(),
    ensures
        kind_count(pieces, color, size) == kind_count(pieces.remove(i), color, size) + kind_one(
            pieces[i],
            color,
            size,
        ),
    decreases pieces.len(),
{
    if i == pieces.len() - 1 {
        assert(pieces.remove(i) =~= pieces.drop_last());
    } else {
        lemma_kind_count_remove(pieces.drop_last(), i, color, size);
        assert(pieces.remove(i).drop_last() =~= pieces.drop_last().remove(i));
        assert(pieces.remove(i).last() == pieces.last());
    }
}

pub proof fn lemma_kind_count_concat(a: Seq<Piece>, b: Seq<Piece>, color: Color, size: Size)
    ensures
        kind_count(a + b, color, size) == kind_count(a, color, size) + kind_count(b, color, size),
    decreases b.len(),
{
    if b.len() == 0 {
        assert(a + b =~= a);
    } else {
        lemma_kind_count_concat(a, b.drop_last(), color, size);
        assert((a + b).drop_last() =~= a + b.drop_last());
    }
}

/// How many pieces of the sequence have this color.
pub open spec fn color_count(pieces: Seq<Piece>, color: Color) -> nat
    decreases pieces.len(),
{
    if pieces.len() == 0 {
        0
    } else {
        color_count(pieces.drop_last(), color) + if pieces.last().color == color {
            1nat
        } else {
            0nat
        }
    }
}

/// The pieces of the sequence whose color is not `color`, in order.
pub open spec fn without_color(pieces: Seq<Piece>, color: Color) -> Seq<Piece>
    decreases pieces.len(),
{
    if pieces.len() == 0 {
        pieces
    } else if pieces.last().color == color {
        without_color(pieces.drop_last(), color)
    } else {
        without_color(pieces.drop_last(), color).push(pieces.last())
    }
}

pub proof fn lemma_without_color_count(pieces: Seq<Piece>, color: Color, c: Color, s: Size)
    ensures
        kind_count(pieces, c, s) == kind_count(without_color(pieces, color), c, s) + if c == color {
            kind_count(pieces, c, s)
        } else {
            0
        },
    decreases pieces.len(),
{
    if pieces.len() > 0 {
        lemma_without_color_count(pieces.drop_last(), color, c, s);
        if pieces.last().color != color {
            lemma_kind_count_push(without_color(pieces.drop_last(), color), pieces.last(), c, s);
        }
    }
}

pub proof fn lemma_without_color_keeps(pieces: Seq<Piece>, color: Color)
    ensures
        forall|i: int|
            0 <= i < without_color(pieces, color).len() ==> pieces.contains(
                #[trigger] without_color(pieces, color)[i],
            ) && without_color(pieces, color)[i].color != color,
        without_color(pieces, color).len() <= pieces.len(),
    decreases pieces.len(),
{
    if pieces.len() > 0 {
        lemma_without_color_keeps(pieces.drop_last(), color);
        let w = without_color(pieces.drop_last(), color);
        assert forall|i: int| 0 <= i < without_color(pieces, color).len() implies pieces.contains(
            #[trigger] without_color(pieces, color)[i],
        ) && without_color(pieces, color)[i].color != color by {
            if pieces.last().color != color && i == w.len() {
                assert(pieces[pieces.len() - 1] == pieces.last());
            } else {
                assert(without_color(pieces, color)[i] == w[i]);
                assert(pieces.drop_last().contains(w[i]));
                let k = choose|k: int| 0 <= k < pieces.drop_last().len() && pieces.drop_last()[k] == w[i];
                assert(pieces[k] == w[i]);
            }
        }
    }
}

/// Pieces of this color and size in a prefix never outnumber those in the whole sequence.
pub proof fn lemma_kind_count_take(pieces: Seq<Piece>, i: int, color: Color, size: Size)
    requires
        0 <= i <= pieces.len(),
    ensures
        kind_count(pieces.take(i), color, size) <= kind_count(pieces, color, size),
    decreases pieces.len() - i,
{
    if i < pieces.len() {
        lemma_kind_count_take(pieces, i + 1, color, size);
        assert(pieces.take(i + 1).drop_last() =~= pieces.take(i));
    } else {
        assert(pieces.take(i) =~= pieces);
    }
}

/// A sequence holding a piece counts at least one of its color and size.
pub proof fn lemma_kind_count_contains(pieces: Seq<Piece>, piece: Piece)
    requires
        pieces.contains(piece),
    ensures
        kind_count(pieces, piece.color, piece.size) >= 1,
{
    let i = choose|i: int| 0 <= i < pieces.len() && pieces[i] == piece;
    lemma_kind_count_remove(pieces, i, piece.color, piece.size);
}

pub proof fn lemma_kind_count_empty(color: Color, size: Size)
    ensures
        kind_count(Seq::<Piece>::empty(), color, size) == 0,
{
}

} // verus!
