use vstd::prelude::*;

use crate::action::{ActionKind, ActionView, TargetView};
use crate::ai::{accepts, paid_allowed, DecisionView};
use crate::bank::{color_at, size_at};
use crate::game::{GameStatus, GameView};
use crate::piece::{Piece, SystemId};

verus! {

// The order in which the AI lists its decisions: the candidate actions of
// each family in the order they are tried, each kept when the game takes it
// and it is not listed yet.

/// The list after trying an action: it joins when the game takes it and it
/// is not listed yet.
pub open spec fn offer(g: GameView, listed: Seq<DecisionView>, a: ActionView) -> Seq<DecisionView> {
    if accepts(g, a) && !listed.contains(DecisionView::Action(a)) {
        listed.push(DecisionView::Action(a))
    } else {
        listed
    }
}

/// The list after trying each candidate in turn.
pub open spec fn offer_all(g: GameView, listed: Seq<DecisionView>, candidates: Seq<ActionView>) -> Seq<DecisionView>
    decreases candidates.len(),
{
    if candidates.len() == 0 {
        listed
    } else {
        offer(g, offer_all(g, listed, candidates.drop_last()), candidates.last())
    }
}

/// Trying two runs of candidates is trying the first, then the second.
pub proof fn lemma_offer_all_append(g: GameView, listed: Seq<DecisionView>, a: Seq<ActionView>, b: Seq<ActionView>)
    ensures
        offer_all(g, listed, a + b) == offer_all(g, offer_all(g, listed, a), b),
    decreases b.len(),
{
    if b.len() == 0 {
        assert(a + b =~= a);
    } else {
        lemma_offer_all_append(g, listed, a, b.drop_last());
        assert((a + b).drop_last() =~= a + b.drop_last());
        assert((a + b).last() == b.last());
    }
}

/// Trying one candidate after a run.
pub proof fn lemma_offer_after(g: GameView, listed: Seq<DecisionView>, a: Seq<ActionView>, x: ActionView)
    ensures
        offer_all(g, listed, a + seq![x]) == offer(g, offer_all(g, listed, a), x),
{
    lemma_offer_all_append(g, listed, a, seq![x]);
    let before = offer_all(g, listed, a);
    assert(seq![x].drop_last() =~= Seq::<ActionView>::empty());
    assert(offer_all(g, before, Seq::<ActionView>::empty()) == before);
    assert(seq![x].last() == x);
    assert(offer_all(g, before, seq![x]) == offer(g, offer_all(g, before, seq![x].drop_last()), seq![x].last()));
}

/// One candidate when the condition holds, else none.
pub open spec fn maybe(condition: bool, a: ActionView) -> Seq<ActionView> {
    if condition {
        seq![a]
    } else {
        Seq::empty()
    }
}

/// The ships of system `i`.
pub open spec fn ships_of(g: GameView, i: int) -> Seq<Piece> {
    g.turn.state.system_at(SystemId(i as usize)).ships
}

/// Whether the bank holds a piece of the color and size at these indices.
pub open spec fn in_bank(g: GameView, c: int, z: int) -> bool {
    g.turn.state.bank.spec_count(color_at(c), size_at(z)) != 0
}

// Builds: each system, each color, each size that the bank holds.

/// Builds in system `i` of color `c`, the first `nz` sizes.
pub open spec fn build_row(g: GameView, i: int, c: int, nz: int) -> Seq<ActionView>
    decreases nz,
{
    if nz <= 0 {
        Seq::empty()
    } else {
        build_row(g, i, c, nz - 1) + maybe(
            in_bank(g, c, nz - 1),
            ActionView::Build {
                player: g.turn.player,
                system: SystemId(i as usize),
                ship: Piece::make(color_at(c), size_at(nz - 1), Some(g.turn.player)),
            },
        )
    }
}

/// Builds in system `i`, the first `nc` colors.
pub open spec fn build_block(g: GameView, i: int, nc: int) -> Seq<ActionView>
    decreases nc,
{
    if nc <= 0 {
        Seq::empty()
    } else {
        build_block(g, i, nc - 1) + build_row(g, i, nc - 1, 3)
    }
}

/// Builds in the first `ni` systems.
pub open spec fn build_list(g: GameView, ni: int) -> Seq<ActionView>
    decreases ni,
{
    if ni <= 0 {
        Seq::empty()
    } else {
        build_list(g, ni - 1) + build_block(g, ni - 1, 4)
    }
}

/// The builds that the AI tries, when the turn may build.
pub open spec fn build_candidates(g: GameView) -> Seq<ActionView> {
    if paid_allowed(g, ActionKind::Build) {
        build_list(g, g.turn.state.systems.len() as int)
    } else {
        Seq::empty()
    }
}

// Travels: each system, each own ship there; to each other system, then to
// a new star of each color and size that the bank holds.

/// Travels of a ship to the first `nt` systems, its own left out.
pub open spec fn travel_existing(g: GameView, from: int, ship: Piece, nt: int) -> Seq<ActionView>
    decreases nt,
{
    if nt <= 0 {
        Seq::empty()
    } else {
        travel_existing(g, from, ship, nt - 1) + maybe(
            nt - 1 != from,
            ActionView::Travel {
                player: g.turn.player,
                from: SystemId(from as usize),
                ship,
                target: TargetView::Existing(SystemId((nt - 1) as usize)),
            },
        )
    }
}

/// Travels of a ship to a new star of color `c`, the first `nz` sizes.
pub open spec fn travel_new_row(g: GameView, from: int, ship: Piece, c: int, nz: int) -> Seq<ActionView>
    decreases nz,
{
    if nz <= 0 {
        Seq::empty()
    } else {
        travel_new_row(g, from, ship, c, nz - 1) + maybe(
            in_bank(g, c, nz - 1),
            ActionView::Travel {
                player: g.turn.player,
                from: SystemId(from as usize),
                ship,
                target: TargetView::New(seq![Piece::make(color_at(c), size_at(nz - 1), None)]),
            },
        )
    }
}

/// Travels of a ship to a new star, the first `nc` colors.
pub open spec fn travel_new_block(g: GameView, from: int, ship: Piece, nc: int) -> Seq<ActionView>
    decreases nc,
{
    if nc <= 0 {
        Seq::empty()
    } else {
        travel_new_block(g, from, ship, nc - 1) + travel_new_row(g, from, ship, nc - 1, 3)
    }
}

/// Every travel of one ship.
pub open spec fn travel_from(g: GameView, from: int, ship: Piece) -> Seq<ActionView> {
    travel_existing(g, from, ship, g.turn.state.systems.len() as int) + travel_new_block(g, from, ship, 4)
}

/// Travels of the first `nj` ships of system `i` that the player owns.
pub open spec fn travel_ships(g: GameView, i: int, nj: int) -> Seq<ActionView>
    decreases nj,
{
    if nj <= 0 {
        Seq::empty()
    } else {
        travel_ships(g, i, nj - 1) + if ships_of(g, i)[nj - 1].owner == Some(g.turn.player) {
            travel_from(g, i, ships_of(g, i)[nj - 1])
        } else {
            Seq::empty()
        }
    }
}

/// Travels from the first `ni` systems.
pub open spec fn travel_list(g: GameView, ni: int) -> Seq<ActionView>
    decreases ni,
{
    if ni <= 0 {
        Seq::empty()
    } else {
        travel_list(g, ni - 1) + travel_ships(g, ni - 1, ships_of(g, ni - 1).len() as int)
    }
}

/// The travels that the AI tries, when the turn may travel.
pub open spec fn travel_candidates(g: GameView) -> Seq<ActionView> {
    if paid_allowed(g, ActionKind::Travel) {
        travel_list(g, g.turn.state.systems.len() as int)
    } else {
        Seq::empty()
    }
}

// Trades: each system, each own ship there, each other color of its size
// that the bank holds.

/// Trades of a ship in system `i` for the first `nc` colors.
pub open spec fn trade_row(g: GameView, i: int, ship: Piece, nc: int) -> Seq<ActionView>
    decreases nc,
{
    if nc <= 0 {
        Seq::empty()
    } else {
        trade_row(g, i, ship, nc - 1) + maybe(
            color_at(nc - 1) != ship.color && g.turn.state.bank.spec_count(color_at(nc - 1), ship.size) != 0,
            ActionView::Trade {
                player: g.turn.player,
                system: SystemId(i as usize),
                from: ship,
                to: Piece::make(color_at(nc - 1), ship.size, Some(g.turn.player)),
            },
        )
    }
}

/// Trades of the first `nj` ships of system `i` that the player owns.
pub open spec fn trade_ships(g: GameView, i: int, nj: int) -> Seq<ActionView>
    decreases nj,
{
    if nj <= 0 {
        Seq::empty()
    } else {
        trade_ships(g, i, nj - 1) + if ships_of(g, i)[nj - 1].owner == Some(g.turn.player) {
            trade_row(g, i, ships_of(g, i)[nj - 1], 4)
        } else {
            Seq::empty()
        }
    }
}

/// Trades in the first `ni` systems.
pub open spec fn trade_list(g: GameView, ni: int) -> Seq<ActionView>
    decreases ni,
{
    if ni <= 0 {
        Seq::empty()
    } else {
        trade_list(g, ni - 1) + trade_ships(g, ni - 1, ships_of(g, ni - 1).len() as int)
    }
}

/// The trades that the AI tries, when the turn may trade.
pub open spec fn trade_candidates(g: GameView) -> Seq<ActionView> {
    if paid_allowed(g, ActionKind::Trade) {
        trade_list(g, g.turn.state.systems.len() as int)
    } else {
        Seq::empty()
    }
}

// Sacrifices: each system, each own ship there.

/// Sacrifices of the first `nj` ships of system `i` that the player owns.
pub open spec fn sacrifice_ships(g: GameView, i: int, nj: int) -> Seq<ActionView>
    decreases nj,
{
    if nj <= 0 {
        Seq::empty()
    } else {
        sacrifice_ships(g, i, nj - 1) + maybe(
            ships_of(g, i)[nj - 1].owner == Some(g.turn.player),
            ActionView::Sacrifice { player: g.turn.player, system: SystemId(i as usize), ship: ships_of(g, i)[nj - 1] },
        )
    }
}

/// Sacrifices in the first `ni` systems.
pub open spec fn sacrifice_list(g: GameView, ni: int) -> Seq<ActionView>
    decreases ni,
{
    if ni <= 0 {
        Seq::empty()
    } else {
        sacrifice_list(g, ni - 1) + sacrifice_ships(g, ni - 1, ships_of(g, ni - 1).len() as int)
    }
}

/// The sacrifices that the AI tries, when the turn may sacrifice.
pub open spec fn sacrifice_candidates(g: GameView) -> Seq<ActionView> {
    if paid_allowed(g, ActionKind::Sacrifice) {
        sacrifice_list(g, g.turn.state.systems.len() as int)
    } else {
        Seq::empty()
    }
}

// Invasions: each system, each ship there that the opponent owns.

/// Invasions of the first `nj` ships of system `i` owned by the opponent.
pub open spec fn invade_ships(g: GameView, i: int, nj: int) -> Seq<ActionView>
    decreases nj,
{
    if nj <= 0 {
        Seq::empty()
    } else {
        invade_ships(g, i, nj - 1) + maybe(
            ships_of(g, i)[nj - 1].owner is Some && ships_of(g, i)[nj - 1].owner != Some(g.turn.player),
            ActionView::Invade { player: g.turn.player, system: SystemId(i as usize), target: ships_of(g, i)[nj - 1] },
        )
    }
}

/// Invasions in the first `ni` systems.
pub open spec fn invade_list(g: GameView, ni: int) -> Seq<ActionView>
    decreases ni,
{
    if ni <= 0 {
        Seq::empty()
    } else {
        invade_list(g, ni - 1) + invade_ships(g, ni - 1, ships_of(g, ni - 1).len() as int)
    }
}

/// The invasions that the AI tries, when the turn may invade.
pub open spec fn invade_candidates(g: GameView) -> Seq<ActionView> {
    if paid_allowed(g, ActionKind::Invade) {
        invade_list(g, g.turn.state.systems.len() as int)
    } else {
        Seq::empty()
    }
}

// Catastrophes: each system, each color.

/// Catastrophes in system `i`, the first `nc` colors.
pub open spec fn catastrophe_row(i: int, nc: int) -> Seq<ActionView>
    decreases nc,
{
    if nc <= 0 {
        Seq::empty()
    } else {
        catastrophe_row(i, nc - 1) + seq![ActionView::Catastrophe { system: SystemId(i as usize), color: color_at(nc - 1) }]
    }
}

/// Catastrophes in the first `ni` systems.
pub open spec fn catastrophe_list(ni: int) -> Seq<ActionView>
    decreases ni,
{
    if ni <= 0 {
        Seq::empty()
    } else {
        catastrophe_list(ni - 1) + catastrophe_row(ni - 1, 4)
    }
}

/// The catastrophes that the AI tries.
pub open spec fn catastrophe_candidates(g: GameView) -> Seq<ActionView> {
    catastrophe_list(g.turn.state.systems.len() as int)
}

/// Ending the turn, when the turn may end.
pub open spec fn opening(g: GameView) -> Seq<DecisionView> {
    if g.turn.can_end() {
        seq![DecisionView::EndTurn]
    } else {
        Seq::empty()
    }
}

/// The decisions of a game in progress in the AI's order: ending the turn,
/// then each family's candidates in the order they are tried.
pub open spec fn listing(g: GameView) -> Seq<DecisionView> {
    offer_all(
        g,
        offer_all(
            g,
            offer_all(
                g,
                offer_all(
                    g,
                    offer_all(g, offer_all(g, opening(g), build_candidates(g)), travel_candidates(g)),
                    trade_candidates(g),
                ),
                sacrifice_candidates(g),
            ),
            invade_candidates(g),
        ),
        catastrophe_candidates(g),
    )
}

/// Trying candidates never lists a decision twice.
pub proof fn lemma_offer_all_distinct(g: GameView, listed: Seq<DecisionView>, candidates: Seq<ActionView>)
    requires
        listed.no_duplicates(),
    ensures
        offer_all(g, listed, candidates).no_duplicates(),
    decreases candidates.len(),
{
    if candidates.len() > 0 {
        lemma_offer_all_distinct(g, listed, candidates.drop_last());
        let before = offer_all(g, listed, candidates.drop_last());
        let d = DecisionView::Action(candidates.last());
        if accepts(g, candidates.last()) && !before.contains(d) {
            let after = before.push(d);
            assert forall|i: int, j: int| 0 <= i < after.len() && 0 <= j < after.len() && i != j implies after[i] != after[j] by {
                if i == before.len() {
                    assert(before[j] != d);
                } else if j == before.len() {
                    assert(before[i] != d);
                }
            }
        }
    }
}

/// The AI's listing never holds a decision twice.
pub proof fn lemma_listing_distinct(g: GameView)
    ensures
        listing(g).no_duplicates(),
{
    let start = opening(g);
    assert(start.no_duplicates());
    let a = offer_all(g, start, build_candidates(g));
    lemma_offer_all_distinct(g, start, build_candidates(g));
    let b = offer_all(g, a, travel_candidates(g));
    lemma_offer_all_distinct(g, a, travel_candidates(g));
    let c = offer_all(g, b, trade_candidates(g));
    lemma_offer_all_distinct(g, b, trade_candidates(g));
    let d = offer_all(g, c, sacrifice_candidates(g));
    lemma_offer_all_distinct(g, c, sacrifice_candidates(g));
    let e = offer_all(g, d, invade_candidates(g));
    lemma_offer_all_distinct(g, d, invade_candidates(g));
    lemma_offer_all_distinct(g, e, catastrophe_candidates(g));
}

} // verus!
