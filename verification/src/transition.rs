use vstd::prelude::*;

use crate::action::{Action, ActionView, TargetView, TravelTarget};
use crate::bank::Bank;
use crate::count::{
    kind_count, kind_one, lemma_kind_count_contains, lemma_kind_count_push,
    lemma_kind_count_remove, lemma_kind_count_take, lemma_without_color_count,
    lemma_without_color_keeps, without_color,
};
use crate::game_state::{
    all_systems_wf, board_count, lemma_board_count_ge_element, lemma_board_count_push, lemma_board_count_take_step,
    lemma_board_count_update, system_views, GameState, GameStateError, StateView,
};
use crate::piece::{Color, Piece, Player, Size, SystemId};
use crate::star_system::{copy_pieces, system_error, StarSystem, StarSystemError, SystemView};
use crate::validation::{action_check, action_error, ActionError};

verus! {

/// Why an action could not be applied.
#[derive(Clone, Copy, Debug, PartialEq, Eq)]
pub enum TransitionError {
    InvalidAction(ActionError),
    InvalidState(GameStateError),
    InvalidSystem(StarSystemError),
}

/// Which non-homeworld systems an action removes from the board.
#[derive(Clone, Copy, Debug, PartialEq, Eq, Structural)]
pub enum PruneRule {
    /// Every non-homeworld system without ships.
    EmptyShips,
    /// The named system, if it is not a homeworld and has no ships or no stars.
    Emptied(SystemId),
}

/// Whether the rule removes this system (homeworlds aside).
pub open spec fn prunes(rule: PruneRule, id: SystemId, system: SystemView) -> bool {
    match rule {
        PruneRule::EmptyShips => system.ships.len() == 0,
        PruneRule::Emptied(target) => id == target && (system.ships.len() == 0 || system.stars.len()
            == 0),
    }
}

/// Whether the system at index `i` is removed.
pub open spec fn removed_at(systems: Seq<SystemView>, h1: SystemId, h2: SystemId, rule: PruneRule, i: int) -> bool {
    SystemId(i as usize) != h1 && SystemId(i as usize) != h2 && prunes(rule, SystemId(i as usize), systems[i])
}

/// The systems that remain after pruning, in their original order.
pub open spec fn pruned(systems: Seq<SystemView>, h1: SystemId, h2: SystemId, rule: PruneRule) -> Seq<SystemView>
    decreases systems.len(),
{
    if systems.len() == 0 {
        systems
    } else if removed_at(systems, h1, h2, rule, systems.len() - 1) {
        pruned(systems.drop_last(), h1, h2, rule)
    } else {
        pruned(systems.drop_last(), h1, h2, rule).push(systems.last())
    }
}

/// Where a kept system lands after pruning: the number of systems kept before it.
pub open spec fn remap(systems: Seq<SystemView>, h1: SystemId, h2: SystemId, rule: PruneRule, id: SystemId) -> SystemId {
    SystemId(pruned(systems.take(id.0 as int), h1, h2, rule).len() as usize)
}

/// Whether `i` is the index of the first occurrence of `x`.
pub open spec fn is_first_index(pieces: Seq<Piece>, x: Piece, i: int) -> bool {
    &&& 0 <= i < pieces.len()
    &&& pieces[i] == x
    &&& forall|j: int| 0 <= j < i ==> pieces[j] != x
}

/// The index of the first occurrence of `x`.
pub open spec fn first_index(pieces: Seq<Piece>, x: Piece) -> int {
    choose|i: int| is_first_index(pieces, x, i)
}

/// The sequence without the first occurrence of `x`.
pub open spec fn remove_first(pieces: Seq<Piece>, x: Piece) -> Seq<Piece> {
    pieces.remove(first_index(pieces, x))
}

/// The system with other ships.
pub open spec fn with_ships(system: SystemView, ships: Seq<Piece>) -> SystemView {
    SystemView { stars: system.stars, ships }
}

pub proof fn lemma_first_index_unique(pieces: Seq<Piece>, x: Piece, i: int)
    requires
        is_first_index(pieces, x, i),
    ensures
        first_index(pieces, x) == i,
{
    let k = first_index(pieces, x);
    assert(is_first_index(pieces, x, k));
    if k < i {
        assert(pieces[k] != x);
    }
    if i < k {
        assert(pieces[i] != x);
    }
}

/// Removes the first occurrence of a piece that the list contains.
fn remove_first_piece(pieces: &mut Vec<Piece>, x: Piece)
    requires
        old(pieces)@.contains(x),
    ensures
        final(pieces)@ == remove_first(old(pieces)@, x),
{
    let mut i: usize = 0;
    while i < pieces.len()
        invariant
            0 <= i <= pieces@.len(),
            pieces@ == old(pieces)@,
            pieces@.contains(x),
            forall|j: int| 0 <= j < i ==> pieces@[j] != x,
        decreases pieces@.len() - i,
    {
        if pieces[i] == x {
            proof {
                lemma_first_index_unique(pieces@, x, i as int);
            }
            pieces.remove(i);
            return;
        }
        i += 1;
    }
    proof {
        let k = choose|k: int| 0 <= k < pieces@.len() && pieces@[k] == x;
        assert(pieces@[k] != x);
    }
}

/// Puts an unowned copy of each piece back into the bank.
fn return_pieces(bank: &mut Bank, pieces: &[Piece])
    requires
        forall|c: Color, s: Size| (#[trigger] old(bank).spec_count(c, s) as nat) + kind_count(pieces@, c, s) <= 255,
    ensures
        forall|c: Color, s: Size| #[trigger] final(bank).spec_count(c, s) as nat == old(bank).spec_count(c, s) as nat
            + kind_count(pieces@, c, s),
{
    let ghost start = *bank;
    let mut i: usize = 0;
    while i < pieces.len()
        invariant
            0 <= i <= pieces@.len(),
            forall|c: Color, s: Size| (#[trigger] start.spec_count(c, s) as nat) + kind_count(pieces@, c, s) <= 255,
            forall|c: Color, s: Size| #[trigger] bank.spec_count(c, s) as nat == start.spec_count(c, s) as nat
                + kind_count(pieces@.take(i as int), c, s),
        decreases pieces@.len() - i,
    {
        let piece = pieces[i];
        proof {
            assert(pieces@.take(i + 1).drop_last() =~= pieces@.take(i as int));
            lemma_kind_count_take(pieces@, i + 1, piece.color, piece.size);
        }
        let result = bank.return_piece(Piece::new(piece.color, piece.size));
        proof {
            assert forall|c: Color, s: Size| #[trigger] bank.spec_count(c, s) as nat == start.spec_count(c, s) as nat
                + kind_count(pieces@.take(i + 1), c, s) by {
                assert(pieces@.take(i + 1).drop_last() =~= pieces@.take(i as int));
            }
        }
        i += 1;
    }
    proof {
        assert(pieces@.take(pieces@.len() as int) =~= pieces@);
    }
}

pub proof fn lemma_pruned_take_step(systems: Seq<SystemView>, h1: SystemId, h2: SystemId, rule: PruneRule, i: int)
    requires
        0 <= i < systems.len(),
    ensures
        pruned(systems.take(i + 1), h1, h2, rule) == if removed_at(systems, h1, h2, rule, i) {
            pruned(systems.take(i), h1, h2, rule)
        } else {
            pruned(systems.take(i), h1, h2, rule).push(systems[i])
        },
{
    assert(systems.take(i + 1).drop_last() =~= systems.take(i));
    assert(systems.take(i + 1).last() == systems[i]);
    assert(removed_at(systems.take(i + 1), h1, h2, rule, i) == removed_at(systems, h1, h2, rule, i));
}

pub proof fn lemma_pruned_len_le(systems: Seq<SystemView>, h1: SystemId, h2: SystemId, rule: PruneRule)
    ensures
        pruned(systems, h1, h2, rule).len() <= systems.len(),
    decreases systems.len(),
{
    if systems.len() > 0 {
        lemma_pruned_len_le(systems.drop_last(), h1, h2, rule);
    }
}

pub proof fn lemma_pruned_prefix(systems: Seq<SystemView>, h1: SystemId, h2: SystemId, rule: PruneRule, j: int, k: int)
    requires
        0 <= j <= k <= systems.len(),
    ensures
        pruned(systems.take(j), h1, h2, rule).len() <= pruned(systems.take(k), h1, h2, rule).len(),
        pruned(systems.take(k), h1, h2, rule).take(pruned(systems.take(j), h1, h2, rule).len() as int)
            =~= pruned(systems.take(j), h1, h2, rule),
    decreases k - j,
{
    if j < k {
        lemma_pruned_prefix(systems, h1, h2, rule, j, k - 1);
        lemma_pruned_take_step(systems, h1, h2, rule, k - 1);
    }
}

/// Each system kept by pruning comes from a system that is not removed, and
/// lands where `remap` sends that system.
pub proof fn lemma_pruned_origin(systems: Seq<SystemView>, h1: SystemId, h2: SystemId, rule: PruneRule, k: int) -> (i: int)
    requires
        0 <= k < pruned(systems, h1, h2, rule).len(),
    ensures
        0 <= i < systems.len(),
        !removed_at(systems, h1, h2, rule, i),
        pruned(systems, h1, h2, rule)[k] == systems[i],
        pruned(systems.take(i), h1, h2, rule).len() == k,
    decreases systems.len(),
{
    let rest = systems.drop_last();
    let n = systems.len() - 1;
    lemma_pruned_len_le(rest, h1, h2, rule);
    if k < pruned(rest, h1, h2, rule).len() {
        let i = lemma_pruned_origin(rest, h1, h2, rule, k);
        assert(rest[i] == systems[i]);
        assert(rest.take(i) =~= systems.take(i));
        assert(removed_at(rest, h1, h2, rule, i) == removed_at(systems, h1, h2, rule, i));
        i
    } else {
        assert(systems.take(n) =~= rest);
        n
    }
}


/// When no system but the one at `j` is removed, pruning removes at most one.
pub proof fn lemma_pruned_len_ge(systems: Seq<SystemView>, h1: SystemId, h2: SystemId, rule: PruneRule, j: int)
    requires
        forall|i: int| 0 <= i < systems.len() && i != j ==> !#[trigger] removed_at(systems, h1, h2, rule, i),
    ensures
        pruned(systems, h1, h2, rule).len() + 1 >= systems.len(),
        !(0 <= j < systems.len()) ==> pruned(systems, h1, h2, rule).len() == systems.len(),
    decreases systems.len(),
{
    if systems.len() > 0 {
        let rest = systems.drop_last();
        assert forall|i: int| 0 <= i < rest.len() && i != j implies !#[trigger] removed_at(rest, h1, h2, rule, i) by {
            assert(rest[i] == systems[i]);
            assert(!removed_at(systems, h1, h2, rule, i));
        }
        lemma_pruned_len_ge(rest, h1, h2, rule, j);
        lemma_pruned_len_le(rest, h1, h2, rule);
    }
}

/// The index, among the systems before pruning, of the system that pruning
/// puts at index `k`.
pub open spec fn kept_from(systems: Seq<SystemView>, h1: SystemId, h2: SystemId, rule: PruneRule, k: int) -> int {
    choose|i: int|
        0 <= i < systems.len() && !removed_at(systems, h1, h2, rule, i) && pruned(systems, h1, h2, rule)[k] == systems[i]
            && #[trigger] pruned(systems.take(i), h1, h2, rule).len() == k
}

/// Pruning keeps the systems it keeps in their order.
pub proof fn lemma_pruned_in_order(systems: Seq<SystemView>, h1: SystemId, h2: SystemId, rule: PruneRule)
    ensures
        forall|k: int|
            0 <= k < pruned(systems, h1, h2, rule).len() ==> 0 <= #[trigger] kept_from(systems, h1, h2, rule, k)
                < systems.len() && pruned(systems, h1, h2, rule)[k] == systems[kept_from(systems, h1, h2, rule, k)],
        forall|k1: int, k2: int|
            0 <= k1 < k2 < pruned(systems, h1, h2, rule).len() ==> #[trigger] kept_from(systems, h1, h2, rule, k1)
                < #[trigger] kept_from(systems, h1, h2, rule, k2),
{
    assert forall|k: int| 0 <= k < pruned(systems, h1, h2, rule).len() implies {
        let i = #[trigger] kept_from(systems, h1, h2, rule, k);
        &&& 0 <= i < systems.len()
        &&& !removed_at(systems, h1, h2, rule, i)
        &&& pruned(systems, h1, h2, rule)[k] == systems[i]
        &&& pruned(systems.take(i), h1, h2, rule).len() == k
    } by {
        let i = lemma_pruned_origin(systems, h1, h2, rule, k);
        assert(pruned(systems.take(i), h1, h2, rule).len() == k);
    }
    assert forall|k1: int, k2: int| 0 <= k1 < k2 < pruned(systems, h1, h2, rule).len() implies #[trigger] kept_from(
        systems,
        h1,
        h2,
        rule,
        k1,
    ) < #[trigger] kept_from(systems, h1, h2, rule, k2) by {
        let i1 = kept_from(systems, h1, h2, rule, k1);
        let i2 = kept_from(systems, h1, h2, rule, k2);
        assert(pruned(systems.take(i1), h1, h2, rule).len() == k1);
        assert(pruned(systems.take(i2), h1, h2, rule).len() == k2);
        if i2 <= i1 {
            lemma_pruned_prefix(systems, h1, h2, rule, i2, i1);
        }
    }
}


pub proof fn lemma_pruned_all_wf(systems: Seq<SystemView>, h1: SystemId, h2: SystemId, rule: PruneRule)
    requires
        all_systems_wf(systems),
    ensures
        all_systems_wf(pruned(systems, h1, h2, rule)),
    decreases systems.len(),
{
    if systems.len() > 0 {
        let rest = systems.drop_last();
        assert(all_systems_wf(rest)) by {
            assert forall|i: int| 0 <= i < rest.len() implies #[trigger] rest[i].wf() by {
                assert(rest[i] == systems[i]);
            }
        }
        lemma_pruned_all_wf(rest, h1, h2, rule);
        assert(systems.last() == systems[systems.len() - 1]);
    }
}

/// The kept place of a homeworld holds the same system.
pub proof fn lemma_pruned_keeps_homeworld(systems: Seq<SystemView>, h1: SystemId, h2: SystemId, rule: PruneRule, h: SystemId)
    requires
        h == h1 || h == h2,
        h.0 < systems.len(),
    ensures
        remap(systems, h1, h2, rule, h).0 < pruned(systems, h1, h2, rule).len(),
        pruned(systems, h1, h2, rule)[remap(systems, h1, h2, rule, h).0 as int] == systems[h.0 as int],
{
    let i = h.0 as int;
    lemma_pruned_len_le(systems.take(i), h1, h2, rule);
    lemma_pruned_take_step(systems, h1, h2, rule, i);
    lemma_pruned_prefix(systems, h1, h2, rule, i + 1, systems.len() as int);
    assert(systems.take(systems.len() as int) =~= systems);
    let before = pruned(systems.take(i), h1, h2, rule);
    let upto = pruned(systems.take(i + 1), h1, h2, rule);
    assert(upto == before.push(systems[i]));
    let all = pruned(systems, h1, h2, rule);
    assert(all.take(upto.len() as int) =~= upto);
    assert(all[before.len() as int] == all.take(upto.len() as int)[before.len() as int]);
}

/// Different homeworlds land in different places.
pub proof fn lemma_remap_distinct(systems: Seq<SystemView>, h1: SystemId, h2: SystemId, rule: PruneRule)
    requires
        h1 != h2,
        h1.0 < systems.len(),
        h2.0 < systems.len(),
    ensures
        remap(systems, h1, h2, rule, h1) != remap(systems, h1, h2, rule, h2),
{
    let a = h1.0 as int;
    let b = h2.0 as int;
    lemma_pruned_len_le(systems.take(a), h1, h2, rule);
    lemma_pruned_len_le(systems.take(b), h1, h2, rule);
    if a < b {
        lemma_pruned_take_step(systems, h1, h2, rule, a);
        lemma_pruned_prefix(systems, h1, h2, rule, a + 1, b);
    } else {
        lemma_pruned_take_step(systems, h1, h2, rule, b);
        lemma_pruned_prefix(systems, h1, h2, rule, b + 1, a);
    }
}

/// Removes the systems that the rule prunes, returning their pieces to the bank,
/// and gives the new ids of the two homeworlds.
fn prune_systems(systems: &Vec<StarSystem>, h1: SystemId, h2: SystemId, bank: &mut Bank, rule: PruneRule) -> (result: (
    Vec<StarSystem>,
    SystemId,
    SystemId,
))
    requires
        h1.0 < systems@.len(),
        h2.0 < systems@.len(),
        h1 != h2,
        all_systems_wf(system_views(systems@)),
        forall|c: Color, s: Size| (#[trigger] old(bank).spec_count(c, s) as nat) + board_count(system_views(systems@), c, s) <= 255,
    ensures
        system_views(result.0@) == pruned(system_views(systems@), h1, h2, rule),
        result.1 == remap(system_views(systems@), h1, h2, rule, h1),
        result.2 == remap(system_views(systems@), h1, h2, rule, h2),
        result.1.0 < result.0@.len(),
        result.2.0 < result.0@.len(),
        result.1 != result.2,
        all_systems_wf(system_views(result.0@)),
        forall|c: Color, s: Size| #[trigger] final(bank).spec_count(c, s) as nat + board_count(system_views(result.0@), c, s)
            == old(bank).spec_count(c, s) as nat + board_count(system_views(systems@), c, s),
{
    let ghost views = system_views(systems@);
    let ghost start = *bank;
    let mut kept: Vec<StarSystem> = Vec::new();
    let mut new_one = h1;
    let mut new_two = h2;
    let mut i: usize = 0;
    while i < systems.len()
        invariant
            0 <= i <= systems@.len(),
            views == system_views(systems@),
            h1.0 < systems@.len(),
            h2.0 < systems@.len(),
            all_systems_wf(views),
            system_views(kept@) == pruned(views.take(i as int), h1, h2, rule),
            h1.0 < i ==> new_one == remap(views, h1, h2, rule, h1),
            h2.0 < i ==> new_two == remap(views, h1, h2, rule, h2),
            forall|c: Color, s: Size| (#[trigger] start.spec_count(c, s) as nat) + board_count(views, c, s) <= 255,
            forall|c: Color, s: Size| #[trigger] bank.spec_count(c, s) as nat + board_count(system_views(kept@), c, s)
                == start.spec_count(c, s) as nat + board_count(views.take(i as int), c, s),
        decreases systems@.len() - i,
    {
        let ghost kept_before = system_views(kept@);
        let system = &systems[i];
        let id = SystemId::new(i);
        if i == h1.index() {
            new_one = SystemId::new(kept.len());
        }
        if i == h2.index() {
            new_two = SystemId::new(kept.len());
        }
        proof {
            lemma_pruned_take_step(views, h1, h2, rule, i as int);
            assert(views[i as int] == system@);
            assert forall|c: Color, s: Size| #[trigger] board_count(views.take(i + 1), c, s) == board_count(views.take(i as int), c, s) + system@.kind_total(c, s)
                && board_count(views.take(i + 1), c, s) <= board_count(views, c, s) by {
                lemma_board_count_take_step(views, i as int, c, s);
                crate::game_state::lemma_board_count_take_le(views, i + 1, c, s);
            }
        }
        let is_home = i == h1.index() || i == h2.index();
        let removed = !is_home && match rule {
            PruneRule::EmptyShips => system.ships().len() == 0,
            PruneRule::Emptied(target) => i == target.index() && (system.ships().len() == 0
                || system.stars().len() == 0),
        };
        assert(removed == removed_at(views, h1, h2, rule, i as int));
        if removed {
            proof {
                assert forall|c: Color, s: Size| (#[trigger] bank.spec_count(c, s) as nat) + kind_count(system@.stars, c, s) <= 255 by {
                    assert(board_count(views.take(i + 1), c, s) == board_count(views.take(i as int), c, s) + system@.kind_total(c, s));
                    assert(start.spec_count(c, s) as nat + board_count(views, c, s) <= 255);
                }
            }
            let ghost mid = *bank;
            return_pieces(bank, system.stars());
            proof {
                assert forall|c: Color, s: Size| (#[trigger] bank.spec_count(c, s) as nat) + kind_count(system@.ships, c, s) <= 255 by {
                    assert(board_count(views.take(i + 1), c, s) == board_count(views.take(i as int), c, s) + system@.kind_total(c, s));
                    assert(start.spec_count(c, s) as nat + board_count(views, c, s) <= 255);
                    assert(mid.spec_count(c, s) as nat + board_count(system_views(kept@), c, s) == start.spec_count(c, s) as nat + board_count(views.take(i as int), c, s));
                    assert(bank.spec_count(c, s) as nat == mid.spec_count(c, s) as nat + kind_count(system@.stars, c, s));
                }
            }
            return_pieces(bank, system.ships());
        } else {
            kept.push(system.duplicate());
            proof {
                assert(system_views(kept@) =~= kept_before.push(system@));
                assert forall|c: Color, s: Size| #[trigger] board_count(system_views(kept@), c, s) == board_count(kept_before, c, s) + system@.kind_total(c, s) by {
                    lemma_board_count_push(kept_before, system@, c, s);
                }
            }
        }
        i += 1;
    }
    proof {
        assert(views.take(systems@.len() as int) =~= views);
        lemma_pruned_keeps_homeworld(views, h1, h2, rule, h1);
        lemma_pruned_keeps_homeworld(views, h1, h2, rule, h2);
        lemma_remap_distinct(views, h1, h2, rule);
        lemma_pruned_all_wf(views, h1, h2, rule);
    }
    (kept, new_one, new_two)
}

/// The systems after the action's own change, before any pruning.
pub open spec fn staged_systems(s: StateView, a: ActionView) -> Seq<SystemView> {
    match a {
        ActionView::Build { system, ship, .. } => s.systems.update(
            system.0 as int,
            with_ships(s.system_at(system), s.system_at(system).ships.push(ship)),
        ),
        ActionView::Travel { from, ship, target, .. } => {
            let left = s.systems.update(
                from.0 as int,
                with_ships(s.system_at(from), remove_first(s.system_at(from).ships, ship)),
            );
            match target {
                TargetView::Existing(to) => left.update(
                    to.0 as int,
                    with_ships(left[to.0 as int], left[to.0 as int].ships.push(ship)),
                ),
                TargetView::New(stars) => left.push(SystemView { stars, ships: seq![ship] }),
            }
        },
        ActionView::Trade { system, from, to, .. } => s.systems.update(
            system.0 as int,
            with_ships(s.system_at(system), remove_first(s.system_at(system).ships, from).push(to)),
        ),
        ActionView::Sacrifice { system, ship, .. } => s.systems.update(
            system.0 as int,
            with_ships(s.system_at(system), remove_first(s.system_at(system).ships, ship)),
        ),
        ActionView::Invade { player, system, target } => s.systems.update(
            system.0 as int,
            with_ships(
                s.system_at(system),
                remove_first(s.system_at(system).ships, target).push(target.spec_with_owner(player)),
            ),
        ),
        ActionView::Catastrophe { system, color } => {
            let stars = without_color(s.system_at(system).stars, color);
            let ships = without_color(s.system_at(system).ships, color);
            s.systems.update(
                system.0 as int,
                SystemView {
                    stars,
                    ships: if stars.len() == 0 && s.is_homeworld(system) {
                        Seq::empty()
                    } else {
                        ships
                    },
                },
            )
        },
    }
}

/// The pruning that follows an action, if any.
pub open spec fn prune_rule(a: ActionView) -> Option<PruneRule> {
    match a {
        ActionView::Travel { .. } => Some(PruneRule::EmptyShips),
        ActionView::Sacrifice { .. } => Some(PruneRule::EmptyShips),
        ActionView::Catastrophe { system, .. } => Some(PruneRule::Emptied(system)),
        _ => None,
    }
}

/// Whether `next` is what applying the (legal) action to `s` gives: the changed
/// and pruned systems, the homeworlds at their new places, and a bank that keeps
/// every color and size's total number of pieces.
pub open spec fn applied(s: StateView, a: ActionView, next: StateView) -> bool {
    let staged = staged_systems(s, a);
    &&& match prune_rule(a) {
        None => {
            &&& next.systems == staged
            &&& next.home_one == s.home_one
            &&& next.home_two == s.home_two
        },
        Some(rule) => {
            &&& next.systems == pruned(staged, s.home_one, s.home_two, rule)
            &&& next.home_one == remap(staged, s.home_one, s.home_two, rule, s.home_one)
            &&& next.home_two == remap(staged, s.home_one, s.home_two, rule, s.home_two)
        },
    }
    &&& next.same_totals(s)
    &&& next.wf()
}

pub proof fn lemma_views_update(systems: Seq<StarSystem>, i: int, system: StarSystem)
    requires
        0 <= i < systems.len(),
    ensures
        system_views(systems.update(i, system)) == system_views(systems).update(i, system@),
{
    assert(system_views(systems.update(i, system)) =~= system_views(systems).update(i, system@));
}

pub proof fn lemma_views_push(systems: Seq<StarSystem>, system: StarSystem)
    ensures
        system_views(systems.push(system)) == system_views(systems).push(system@),
{
    assert(system_views(systems.push(system)) =~= system_views(systems).push(system@));
}

/// Copies of the state's systems with one system replaced.
fn replaced_systems(state: &GameState, id: SystemId, system: StarSystem) -> (systems: Vec<StarSystem>)
    requires
        state@.has_system(id),
    ensures
        system_views(systems@) == state@.systems.update(id.0 as int, system@),
        systems@.len() == state@.systems.len(),
{
    let mut systems = crate::game_state::copy_systems_of(state);
    proof {
        lemma_views_update(systems@, id.0 as int, system);
    }
    systems.set(id.index(), system);
    proof {
        assert(system_views(systems@).len() == systems@.len());
    }
    systems
}

/// A system with the given stars and ships that keeps the system rules.
fn rebuild_system(stars: Vec<Piece>, ships: Vec<Piece>) -> (result: Result<StarSystem, TransitionError>)
    ensures
        system_error(stars@, ships@) is None ==> (result matches Ok(system) && system@ == (SystemView {
            stars: stars@,
            ships: ships@,
        })),
{
    match StarSystem::new(stars, ships) {
        Ok(system) => Ok(system),
        Err(error) => Err(TransitionError::InvalidSystem(error)),
    }
}

/// The state with the given systems, the same homeworlds and the given bank.
fn rebuild_state(state: &GameState, systems: Vec<StarSystem>, bank: Bank) -> (result: Result<GameState, TransitionError>)
    requires
        state@.wf(),
        systems@.len() == state@.systems.len(),
        all_systems_wf(system_views(systems@)),
    ensures
        result matches Ok(next) && next@ == (StateView {
            systems: system_views(systems@),
            home_one: state@.home_one,
            home_two: state@.home_two,
            bank,
        }) && next@.wf(),
{
    let homeworlds = [state.homeworld(Player::One), state.homeworld(Player::Two)];
    match GameState::new(systems, homeworlds, bank) {
        Ok(next) => Ok(next),
        Err(error) => Err(TransitionError::InvalidState(error)),
    }
}

/// Copies of a system's stars and ships.
fn system_parts(state: &GameState, id: SystemId) -> (parts: (Vec<Piece>, Vec<Piece>))
    requires
        state@.has_system(id),
    ensures
        parts.0@ == state@.system_at(id).stars,
        parts.1@ == state@.system_at(id).ships,
{
    let system = state.system(id).unwrap();
    (copy_pieces_slice(system.stars()), copy_pieces_slice(system.ships()))
}

fn copy_pieces_slice(pieces: &[Piece]) -> (copy: Vec<Piece>)
    ensures
        copy@ == pieces@,
{
    let mut copy: Vec<Piece> = Vec::new();
    let mut i: usize = 0;
    while i < pieces.len()
        invariant
            0 <= i <= pieces@.len(),
            copy@ == pieces@.take(i as int),
        decreases pieces@.len() - i,
    {
        copy.push(pieces[i]);
        proof {
            assert(pieces@.take(i + 1) =~= pieces@.take(i as int).push(pieces@[i as int]));
        }
        i += 1;
    }
    proof {
        assert(pieces@.take(pieces@.len() as int) =~= pieces@);
    }
    copy
}

/// The totals of a state whose systems changed at one place and whose bank changed accordingly.
pub proof fn lemma_update_totals(s: StateView, i: int, system: SystemView, bank: Bank, next: StateView)
    requires
        0 <= i < s.systems.len(),
        next.systems == s.systems.update(i, system),
        next.bank == bank,
        forall|c: Color, z: Size| #[trigger] bank.spec_count(c, z) as int + system.kind_total(c, z)
            == s.bank.spec_count(c, z) as int + s.systems[i].kind_total(c, z),
    ensures
        next.same_totals(s),
{
    assert forall|c: Color, z: Size| #[trigger] next.piece_total(c, z) == s.piece_total(c, z) by {
        lemma_board_count_update(s.systems, i, system, c, z);
    }
}

fn apply_build(state: &GameState, player: Player, system: SystemId, ship: Piece, waived: Option<Color>) -> (result: Result<GameState, TransitionError>)
    requires
        state@.wf(),
        state@.totals_fit(),
        action_error(state@, ActionView::Build { player, system, ship }, waived) is None,
    ensures
        result matches Ok(next) && applied(state@, ActionView::Build { player, system, ship }, next@),
{
    let mut bank = *state.bank();
    let drawn = match bank.draw(ship.color, ship.size) {
        Ok(piece) => piece,
        Err(_) => {
            return Err(TransitionError::InvalidAction(ActionError::PieceUnavailable { piece: ship }));
        },
    };
    let (stars, mut ships) = system_parts(state, system);
    let ghost old_sys = state@.system_at(system);
    ships.push(drawn.with_owner(player));
    let ghost new_sys = SystemView { stars: stars@, ships: ships@ };
    proof {
        assert(ships@ == old_sys.ships.push(ship));
        assert(old_sys.wf());
    }
    let rebuilt = rebuild_system(stars, ships)?;
    let systems = replaced_systems(state, system, rebuilt);
    proof {
        assert forall|i: int| 0 <= i < system_views(systems@).len() implies #[trigger] system_views(systems@)[i].wf() by {
            if i != system.0 as int {
                assert(system_views(systems@)[i] == state@.systems[i]);
            }
        }
    }
    let next = rebuild_state(state, systems, bank)?;
    proof {
        assert forall|c: Color, z: Size| #[trigger] bank.spec_count(c, z) as int + new_sys.kind_total(c, z)
            == state@.bank.spec_count(c, z) as int + old_sys.kind_total(c, z) by {
            lemma_kind_count_push(old_sys.ships, ship, c, z);
        }
        lemma_update_totals(state@, system.0 as int, new_sys, bank, next@);
    }
    Ok(next)
}

pub proof fn lemma_first_index_exists(pieces: Seq<Piece>, x: Piece, k: int)
    requires
        0 <= k < pieces.len(),
        pieces[k] == x,
    ensures
        exists|i: int| is_first_index(pieces, x, i),
    decreases k,
{
    if exists|t: int| 0 <= t < k && pieces[t] == x {
        let t = choose|t: int| 0 <= t < k && pieces[t] == x;
        lemma_first_index_exists(pieces, x, t);
    } else {
        assert(is_first_index(pieces, x, k));
    }
}

/// Facts about removing the first copy of a piece that a system holds.
pub proof fn lemma_remove_first(pieces: Seq<Piece>, x: Piece)
    requires
        pieces.contains(x),
    ensures
        is_first_index(pieces, x, first_index(pieces, x)),
        remove_first(pieces, x).len() == pieces.len() - 1,
        forall|c: Color, z: Size| #[trigger] kind_count(pieces, c, z) == kind_count(remove_first(pieces, x), c, z) + kind_one(x, c, z),
        forall|i: int| 0 <= i < remove_first(pieces, x).len() ==> pieces.contains(#[trigger] remove_first(pieces, x)[i]),
{
    let k = choose|k: int| 0 <= k < pieces.len() && pieces[k] == x;
    lemma_first_index_exists(pieces, x, k);
    let f = first_index(pieces, x);
    assert forall|c: Color, z: Size| #[trigger] kind_count(pieces, c, z) == kind_count(remove_first(pieces, x), c, z) + kind_one(x, c, z) by {
        lemma_kind_count_remove(pieces, f, c, z);
    }
    assert forall|i: int| 0 <= i < remove_first(pieces, x).len() implies pieces.contains(#[trigger] remove_first(pieces, x)[i]) by {
        if i < f {
            assert(remove_first(pieces, x)[i] == pieces[i]);
        } else {
            assert(remove_first(pieces, x)[i] == pieces[i + 1]);
        }
    }
}

fn apply_trade(state: &GameState, player: Player, system: SystemId, from: Piece, to: Piece, waived: Option<Color>) -> (result: Result<GameState, TransitionError>)
    requires
        state@.wf(),
        state@.totals_fit(),
        action_error(state@, ActionView::Trade { player, system, from, to }, waived) is None,
    ensures
        result matches Ok(next) && applied(state@, ActionView::Trade { player, system, from, to }, next@),
{
    let ghost old_sys = state@.system_at(system);
    let mut bank = *state.bank();
    let drawn = match bank.draw(to.color, to.size) {
        Ok(piece) => piece.with_owner(player),
        Err(_) => {
            return Err(TransitionError::InvalidAction(ActionError::PieceUnavailable { piece: to }));
        },
    };
    proof {
        lemma_kind_count_contains(old_sys.ships, from);
        lemma_board_count_ge_element(state@.systems, system.0 as int, from.color, from.size);
        assert(state@.piece_total(from.color, from.size) <= 255);
    }
    let returned = bank.return_piece(Piece::new(from.color, from.size));
    let (stars, mut ships) = system_parts(state, system);
    proof {
        lemma_remove_first(old_sys.ships, from);
        assert(old_sys.wf());
    }
    remove_first_piece(&mut ships, from);
    ships.push(drawn);
    let ghost new_sys = SystemView { stars: stars@, ships: ships@ };
    proof {
        assert(ships@ == remove_first(old_sys.ships, from).push(to));
        assert forall|i: int| 0 <= i < ships@.len() implies ships@[i].owner is Some by {
            if i < ships@.len() - 1 {
                assert(old_sys.ships.contains(ships@[i]));
            }
        }
    }
    let rebuilt = rebuild_system(stars, ships)?;
    let systems = replaced_systems(state, system, rebuilt);
    proof {
        assert forall|i: int| 0 <= i < system_views(systems@).len() implies #[trigger] system_views(systems@)[i].wf() by {
            if i != system.0 as int {
                assert(system_views(systems@)[i] == state@.systems[i]);
            }
        }
    }
    let next = rebuild_state(state, systems, bank)?;
    proof {
        assert forall|c: Color, z: Size| #[trigger] bank.spec_count(c, z) as int + new_sys.kind_total(c, z)
            == state@.bank.spec_count(c, z) as int + old_sys.kind_total(c, z) by {
            lemma_kind_count_push(remove_first(old_sys.ships, from), to, c, z);
        }
        lemma_update_totals(state@, system.0 as int, new_sys, bank, next@);
    }
    Ok(next)
}

fn apply_invade(state: &GameState, player: Player, system: SystemId, target: Piece, waived: Option<Color>) -> (result: Result<GameState, TransitionError>)
    requires
        state@.wf(),
        state@.totals_fit(),
        action_error(state@, ActionView::Invade { player, system, target }, waived) is None,
    ensures
        result matches Ok(next) && applied(state@, ActionView::Invade { player, system, target }, next@),
{
    let ghost old_sys = state@.system_at(system);
    let bank = *state.bank();
    let (stars, mut ships) = system_parts(state, system);
    proof {
        lemma_remove_first(old_sys.ships, target);
        assert(old_sys.wf());
    }
    remove_first_piece(&mut ships, target);
    ships.push(target.with_owner(player));
    let ghost new_sys = SystemView { stars: stars@, ships: ships@ };
    proof {
        assert forall|i: int| 0 <= i < ships@.len() implies ships@[i].owner is Some by {
            if i < ships@.len() - 1 {
                assert(old_sys.ships.contains(ships@[i]));
            }
        }
    }
    let rebuilt = rebuild_system(stars, ships)?;
    let systems = replaced_systems(state, system, rebuilt);
    proof {
        assert forall|i: int| 0 <= i < system_views(systems@).len() implies #[trigger] system_views(systems@)[i].wf() by {
            if i != system.0 as int {
                assert(system_views(systems@)[i] == state@.systems[i]);
            }
        }
    }
    let next = rebuild_state(state, systems, bank)?;
    proof {
        assert forall|c: Color, z: Size| #[trigger] bank.spec_count(c, z) as int + new_sys.kind_total(c, z)
            == state@.bank.spec_count(c, z) as int + old_sys.kind_total(c, z) by {
            lemma_kind_count_push(remove_first(old_sys.ships, target), target.spec_with_owner(player), c, z);
        }
        lemma_update_totals(state@, system.0 as int, new_sys, bank, next@);
    }
    Ok(next)
}

/// The state built from staged systems after pruning them by the rule.
fn rebuild_pruned(state: &GameState, systems: Vec<StarSystem>, bank: Bank, rule: PruneRule) -> (result: Result<GameState, TransitionError>)
    requires
        state@.wf(),
        systems@.len() >= state@.systems.len(),
        all_systems_wf(system_views(systems@)),
        forall|c: Color, s: Size| (#[trigger] bank.spec_count(c, s) as nat) + board_count(system_views(systems@), c, s) <= 255,
    ensures
        result matches Ok(next) && {
            &&& next@.systems == pruned(system_views(systems@), state@.home_one, state@.home_two, rule)
            &&& next@.home_one == remap(system_views(systems@), state@.home_one, state@.home_two, rule, state@.home_one)
            &&& next@.home_two == remap(system_views(systems@), state@.home_one, state@.home_two, rule, state@.home_two)
            &&& forall|c: Color, s: Size| #[trigger] next@.piece_total(c, s) == bank.spec_count(c, s) as nat + board_count(system_views(systems@), c, s)
            &&& next@.wf()
        },
{
    let h1 = state.homeworld(Player::One);
    let h2 = state.homeworld(Player::Two);
    let mut bank = bank;
    let (kept, one, two) = prune_systems(&systems, h1, h2, &mut bank, rule);
    match GameState::new(kept, [one, two], bank) {
        Ok(next) => Ok(next),
        Err(error) => Err(TransitionError::InvalidState(error)),
    }
}

fn apply_sacrifice(state: &GameState, player: Player, system: SystemId, ship: Piece, waived: Option<Color>) -> (result: Result<GameState, TransitionError>)
    requires
        state@.wf(),
        state@.totals_fit(),
        action_error(state@, ActionView::Sacrifice { player, system, ship }, waived) is None,
    ensures
        result matches Ok(next) && applied(state@, ActionView::Sacrifice { player, system, ship }, next@),
{
    let ghost old_sys = state@.system_at(system);
    let mut bank = *state.bank();
    proof {
        lemma_kind_count_contains(old_sys.ships, ship);
        lemma_board_count_ge_element(state@.systems, system.0 as int, ship.color, ship.size);
        assert(state@.piece_total(ship.color, ship.size) <= 255);
    }
    let returned = bank.return_piece(Piece::new(ship.color, ship.size));
    let (stars, mut ships) = system_parts(state, system);
    proof {
        lemma_remove_first(old_sys.ships, ship);
        assert(old_sys.wf());
    }
    remove_first_piece(&mut ships, ship);
    let ghost new_sys = SystemView { stars: stars@, ships: ships@ };
    proof {
        assert forall|i: int| 0 <= i < ships@.len() implies ships@[i].owner is Some by {
            assert(old_sys.ships.contains(ships@[i]));
        }
    }
    let rebuilt = rebuild_system(stars, ships)?;
    let systems = replaced_systems(state, system, rebuilt);
    let ghost staged = system_views(systems@);
    proof {
        assert forall|i: int| 0 <= i < staged.len() implies #[trigger] staged[i].wf() by {
            if i != system.0 as int {
                assert(staged[i] == state@.systems[i]);
            }
        }
        assert forall|c: Color, z: Size| #[trigger] bank.spec_count(c, z) as nat + board_count(staged, c, z)
            == state@.piece_total(c, z) by {
            lemma_board_count_update(state@.systems, system.0 as int, new_sys, c, z);
        }
    }
    let next = rebuild_pruned(state, systems, bank, PruneRule::EmptyShips)?;
    Ok(next)
}

/// The state's systems after the ship leaves the source system.
fn leave_system(state: &GameState, from: SystemId, ship: Piece) -> (result: Result<Vec<StarSystem>, TransitionError>)
    requires
        state@.wf(),
        state@.has_system(from),
        state@.system_at(from).ships.contains(ship),
    ensures
        result matches Ok(systems) && {
            &&& system_views(systems@) == state@.systems.update(
                from.0 as int,
                with_ships(state@.system_at(from), remove_first(state@.system_at(from).ships, ship)),
            )
            &&& systems@.len() == state@.systems.len()
            &&& all_systems_wf(system_views(systems@))
            &&& forall|c: Color, z: Size| #[trigger] board_count(system_views(systems@), c, z) + kind_one(ship, c, z)
                == board_count(state@.systems, c, z)
        },
{
    let ghost old_sys = state@.system_at(from);
    let (from_stars, mut from_ships) = system_parts(state, from);
    proof {
        lemma_remove_first(old_sys.ships, ship);
        assert(old_sys.wf());
    }
    remove_first_piece(&mut from_ships, ship);
    let ghost left_sys = SystemView { stars: from_stars@, ships: from_ships@ };
    proof {
        assert forall|i: int| 0 <= i < from_ships@.len() implies from_ships@[i].owner is Some by {
            assert(old_sys.ships.contains(from_ships@[i]));
        }
    }
    let left_system = rebuild_system(from_stars, from_ships)?;
    let systems = replaced_systems(state, from, left_system);
    let ghost left = system_views(systems@);
    proof {
        assert forall|i: int| 0 <= i < left.len() implies #[trigger] left[i].wf() by {
            if i != from.0 as int {
                assert(left[i] == state@.systems[i]);
            }
        }
        assert forall|c: Color, z: Size| #[trigger] board_count(left, c, z) + kind_one(ship, c, z)
            == board_count(state@.systems, c, z) by {
            lemma_board_count_update(state@.systems, from.0 as int, left_sys, c, z);
        }
    }
    Ok(systems)
}

/// The systems after the ship arrives in an existing system.
fn arrive_existing(systems: Vec<StarSystem>, to: SystemId, ship: Piece) -> (result: Result<Vec<StarSystem>, TransitionError>)
    requires
        to.0 < systems@.len(),
        all_systems_wf(system_views(systems@)),
        ship.owner is Some,
    ensures
        result matches Ok(next) && {
            &&& system_views(next@) == system_views(systems@).update(
                to.0 as int,
                with_ships(system_views(systems@)[to.0 as int], system_views(systems@)[to.0 as int].ships.push(ship)),
            )
            &&& next@.len() == systems@.len()
            &&& all_systems_wf(system_views(next@))
            &&& forall|c: Color, z: Size| #[trigger] board_count(system_views(next@), c, z)
                == board_count(system_views(systems@), c, z) + kind_one(ship, c, z)
        },
{
    let mut systems = systems;
    let ghost left = system_views(systems@);
    let ghost to_sys = left[to.0 as int];
    let target_system = &systems[to.index()];
    let mut to_ships = copy_pieces_slice(target_system.ships());
    let to_stars = copy_pieces_slice(target_system.stars());
    to_ships.push(ship);
    let ghost arrived = SystemView { stars: to_stars@, ships: to_ships@ };
    proof {
        assert(to_sys.wf());
    }
    let arrived_system = rebuild_system(to_stars, to_ships)?;
    proof {
        lemma_views_update(systems@, to.0 as int, arrived_system);
    }
    systems.set(to.index(), arrived_system);
    let ghost staged = system_views(systems@);
    proof {
        assert forall|i: int| 0 <= i < staged.len() implies #[trigger] staged[i].wf() by {
            if i != to.0 as int {
                assert(staged[i] == left[i]);
            }
        }
        assert forall|c: Color, z: Size| #[trigger] board_count(staged, c, z)
            == board_count(left, c, z) + kind_one(ship, c, z) by {
            lemma_board_count_update(left, to.0 as int, arrived, c, z);
            lemma_kind_count_push(to_sys.ships, ship, c, z);
        }
        assert(staged.len() == systems@.len());
    }
    Ok(systems)
}

/// The systems with a newly discovered system holding the ship, its stars drawn from the bank.
fn arrive_new(systems: Vec<StarSystem>, bank: &mut Bank, stars: &Vec<Piece>, ship: Piece) -> (result: Result<Vec<StarSystem>, TransitionError>)
    requires
        all_systems_wf(system_views(systems@)),
        ship.owner is Some,
        crate::validation::discovery_error(*old(bank), stars@, ship) is None,
    ensures
        result matches Ok(next) && {
            &&& system_views(next@) == system_views(systems@).push(SystemView { stars: stars@, ships: seq![ship] })
            &&& next@.len() == systems@.len() + 1
            &&& all_systems_wf(system_views(next@))
            &&& forall|c: Color, z: Size| #[trigger] final(bank).spec_count(c, z) as nat + board_count(system_views(next@), c, z)
                == old(bank).spec_count(c, z) as nat + board_count(system_views(systems@), c, z) + kind_one(ship, c, z)
        },
{
    let mut systems = systems;
    let ghost left = system_views(systems@);
    let ghost bank0 = *bank;
    proof {
        lemma_discovery_ok(bank0, stars@, ship);
    }
    let mut drawn: Vec<Piece> = Vec::new();
    let mut i: usize = 0;
    while i < stars.len()
        invariant
            0 <= i <= stars@.len(),
            drawn@ == stars@.take(i as int),
            forall|k: int| 0 <= k < stars@.len() ==> (#[trigger] stars@[k]).owner is None,
            forall|k: int| 0 <= k < stars@.len() ==> kind_count(stars@, (#[trigger] stars@[k]).color, stars@[k].size) <= bank0.spec_count(stars@[k].color, stars@[k].size),
            forall|c: Color, z: Size| #[trigger] bank.spec_count(c, z) as nat + kind_count(stars@.take(i as int), c, z) == bank0.spec_count(c, z) as nat,
        decreases stars@.len() - i,
    {
        let star = stars[i];
        proof {
            assert(stars@.take(i + 1).drop_last() =~= stars@.take(i as int));
            lemma_kind_count_take(stars@, i + 1, star.color, star.size);
        }
        let piece = match bank.draw(star.color, star.size) {
            Ok(piece) => piece,
            Err(_) => {
                return Err(TransitionError::InvalidAction(ActionError::PieceUnavailable { piece: star }));
            },
        };
        drawn.push(piece);
        proof {
            assert(stars@.take(i + 1) =~= stars@.take(i as int).push(star));
            assert forall|c: Color, z: Size| #[trigger] bank.spec_count(c, z) as nat + kind_count(stars@.take(i + 1), c, z) == bank0.spec_count(c, z) as nat by {
                lemma_kind_count_push(stars@.take(i as int), star, c, z);
            }
        }
        i += 1;
    }
    proof {
        assert(stars@.take(stars@.len() as int) =~= stars@);
    }
    let mut new_ships: Vec<Piece> = Vec::new();
    new_ships.push(ship);
    proof {
        assert(new_ships@ =~= seq![ship]);
    }
    let discovered = rebuild_system(drawn, new_ships)?;
    let ghost new_sys = discovered@;
    proof {
        lemma_views_push(systems@, discovered);
    }
    systems.push(discovered);
    let ghost staged = system_views(systems@);
    proof {
        assert forall|k: int| 0 <= k < staged.len() implies #[trigger] staged[k].wf() by {
            if k < left.len() {
                assert(staged[k] == left[k]);
            }
        }
        assert forall|c: Color, z: Size| #[trigger] bank.spec_count(c, z) as nat + board_count(staged, c, z)
            == bank0.spec_count(c, z) as nat + board_count(left, c, z) + kind_one(ship, c, z) by {
            crate::game_state::lemma_board_count_push(left, new_sys, c, z);
            lemma_kind_count_push(Seq::<Piece>::empty(), ship, c, z);
            assert(seq![ship] == Seq::<Piece>::empty().push(ship));
        }
        assert(staged.len() == systems@.len());
    }
    Ok(systems)
}

fn apply_travel(state: &GameState, player: Player, from: SystemId, ship: Piece, target: &TravelTarget, waived: Option<Color>) -> (result: Result<GameState, TransitionError>)
    requires
        state@.wf(),
        state@.totals_fit(),
        action_error(state@, ActionView::Travel { player, from, ship, target: target@ }, waived) is None,
    ensures
        result matches Ok(next) && applied(state@, ActionView::Travel { player, from, ship, target: target@ }, next@),
{
    let ghost a = ActionView::Travel { player, from, ship, target: target@ };
    let left = leave_system(state, from, ship)?;
    let mut bank = *state.bank();
    let staged = match target {
        TravelTarget::Existing(to) => arrive_existing(left, *to, ship)?,
        TravelTarget::New { stars } => arrive_new(left, &mut bank, stars, ship)?,
    };
    proof {
        assert(system_views(staged@) == staged_systems(state@, a));
        assert forall|c: Color, z: Size| #[trigger] bank.spec_count(c, z) as nat + board_count(system_views(staged@), c, z)
            == state@.piece_total(c, z) by {
        }
    }
    rebuild_pruned(state, staged, bank, PruneRule::EmptyShips)
}

/// Returns the pieces of one color to the bank and gives the others, in order.
fn take_out_color(bank: &mut Bank, pieces: &[Piece], color: Color) -> (kept: Vec<Piece>)
    requires
        forall|c: Color, z: Size| (#[trigger] old(bank).spec_count(c, z) as nat) + kind_count(pieces@, c, z) <= 255,
    ensures
        kept@ == without_color(pieces@, color),
        forall|c: Color, z: Size| #[trigger] final(bank).spec_count(c, z) as nat + kind_count(kept@, c, z)
            == old(bank).spec_count(c, z) as nat + kind_count(pieces@, c, z),
{
    let ghost start = *bank;
    let mut kept: Vec<Piece> = Vec::new();
    let mut i: usize = 0;
    while i < pieces.len()
        invariant
            0 <= i <= pieces@.len(),
            kept@ == without_color(pieces@.take(i as int), color),
            forall|c: Color, z: Size| (#[trigger] start.spec_count(c, z) as nat) + kind_count(pieces@, c, z) <= 255,
            forall|c: Color, z: Size| #[trigger] bank.spec_count(c, z) as nat + kind_count(kept@, c, z)
                == start.spec_count(c, z) as nat + kind_count(pieces@.take(i as int), c, z),
        decreases pieces@.len() - i,
    {
        let piece = pieces[i];
        let ghost before = kept@;
        proof {
            assert(pieces@.take(i + 1).drop_last() =~= pieces@.take(i as int));
            assert(pieces@.take(i + 1).last() == piece);
            lemma_kind_count_take(pieces@, i + 1, piece.color, piece.size);
        }
        if piece.color == color {
            let result = bank.return_piece(Piece::new(piece.color, piece.size));
        } else {
            kept.push(piece);
            proof {
                assert forall|c: Color, z: Size| #[trigger] kind_count(kept@, c, z) == kind_count(before, c, z) + kind_one(piece, c, z) by {
                    lemma_kind_count_push(before, piece, c, z);
                }
            }
        }
        i += 1;
    }
    proof {
        assert(pieces@.take(pieces@.len() as int) =~= pieces@);
    }
    kept
}

/// What a catastrophe of the color leaves in the system.
pub open spec fn catastrophe_leftover(s: StateView, system: SystemId, color: Color) -> SystemView {
    staged_systems(s, ActionView::Catastrophe { system, color })[system.0 as int]
}

/// The stars and ships that a catastrophe leaves in a system, its other pieces returned to the bank.
fn catastrophe_parts(state: &GameState, system: SystemId, color: Color, bank: &mut Bank) -> (parts: (Vec<Piece>, Vec<Piece>))
    requires
        state@.wf(),
        state@.totals_fit(),
        state@.has_system(system),
        *old(bank) == state@.bank,
    ensures
        parts.0@ == catastrophe_leftover(state@, system, color).stars,
        parts.1@ == catastrophe_leftover(state@, system, color).ships,
        catastrophe_leftover(state@, system, color).wf(),
        forall|c: Color, z: Size| #[trigger] final(bank).spec_count(c, z) as nat + kind_count(parts.0@, c, z) + kind_count(parts.1@, c, z)
            == old(bank).spec_count(c, z) as nat + state@.system_at(system).kind_total(c, z),
{
    let ghost old_sys = state@.system_at(system);
    let (stars, ships) = system_parts(state, system);
    proof {
        assert(old_sys.wf());
        assert forall|c: Color, z: Size| (#[trigger] bank.spec_count(c, z) as nat) + kind_count(stars@, c, z) + kind_count(ships@, c, z) <= 255 by {
            lemma_board_count_ge_element(state@.systems, system.0 as int, c, z);
            assert(state@.piece_total(c, z) <= 255);
        }
    }
    let ghost bank0 = *bank;
    let kept_stars = take_out_color(bank, stars.as_slice(), color);
    let ghost bank1 = *bank;
    let mut kept_ships = take_out_color(bank, ships.as_slice(), color);
    proof {
        lemma_without_color_keeps(stars@, color);
        lemma_without_color_keeps(ships@, color);
        assert forall|c: Color, z: Size| (#[trigger] bank.spec_count(c, z) as nat) + kind_count(kept_stars@, c, z) + kind_count(kept_ships@, c, z)
            == bank0.spec_count(c, z) as nat + kind_count(stars@, c, z) + kind_count(ships@, c, z) by {
            assert(bank1.spec_count(c, z) as nat + kind_count(kept_stars@, c, z) == bank0.spec_count(c, z) as nat + kind_count(stars@, c, z));
        }
    }
    let home = system == state.homeworld(Player::One) || system == state.homeworld(Player::Two);
    if kept_stars.len() == 0 && home {
        return_pieces(bank, kept_ships.as_slice());
        kept_ships = Vec::new();
    }
    proof {
        assert forall|i: int| 0 <= i < kept_stars@.len() implies kept_stars@[i].owner is None by {
            assert(stars@.contains(kept_stars@[i]));
        }
        assert forall|i: int| 0 <= i < kept_ships@.len() implies kept_ships@[i].owner is Some by {
            assert(ships@.contains(kept_ships@[i]));
        }
    }
    (kept_stars, kept_ships)
}

fn apply_catastrophe(state: &GameState, system: SystemId, color: Color) -> (result: Result<GameState, TransitionError>)
    requires
        state@.wf(),
        state@.totals_fit(),
        action_error(state@, ActionView::Catastrophe { system, color }, None) is None,
    ensures
        result matches Ok(next) && applied(state@, ActionView::Catastrophe { system, color }, next@),
{
    let mut bank = *state.bank();
    let (stars, ships) = catastrophe_parts(state, system, color, &mut bank);
    let ghost new_sys = SystemView { stars: stars@, ships: ships@ };
    let rebuilt = rebuild_system(stars, ships)?;
    let systems = replaced_systems(state, system, rebuilt);
    let ghost staged = system_views(systems@);
    proof {
        assert(staged =~= staged_systems(state@, ActionView::Catastrophe { system, color }));
        assert forall|i: int| 0 <= i < staged.len() implies #[trigger] staged[i].wf() by {
            if i != system.0 as int {
                assert(staged[i] == state@.systems[i]);
            }
        }
        assert forall|c: Color, z: Size| #[trigger] bank.spec_count(c, z) as nat + board_count(staged, c, z)
            == state@.piece_total(c, z) by {
            lemma_board_count_update(state@.systems, system.0 as int, new_sys, c, z);
        }
    }
    rebuild_pruned(state, systems, bank, PruneRule::Emptied(system))
}

/// Applies an action that passes the checks made with the `waived` color's power
/// not required.
pub fn apply_action_waiving(state: &GameState, action: &Action, waived: Option<Color>) -> (result: Result<GameState, TransitionError>)
    requires
        state@.wf(),
        state@.totals_fit(),
    ensures
        match action_error(state@, action@, waived) {
            Some(error) => result == Err::<GameState, TransitionError>(TransitionError::InvalidAction(error)),
            None => result matches Ok(next) && applied(state@, action@, next@) && next@.totals_fit(),
        },
{
    if let Some(error) = action_check(state, action, waived) {
        return Err(TransitionError::InvalidAction(error));
    }
    let result = match action {
        Action::Build { player, system, ship } => apply_build(state, *player, *system, *ship, waived),
        Action::Travel { player, from, ship, target } => apply_travel(state, *player, *from, *ship, target, waived),
        Action::Trade { player, system, from, to } => apply_trade(state, *player, *system, *from, *to, waived),
        Action::Sacrifice { player, system, ship } => apply_sacrifice(state, *player, *system, *ship, waived),
        Action::Invade { player, system, target } => apply_invade(state, *player, *system, *target, waived),
        Action::Catastrophe { system, color } => apply_catastrophe(state, *system, *color),
    };
    match result {
        Ok(next) => {
            proof {
                assert forall|c: Color, z: Size| #[trigger] next@.piece_total(c, z) <= 255 by {
                    assert(next@.piece_total(c, z) == state@.piece_total(c, z));
                }
            }
            Ok(next)
        },
        Err(error) => Err(error),
    }
}

/// Checks the action and, if it is legal, gives the state that it leads to.
/// The given state is left unchanged.
pub fn apply_action(state: &GameState, action: &Action) -> (result: Result<GameState, TransitionError>)
    requires
        state@.wf(),
        state@.totals_fit(),
    ensures
        match action_error(state@, action@, None) {
            Some(error) => result == Err::<GameState, TransitionError>(TransitionError::InvalidAction(error)),
            None => result matches Ok(next) && applied(state@, action@, next@) && next@.totals_fit(),
        },
{
    apply_action_waiving(state, action, None)
}

/// A legal discovery asks for unowned stars that the bank can supply.
pub proof fn lemma_discovery_ok(bank: Bank, stars: Seq<Piece>, ship: Piece)
    requires
        crate::validation::discovery_error(bank, stars, ship) is None,
    ensures
        forall|k: int| 0 <= k < stars.len() ==> (#[trigger] stars[k]).owner is None,
        forall|k: int| 0 <= k < stars.len() ==> kind_count(stars, (#[trigger] stars[k]).color, stars[k].size) <= bank.spec_count(stars[k].color, stars[k].size),
        stars.len() <= 2,
{
    lemma_unavailable_none(bank, stars, 0);
}

pub proof fn lemma_unavailable_none(bank: Bank, stars: Seq<Piece>, j: int)
    requires
        0 <= j,
        crate::validation::unavailable_from(bank, stars, j) is None,
    ensures
        forall|k: int| j <= k < stars.len() ==> kind_count(stars, (#[trigger] stars[k]).color, stars[k].size) <= bank.spec_count(stars[k].color, stars[k].size),
    decreases stars.len() - j,
{
    if j < stars.len() {
        lemma_unavailable_none(bank, stars, j + 1);
    }
}

} // verus!
