use vstd::prelude::*;

use crate::action::{same_action, Action, ActionKind, ActionView, TargetView, TravelTarget};
use crate::bank::{color_at, size_at};
use crate::game::{status_of, Game, GameOutcome, GameStatus, GameView};
use crate::game_state::StateView;
use crate::transition::{pruned, prune_rule, remap, staged_systems};
use crate::turn::TurnView;
use crate::piece::{Color, Piece, Player, Size, SystemId};
use crate::turn::waived_color;
use crate::validation::action_error;
use crate::listing::{
    build_block, build_candidates, build_list, build_row, catastrophe_candidates, catastrophe_list, catastrophe_row,
    invade_candidates, invade_list, invade_ships, lemma_offer_after, lemma_offer_all_append, listing, offer, offer_all,
    opening, sacrifice_candidates, sacrifice_list, sacrifice_ships, ships_of, trade_candidates, trade_list, trade_row,
    trade_ships, travel_candidates, travel_existing, travel_from, travel_list, travel_new_block, travel_new_row,
    travel_ships,
};

verus! {

broadcast use vstd::seq_lib::group_seq_properties;

/// A move that the AI may make: an action, or ending the turn.
#[derive(Clone, Debug, PartialEq, Eq)]
pub enum AiDecision {
    Action(Action),
    EndTurn,
}

/// What a decision is, in specification terms.
pub ghost enum DecisionView {
    Action(ActionView),
    EndTurn,
}

impl View for AiDecision {
    type V = DecisionView;

    open spec fn view(&self) -> DecisionView {
        match self {
            AiDecision::Action(action) => DecisionView::Action(action@),
            AiDecision::EndTurn => DecisionView::EndTurn,
        }
    }
}

/// The views of a list of decisions.
pub open spec fn decision_views(decisions: Seq<AiDecision>) -> Seq<DecisionView> {
    decisions.map_values(|d: AiDecision| d@)
}

/// Whether the game would take the action now.
pub open spec fn accepts(g: GameView, a: ActionView) -> bool {
    &&& g.status == GameStatus::InProgress
    &&& if a is Catastrophe {
        action_error(g.turn.state, a, None) is None
    } else {
        &&& g.turn.budget_error(a) is None
        &&& action_error(g.turn.state, a, waived_color(g.turn.required)) is None
    }
}

/// Whether the turn may still spend an action of this kind.
pub open spec fn paid_allowed(g: GameView, kind: ActionKind) -> bool {
    g.turn.remaining > 0 && (g.turn.required is None || g.turn.required == Some(kind))
}

/// The shapes of action that the AI considers: the current player's own ships
/// (or, to invade, the opponent's) where they stand, new ships and new stars
/// of any color and size, trades to another color of the same size, and a
/// catastrophe of any color in any system.
pub open spec fn is_candidate(g: GameView, a: ActionView) -> bool {
    let s = g.turn.state;
    let p = g.turn.player;
    match a {
        ActionView::Build { player, system, ship } => {
            &&& paid_allowed(g, ActionKind::Build)
            &&& player == p
            &&& s.has_system(system)
            &&& ship.owner == Some(p)
        },
        ActionView::Travel { player, from, ship, target } => {
            &&& paid_allowed(g, ActionKind::Travel)
            &&& player == p
            &&& s.has_system(from)
            &&& s.system_at(from).ships.contains(ship)
            &&& ship.owner == Some(p)
            &&& travel_target_ok(s, from, target)
        },
        ActionView::Trade { player, system, from, to } => {
            &&& paid_allowed(g, ActionKind::Trade)
            &&& player == p
            &&& s.has_system(system)
            &&& s.system_at(system).ships.contains(from)
            &&& from.owner == Some(p)
            &&& to.owner == Some(p)
            &&& to.size == from.size
            &&& to.color != from.color
        },
        ActionView::Sacrifice { player, system, ship } => {
            &&& paid_allowed(g, ActionKind::Sacrifice)
            &&& player == p
            &&& s.has_system(system)
            &&& s.system_at(system).ships.contains(ship)
            &&& ship.owner == Some(p)
        },
        ActionView::Invade { player, system, target } => {
            &&& paid_allowed(g, ActionKind::Invade)
            &&& player == p
            &&& s.has_system(system)
            &&& s.system_at(system).ships.contains(target)
            &&& target.owner is Some
            &&& target.owner != Some(p)
        },
        ActionView::Catastrophe { system, .. } => s.has_system(system),
    }
}

/// The travel targets that the AI considers: another system, or one new unowned star.
pub open spec fn travel_target_ok(s: crate::game_state::StateView, from: SystemId, target: TargetView) -> bool {
    match target {
        TargetView::Existing(to) => s.has_system(to) && to != from,
        TargetView::New(stars) => stars.len() == 1 && stars[0].owner is None,
    }
}

/// The place of a decision's family in the AI's listing order.
pub open spec fn kind_rank(kind: ActionKind) -> int {
    match kind {
        ActionKind::Build => 1,
        ActionKind::Travel => 2,
        ActionKind::Trade => 3,
        ActionKind::Sacrifice => 4,
        ActionKind::Invade => 5,
        ActionKind::Catastrophe => 6,
    }
}

/// The place of a decision in the AI's listing order: ending the turn first.
pub open spec fn family_rank(d: DecisionView) -> int {
    match d {
        DecisionView::EndTurn => 0,
        DecisionView::Action(a) => kind_rank(a.kind()),
    }
}

/// Whether the decision is one the AI may list: a candidate action that the
/// game accepts, or ending a turn that may end.
pub open spec fn is_legal(g: GameView, d: DecisionView) -> bool {
    match d {
        DecisionView::EndTurn => g.status == GameStatus::InProgress && g.turn.can_end(),
        DecisionView::Action(a) => is_candidate(g, a) && accepts(g, a),
    }
}

/// Legal decisions, each once, in family order, none after family `top`.
pub open spec fn well_listed(g: GameView, ds: Seq<DecisionView>, top: int) -> bool {
    &&& forall|i: int| 0 <= i < ds.len() ==> is_legal(g, #[trigger] ds[i]) && family_rank(ds[i]) <= top
    &&& forall|i: int, j: int| 0 <= i < j < ds.len() ==> #[trigger] ds[i] != #[trigger] ds[j] && family_rank(ds[i]) <= family_rank(ds[j])
}

/// `after` keeps every decision of `before` and adds only actions of `kind`.
pub open spec fn grows_by(before: Seq<DecisionView>, after: Seq<DecisionView>, kind: ActionKind) -> bool {
    &&& forall|x: DecisionView| before.contains(x) ==> #[trigger] after.contains(x)
    &&& forall|x: DecisionView| #[trigger] after.contains(x) ==> before.contains(x) || (x matches DecisionView::Action(a) && a.kind() == kind)
}

proof fn lemma_grows_step(start: Seq<DecisionView>, before: Seq<DecisionView>, after: Seq<DecisionView>, a: ActionView, kind: ActionKind)
    requires
        grows_by(start, before, kind),
        a.kind() == kind,
        forall|x: DecisionView| #[trigger] before.contains(x) ==> after.contains(x),
        forall|x: DecisionView| #[trigger] after.contains(x) ==> before.contains(x) || x == DecisionView::Action(a),
    ensures
        grows_by(start, after, kind),
{
    assert forall|x: DecisionView| start.contains(x) implies #[trigger] after.contains(x) by {
        assert(before.contains(x));
    }
    assert forall|x: DecisionView| #[trigger] after.contains(x) implies start.contains(x) || (x matches DecisionView::Action(b) && b.kind() == kind) by {
        if x != DecisionView::Action(a) {
            assert(before.contains(x));
        }
    }
}

/// The color at a position of `Color::ALL`.
fn color_of_index(i: usize) -> (c: Color)
    requires
        i < 4,
    ensures
        c == color_at(i as int),
        c.spec_index() == i,
{
    if i == 0 {
        Color::Red
    } else if i == 1 {
        Color::Yellow
    } else if i == 2 {
        Color::Green
    } else {
        Color::Blue
    }
}

/// The size at a position of `Size::ALL`.
fn size_of_index(i: usize) -> (s: Size)
    requires
        i < 3,
    ensures
        s == size_at(i as int),
        s.spec_index() == i,
{
    if i == 0 {
        Size::Small
    } else if i == 1 {
        Size::Medium
    } else {
        Size::Large
    }
}

/// Whether two decisions are the same.
pub fn same_decision(a: &AiDecision, b: &AiDecision) -> (same: bool)
    ensures
        same == (a@ == b@),
{
    match (a, b) {
        (AiDecision::Action(x), AiDecision::Action(y)) => same_action(x, y),
        (AiDecision::EndTurn, AiDecision::EndTurn) => true,
        _ => false,
    }
}

/// Whether the list already holds the decision.
pub fn contains_decision(decisions: &Vec<AiDecision>, decision: &AiDecision) -> (found: bool)
    ensures
        found == decision_views(decisions@).contains(decision@),
{
    let ghost views = decision_views(decisions@);
    let mut i: usize = 0;
    while i < decisions.len()
        invariant
            0 <= i <= decisions@.len(),
            views == decision_views(decisions@),
            forall|j: int| 0 <= j < i ==> views[j] != decision@,
        decreases decisions@.len() - i,
    {
        if same_decision(&decisions[i], decision) {
            proof {
                assert(views[i as int] == decision@);
            }
            return true;
        }
        i += 1;
    }
    false
}

/// Whether the game takes the action; the game must be in progress.
fn game_accepts(game: &Game, action: &Action) -> (ok: bool)
    requires
        game@.wf(),
        game@.status == GameStatus::InProgress,
    ensures
        ok == accepts(game@, action@),
{
    game.apply_action(action).is_ok()
}

/// Adds the action to the list when the game takes it and it is not listed yet.
fn push_if_legal(game: &Game, decisions: &mut Vec<AiDecision>, action: Action)
    requires
        game@.wf(),
        game@.status == GameStatus::InProgress,
        is_candidate(game@, action@),
        well_listed(game@, decision_views(old(decisions)@), kind_rank(action@.kind())),
    ensures
        well_listed(game@, decision_views(final(decisions)@), kind_rank(action@.kind())),
        forall|x: DecisionView| #[trigger] decision_views(old(decisions)@).contains(x) ==> decision_views(final(decisions)@).contains(x),
        forall|x: DecisionView| #[trigger] decision_views(final(decisions)@).contains(x) ==> decision_views(old(decisions)@).contains(x) || x == DecisionView::Action(action@),
        accepts(game@, action@) ==> decision_views(final(decisions)@).contains(DecisionView::Action(action@)),
        decision_views(final(decisions)@) == offer(game@, decision_views(old(decisions)@), action@),
{
    if !game_accepts(game, &action) {
        return;
    }
    let decision = AiDecision::Action(action);
    if contains_decision(decisions, &decision) {
        return;
    }
    let ghost before = decision_views(decisions@);
    decisions.push(decision);
    proof {
        let after = decision_views(decisions@);
        assert(after =~= before.push(decision@));
        assert(after[before.len() as int] == decision@);
        assert forall|i: int, j: int| 0 <= i < j < after.len() implies #[trigger] after[i] != #[trigger] after[j] && family_rank(after[i]) <= family_rank(after[j]) by {
            if j == before.len() {
                assert(before.contains(after[i]) ==> after[i] != decision@);
                assert(before[i] == after[i]);
            }
        }
    }
}

/// Adds ending the turn when the game would allow it.
fn push_end_turn_decision(game: &Game, decisions: &mut Vec<AiDecision>)
    requires
        game@.status == GameStatus::InProgress,
        old(decisions)@.len() == 0,
    ensures
        well_listed(game@, decision_views(final(decisions)@), 0),
        decision_views(final(decisions)@) == if game@.turn.can_end() {
            seq![DecisionView::EndTurn]
        } else {
            Seq::<DecisionView>::empty()
        },
{
    if game.end_turn().is_ok() {
        decisions.push(AiDecision::EndTurn);
    }
    proof {
        assert(decision_views(decisions@) =~= if game@.turn.can_end() {
            seq![DecisionView::EndTurn]
        } else {
            Seq::<DecisionView>::empty()
        });
    }
}

/// Every catastrophe that the game takes, system by system, color by color.
fn push_catastrophe_decisions(game: &Game, decisions: &mut Vec<AiDecision>)
    requires
        game@.wf(),
        game@.status == GameStatus::InProgress,
        well_listed(game@, decision_views(old(decisions)@), 6),
    ensures
        well_listed(game@, decision_views(final(decisions)@), 6),
        grows_by(decision_views(old(decisions)@), decision_views(final(decisions)@), ActionKind::Catastrophe),
        forall|system: SystemId, color: Color|
            #[trigger] accepts(game@, ActionView::Catastrophe { system, color }) && game@.turn.state.has_system(system)
                ==> decision_views(final(decisions)@).contains(DecisionView::Action(ActionView::Catastrophe { system, color })),
        decision_views(final(decisions)@) == offer_all(game@, decision_views(old(decisions)@), catastrophe_candidates(game@)),
{
    let ghost g = game@;
    let ghost start = decision_views(decisions@);
    let n = game.turn().state().systems().len();
    assert(n == g.turn.state.systems.len());
    let mut i: usize = 0;
    while i < n
        invariant
            g == game@,
            g.wf(),
            g.status == GameStatus::InProgress,
            n == g.turn.state.systems.len(),
            0 <= i <= n,
            well_listed(g, decision_views(decisions@), 6),
            grows_by(start, decision_views(decisions@), ActionKind::Catastrophe),
            forall|system: SystemId, color: Color|
                #[trigger] accepts(g, ActionView::Catastrophe { system, color }) && system.0 < i
                    ==> decision_views(decisions@).contains(DecisionView::Action(ActionView::Catastrophe { system, color })),
            decision_views(decisions@) == offer_all(g, start, catastrophe_list(i as int)),
        decreases n - i,
    {
        let mut ci: usize = 0;
        while ci < 4
            invariant
                g == game@,
                g.wf(),
                g.status == GameStatus::InProgress,
                n == g.turn.state.systems.len(),
                0 <= i < n,
                0 <= ci <= 4,
                well_listed(g, decision_views(decisions@), 6),
                grows_by(start, decision_views(decisions@), ActionKind::Catastrophe),
                forall|system: SystemId, color: Color|
                    #[trigger] accepts(g, ActionView::Catastrophe { system, color }) && (system.0 < i || (system.0 == i && color.spec_index() < ci))
                        ==> decision_views(decisions@).contains(DecisionView::Action(ActionView::Catastrophe { system, color })),
                decision_views(decisions@) == offer_all(g, start, catastrophe_list(i as int) + catastrophe_row(i as int, ci as int)),
            decreases 4 - ci,
        {
            let color = color_of_index(ci);
            let ghost before = decision_views(decisions@);
            let action = Action::Catastrophe { system: SystemId::new(i), color };
            let ghost a = action@;
            push_if_legal(game, decisions, action);
            proof {
                lemma_grows_step(start, before, decision_views(decisions@), a, ActionKind::Catastrophe);
                let prefix = catastrophe_list(i as int) + catastrophe_row(i as int, ci as int);
                lemma_offer_after(g, start, prefix, a);
                assert(catastrophe_list(i as int) + catastrophe_row(i as int, ci + 1) =~= prefix + seq![a]);
            }
            ci += 1;
        }
        proof {
            assert(catastrophe_list(i + 1) == catastrophe_list(i as int) + catastrophe_row(i as int, 4));
        }
        i += 1;
    }
}

/// Whether the turn may still spend an action of this kind.
fn paid_actions_allowed(game: &Game, kind: ActionKind) -> (allowed: bool)
    ensures
        allowed == paid_allowed(game@, kind),
{
    let turn = game.turn();
    turn.remaining_actions() > 0 && match turn.required_action() {
        None => true,
        Some(required) => required == kind,
    }
}

/// Every build that the game takes: each system, then each color and size
/// that the bank still holds, as a ship of the current player.
fn push_build_decisions(game: &Game, decisions: &mut Vec<AiDecision>)
    requires
        game@.wf(),
        game@.status == GameStatus::InProgress,
        well_listed(game@, decision_views(old(decisions)@), 1),
    ensures
        well_listed(game@, decision_views(final(decisions)@), 1),
        grows_by(decision_views(old(decisions)@), decision_views(final(decisions)@), ActionKind::Build),
        forall|system: SystemId, color: Color, size: Size|
            #[trigger] accepts(game@, ActionView::Build { player: game@.turn.player, system, ship: Piece::make(color, size, Some(game@.turn.player)) })
                && paid_allowed(game@, ActionKind::Build) && game@.turn.state.has_system(system)
                ==> decision_views(final(decisions)@).contains(DecisionView::Action(ActionView::Build { player: game@.turn.player, system, ship: Piece::make(color, size, Some(game@.turn.player)) })),
        decision_views(final(decisions)@) == offer_all(game@, decision_views(old(decisions)@), build_candidates(game@)),
{
    if !paid_actions_allowed(game, ActionKind::Build) {
        return;
    }
    let ghost g = game@;
    let ghost start = decision_views(decisions@);
    let player = game.turn().current_player();
    let state = game.turn().state();
    let n = state.systems().len();
    let mut i: usize = 0;
    while i < n
        invariant
            g == game@,
            g.wf(),
            g.status == GameStatus::InProgress,
            paid_allowed(g, ActionKind::Build),
            player == g.turn.player,
            state@ == g.turn.state,
            n == g.turn.state.systems.len(),
            0 <= i <= n,
            well_listed(g, decision_views(decisions@), 1),
            grows_by(start, decision_views(decisions@), ActionKind::Build),
            forall|system: SystemId, color: Color, size: Size|
                #[trigger] accepts(g, ActionView::Build { player, system, ship: Piece::make(color, size, Some(player)) }) && system.0 < i
                    ==> decision_views(decisions@).contains(DecisionView::Action(ActionView::Build { player, system, ship: Piece::make(color, size, Some(player)) })),
            decision_views(decisions@) == offer_all(g, start, build_list(g, i as int)),
        decreases n - i,
    {
        let mut ci: usize = 0;
        while ci < 4
            invariant
                g == game@,
                g.wf(),
                g.status == GameStatus::InProgress,
                paid_allowed(g, ActionKind::Build),
                player == g.turn.player,
                state@ == g.turn.state,
                n == g.turn.state.systems.len(),
                0 <= i < n,
                0 <= ci <= 4,
                well_listed(g, decision_views(decisions@), 1),
                grows_by(start, decision_views(decisions@), ActionKind::Build),
                forall|system: SystemId, color: Color, size: Size|
                    #[trigger] accepts(g, ActionView::Build { player, system, ship: Piece::make(color, size, Some(player)) })
                        && (system.0 < i || (system.0 == i && color.spec_index() < ci))
                        ==> decision_views(decisions@).contains(DecisionView::Action(ActionView::Build { player, system, ship: Piece::make(color, size, Some(player)) })),
                decision_views(decisions@) == offer_all(g, start, build_list(g, i as int) + build_block(g, i as int, ci as int)),
            decreases 4 - ci,
        {
            let color = color_of_index(ci);
            let mut si: usize = 0;
            while si < 3
                invariant
                    g == game@,
                    g.wf(),
                    g.status == GameStatus::InProgress,
                    paid_allowed(g, ActionKind::Build),
                    player == g.turn.player,
                    state@ == g.turn.state,
                    n == g.turn.state.systems.len(),
                    0 <= i < n,
                    0 <= ci < 4,
                    color.spec_index() == ci,
                    0 <= si <= 3,
                    well_listed(g, decision_views(decisions@), 1),
                    grows_by(start, decision_views(decisions@), ActionKind::Build),
                    forall|system: SystemId, c: Color, size: Size|
                        #[trigger] accepts(g, ActionView::Build { player, system, ship: Piece::make(c, size, Some(player)) })
                            && (system.0 < i || (system.0 == i && (c.spec_index() < ci || (c == color && size.spec_index() < si))))
                            ==> decision_views(decisions@).contains(DecisionView::Action(ActionView::Build { player, system, ship: Piece::make(c, size, Some(player)) })),
                    decision_views(decisions@) == offer_all(
                        g,
                        start,
                        build_list(g, i as int) + build_block(g, i as int, ci as int) + build_row(g, i as int, ci as int, si as int),
                    ),
                decreases 3 - si,
            {
                let size = size_of_index(si);
                let ghost prefix = build_list(g, i as int) + build_block(g, i as int, ci as int) + build_row(
                    g,
                    i as int,
                    ci as int,
                    si as int,
                );
                if state.bank().count(color, size) != 0 {
                    let action = Action::Build { player, system: SystemId::new(i), ship: Piece::owned(color, size, player) };
                    let ghost a = action@;
                    let ghost before = decision_views(decisions@);
                    push_if_legal(game, decisions, action);
                    proof {
                        lemma_grows_step(start, before, decision_views(decisions@), a, ActionKind::Build);
                        lemma_offer_after(g, start, prefix, a);
                        assert(build_row(g, i as int, ci as int, si + 1) == build_row(g, i as int, ci as int, si as int) + seq![a]);
                        assert(build_list(g, i as int) + build_block(g, i as int, ci as int) + build_row(g, i as int, ci as int, si + 1)
                            =~= prefix + seq![a]);
                    }
                } else {
                    proof {
                        assert(build_row(g, i as int, ci as int, si + 1) =~= build_row(g, i as int, ci as int, si as int));
                    }
                }
                si += 1;
            }
            proof {
                assert(build_block(g, i as int, ci + 1) == build_block(g, i as int, ci as int) + build_row(g, i as int, ci as int, 3));
                assert(build_list(g, i as int) + build_block(g, i as int, ci + 1) =~= build_list(g, i as int) + build_block(
                    g,
                    i as int,
                    ci as int,
                ) + build_row(g, i as int, ci as int, 3));
            }
            ci += 1;
        }
        proof {
            assert(build_list(g, i + 1) == build_list(g, i as int) + build_block(g, i as int, 4));
        }
        i += 1;
    }
}

/// Every travel of one ship that the game takes: to each other system, then
/// to a new system of one star of each color and size that the bank holds.
fn push_travel_from(game: &Game, decisions: &mut Vec<AiDecision>, from: usize, ship: Piece)
    requires
        game@.wf(),
        game@.status == GameStatus::InProgress,
        paid_allowed(game@, ActionKind::Travel),
        game@.turn.state.has_system(SystemId(from)),
        game@.turn.state.system_at(SystemId(from)).ships.contains(ship),
        ship.owner == Some(game@.turn.player),
        well_listed(game@, decision_views(old(decisions)@), 2),
    ensures
        well_listed(game@, decision_views(final(decisions)@), 2),
        grows_by(decision_views(old(decisions)@), decision_views(final(decisions)@), ActionKind::Travel),
        forall|target: TargetView|
            travel_target_ok(game@.turn.state, SystemId(from), target)
                && #[trigger] accepts(game@, ActionView::Travel { player: game@.turn.player, from: SystemId(from), ship, target })
                ==> decision_views(final(decisions)@).contains(DecisionView::Action(ActionView::Travel { player: game@.turn.player, from: SystemId(from), ship, target })),
        decision_views(final(decisions)@) == offer_all(game@, decision_views(old(decisions)@), travel_from(game@, from as int, ship)),
{
    let ghost g = game@;
    let ghost start = decision_views(decisions@);
    let player = game.turn().current_player();
    let state = game.turn().state();
    let n = state.systems().len();
    let mut t: usize = 0;
    while t < n
        invariant
            g == game@,
            g.wf(),
            g.status == GameStatus::InProgress,
            paid_allowed(g, ActionKind::Travel),
            player == g.turn.player,
            state@ == g.turn.state,
            n == g.turn.state.systems.len(),
            from < n,
            g.turn.state.system_at(SystemId(from)).ships.contains(ship),
            ship.owner == Some(player),
            0 <= t <= n,
            well_listed(g, decision_views(decisions@), 2),
            grows_by(start, decision_views(decisions@), ActionKind::Travel),
            forall|to: SystemId|
                #[trigger] accepts(g, ActionView::Travel { player, from: SystemId(from), ship, target: TargetView::Existing(to) })
                    && to.0 < t && to != SystemId(from)
                    ==> decision_views(decisions@).contains(DecisionView::Action(ActionView::Travel { player, from: SystemId(from), ship, target: TargetView::Existing(to) })),
            decision_views(decisions@) == offer_all(g, start, travel_existing(g, from as int, ship, t as int)),
        decreases n - t,
    {
        let ghost prefix = travel_existing(g, from as int, ship, t as int);
        if t != from {
            let action = Action::Travel { player, from: SystemId::new(from), ship, target: TravelTarget::Existing(SystemId::new(t)) };
            let ghost a = action@;
            let ghost before = decision_views(decisions@);
            push_if_legal(game, decisions, action);
            proof {
                lemma_grows_step(start, before, decision_views(decisions@), a, ActionKind::Travel);
                lemma_offer_after(g, start, prefix, a);
                assert(travel_existing(g, from as int, ship, t + 1) =~= prefix + seq![a]);
            }
        } else {
            proof {
                assert(travel_existing(g, from as int, ship, t + 1) =~= prefix);
            }
        }
        t += 1;
    }
    let mut ci: usize = 0;
    while ci < 4
        invariant
            g == game@,
            g.wf(),
            g.status == GameStatus::InProgress,
            paid_allowed(g, ActionKind::Travel),
            player == g.turn.player,
            state@ == g.turn.state,
            n == g.turn.state.systems.len(),
            from < n,
            g.turn.state.system_at(SystemId(from)).ships.contains(ship),
            ship.owner == Some(player),
            0 <= ci <= 4,
            well_listed(g, decision_views(decisions@), 2),
            grows_by(start, decision_views(decisions@), ActionKind::Travel),
            forall|to: SystemId|
                #[trigger] accepts(g, ActionView::Travel { player, from: SystemId(from), ship, target: TargetView::Existing(to) })
                    && to.0 < n && to != SystemId(from)
                    ==> decision_views(decisions@).contains(DecisionView::Action(ActionView::Travel { player, from: SystemId(from), ship, target: TargetView::Existing(to) })),
            forall|c: Color, sz: Size|
                #[trigger] accepts(g, ActionView::Travel { player, from: SystemId(from), ship, target: TargetView::New(seq![Piece::make(c, sz, None)]) })
                    && c.spec_index() < ci
                    ==> decision_views(decisions@).contains(DecisionView::Action(ActionView::Travel { player, from: SystemId(from), ship, target: TargetView::New(seq![Piece::make(c, sz, None)]) })),
            decision_views(decisions@) == offer_all(
                g,
                start,
                travel_existing(g, from as int, ship, n as int) + travel_new_block(g, from as int, ship, ci as int),
            ),
        decreases 4 - ci,
    {
        let color = color_of_index(ci);
        let mut si: usize = 0;
        while si < 3
            invariant
                g == game@,
                g.wf(),
                g.status == GameStatus::InProgress,
                paid_allowed(g, ActionKind::Travel),
                player == g.turn.player,
                state@ == g.turn.state,
                n == g.turn.state.systems.len(),
                from < n,
                g.turn.state.system_at(SystemId(from)).ships.contains(ship),
                ship.owner == Some(player),
                0 <= ci < 4,
                color.spec_index() == ci,
                0 <= si <= 3,
                well_listed(g, decision_views(decisions@), 2),
                grows_by(start, decision_views(decisions@), ActionKind::Travel),
                forall|to: SystemId|
                    #[trigger] accepts(g, ActionView::Travel { player, from: SystemId(from), ship, target: TargetView::Existing(to) })
                        && to.0 < n && to != SystemId(from)
                        ==> decision_views(decisions@).contains(DecisionView::Action(ActionView::Travel { player, from: SystemId(from), ship, target: TargetView::Existing(to) })),
                forall|c: Color, sz: Size|
                    #[trigger] accepts(g, ActionView::Travel { player, from: SystemId(from), ship, target: TargetView::New(seq![Piece::make(c, sz, None)]) })
                        && (c.spec_index() < ci || (c == color && sz.spec_index() < si))
                        ==> decision_views(decisions@).contains(DecisionView::Action(ActionView::Travel { player, from: SystemId(from), ship, target: TargetView::New(seq![Piece::make(c, sz, None)]) })),
                decision_views(decisions@) == offer_all(
                    g,
                    start,
                    travel_existing(g, from as int, ship, n as int) + travel_new_block(g, from as int, ship, ci as int)
                        + travel_new_row(g, from as int, ship, ci as int, si as int),
                ),
            decreases 3 - si,
        {
            let size = size_of_index(si);
            let ghost prefix = travel_existing(g, from as int, ship, n as int) + travel_new_block(g, from as int, ship, ci as int)
                + travel_new_row(g, from as int, ship, ci as int, si as int);
            if state.bank().count(color, size) != 0 {
                let mut stars: Vec<Piece> = Vec::new();
                stars.push(Piece::new(color, size));
                proof {
                    assert(stars@ =~= seq![Piece::make(color, size, None)]);
                }
                let action = Action::Travel { player, from: SystemId::new(from), ship, target: TravelTarget::New { stars } };
                let ghost a = action@;
                let ghost before = decision_views(decisions@);
                push_if_legal(game, decisions, action);
                proof {
                    lemma_grows_step(start, before, decision_views(decisions@), a, ActionKind::Travel);
                    lemma_offer_after(g, start, prefix, a);
                    assert(travel_new_row(g, from as int, ship, ci as int, si + 1) == travel_new_row(g, from as int, ship, ci as int, si as int)
                        + seq![a]);
                    assert(travel_existing(g, from as int, ship, n as int) + travel_new_block(g, from as int, ship, ci as int)
                        + travel_new_row(g, from as int, ship, ci as int, si + 1) =~= prefix + seq![a]);
                }
            } else {
                proof {
                    assert(travel_new_row(g, from as int, ship, ci as int, si + 1) =~= travel_new_row(g, from as int, ship, ci as int, si as int));
                    let stars = seq![Piece::make(color, size, None)];
                    reveal_with_fuel(crate::count::kind_count, 2);
                    assert(stars.drop_last() =~= Seq::<Piece>::empty());
                    assert(crate::validation::short_in_bank(g.turn.state.bank, stars, stars[0]));
                    assert(crate::validation::unavailable_from(g.turn.state.bank, stars, 0) is Some);
                }
            }
            si += 1;
        }
        proof {
            assert(travel_new_block(g, from as int, ship, ci + 1) == travel_new_block(g, from as int, ship, ci as int)
                + travel_new_row(g, from as int, ship, ci as int, 3));
            assert(travel_existing(g, from as int, ship, n as int) + travel_new_block(g, from as int, ship, ci + 1)
                =~= travel_existing(g, from as int, ship, n as int) + travel_new_block(g, from as int, ship, ci as int)
                + travel_new_row(g, from as int, ship, ci as int, 3));
        }
        ci += 1;
    }
    proof {
        let s = g.turn.state;
        assert forall|target: TargetView|
            travel_target_ok(s, SystemId(from), target)
                && #[trigger] accepts(g, ActionView::Travel { player, from: SystemId(from), ship, target })
            implies decision_views(decisions@).contains(DecisionView::Action(ActionView::Travel { player, from: SystemId(from), ship, target })) by {
            match target {
                TargetView::Existing(to) => {},
                TargetView::New(stars) => {
                    assert(stars =~= seq![Piece::make(stars[0].color, stars[0].size, None)]);
                },
            }
        }
    }
}

/// Every travel that the game takes, ship by ship, system by system.
fn push_travel_decisions(game: &Game, decisions: &mut Vec<AiDecision>)
    requires
        game@.wf(),
        game@.status == GameStatus::InProgress,
        well_listed(game@, decision_views(old(decisions)@), 2),
    ensures
        well_listed(game@, decision_views(final(decisions)@), 2),
        grows_by(decision_views(old(decisions)@), decision_views(final(decisions)@), ActionKind::Travel),
        forall|a: ActionView|
            a is Travel && is_candidate(game@, a) && #[trigger] accepts(game@, a)
                ==> decision_views(final(decisions)@).contains(DecisionView::Action(a)),
        decision_views(final(decisions)@) == offer_all(game@, decision_views(old(decisions)@), travel_candidates(game@)),
{
    if !paid_actions_allowed(game, ActionKind::Travel) {
        return;
    }
    let ghost g = game@;
    let ghost start = decision_views(decisions@);
    let player = game.turn().current_player();
    let state = game.turn().state();
    let systems = state.systems();
    let n = systems.len();
    let mut i: usize = 0;
    while i < n
        invariant
            g == game@,
            g.wf(),
            g.status == GameStatus::InProgress,
            paid_allowed(g, ActionKind::Travel),
            player == g.turn.player,
            state@ == g.turn.state,
            crate::game_state::system_views(systems@) == g.turn.state.systems,
            n == g.turn.state.systems.len(),
            0 <= i <= n,
            well_listed(g, decision_views(decisions@), 2),
            grows_by(start, decision_views(decisions@), ActionKind::Travel),
            forall|from: SystemId, k: int, target: TargetView|
                0 <= k < g.turn.state.system_at(from).ships.len() && from.0 < i
                    && g.turn.state.system_at(from).ships[k].owner == Some(player)
                    && travel_target_ok(g.turn.state, from, target)
                    && #[trigger] accepts(g, ActionView::Travel { player, from, ship: g.turn.state.system_at(from).ships[k], target })
                    ==> decision_views(decisions@).contains(DecisionView::Action(ActionView::Travel { player, from, ship: g.turn.state.system_at(from).ships[k], target })),
            decision_views(decisions@) == offer_all(g, start, travel_list(g, i as int)),
        decreases n - i,
    {
        let ships = systems[i].ships();
        assert(ships@ == g.turn.state.system_at(SystemId(i)).ships);
        let mut j: usize = 0;
        while j < ships.len()
            invariant
                g == game@,
                g.wf(),
                g.status == GameStatus::InProgress,
                paid_allowed(g, ActionKind::Travel),
                player == g.turn.player,
                state@ == g.turn.state,
                n == g.turn.state.systems.len(),
                0 <= i < n,
                ships@ == g.turn.state.system_at(SystemId(i)).ships,
                0 <= j <= ships@.len(),
                well_listed(g, decision_views(decisions@), 2),
                grows_by(start, decision_views(decisions@), ActionKind::Travel),
                forall|from: SystemId, k: int, target: TargetView|
                    0 <= k < g.turn.state.system_at(from).ships.len() && (from.0 < i || (from.0 == i && k < j))
                        && g.turn.state.system_at(from).ships[k].owner == Some(player)
                        && travel_target_ok(g.turn.state, from, target)
                        && #[trigger] accepts(g, ActionView::Travel { player, from, ship: g.turn.state.system_at(from).ships[k], target })
                        ==> decision_views(decisions@).contains(DecisionView::Action(ActionView::Travel { player, from, ship: g.turn.state.system_at(from).ships[k], target })),
                decision_views(decisions@) == offer_all(g, start, travel_list(g, i as int) + travel_ships(g, i as int, j as int)),
            decreases ships@.len() - j,
        {
            let ship = ships[j];
            let ghost prefix = travel_list(g, i as int) + travel_ships(g, i as int, j as int);
            proof {
                assert(ships_of(g, i as int) == ships@);
            }
            if ship.is_owned_by(player) {
                proof {
                    assert(ships@[j as int] == ship);
                    assert(g.turn.state.system_at(SystemId(i)).ships.contains(ship));
                }
                let ghost before = decision_views(decisions@);
                push_travel_from(game, decisions, i, ship);
                proof {
                    lemma_offer_all_append(g, start, prefix, travel_from(g, i as int, ship));
                    assert(travel_list(g, i as int) + travel_ships(g, i as int, j + 1) =~= prefix + travel_from(g, i as int, ship));
                    let after = decision_views(decisions@);
                    assert forall|x: DecisionView| start.contains(x) implies #[trigger] after.contains(x) by {
                        assert(before.contains(x));
                    }
                    assert forall|x: DecisionView| #[trigger] after.contains(x) implies start.contains(x) || (x matches DecisionView::Action(b) && b.kind() == ActionKind::Travel) by {
                        if !(x matches DecisionView::Action(b) && b.kind() == ActionKind::Travel) {
                            assert(before.contains(x));
                        }
                    }
                    assert forall|from: SystemId, k: int, target: TargetView|
                        0 <= k < g.turn.state.system_at(from).ships.len() && (from.0 < i || (from.0 == i && k < j + 1))
                            && g.turn.state.system_at(from).ships[k].owner == Some(player)
                            && travel_target_ok(g.turn.state, from, target)
                            && #[trigger] accepts(g, ActionView::Travel { player, from, ship: g.turn.state.system_at(from).ships[k], target })
                        implies after.contains(DecisionView::Action(ActionView::Travel { player, from, ship: g.turn.state.system_at(from).ships[k], target })) by {
                        if from.0 < i || k < j {
                            assert(before.contains(DecisionView::Action(ActionView::Travel { player, from, ship: g.turn.state.system_at(from).ships[k], target })));
                        } else {
                            assert(from == SystemId(i));
                        }
                    }
                }
            } else {
                proof {
                    assert(travel_list(g, i as int) + travel_ships(g, i as int, j + 1) =~= prefix);
                }
            }
            j += 1;
        }
        proof {
            assert(ships_of(g, i as int) == ships@);
            assert(travel_list(g, i + 1) == travel_list(g, i as int) + travel_ships(g, i as int, ships@.len() as int));
        }
        i += 1;
    }
    proof {
        assert forall|a: ActionView| a is Travel && is_candidate(g, a) && #[trigger] accepts(g, a)
            implies decision_views(decisions@).contains(DecisionView::Action(a)) by {
            if let ActionView::Travel { player: pl, from, ship, target } = a {
                let ships = g.turn.state.system_at(from).ships;
                let k = choose|k: int| 0 <= k < ships.len() && ships[k] == ship;
                assert(ships[k] == ship);
            }
        }
    }
}

/// Every trade of one ship that the game takes: to each other color of its
/// size that the bank holds.
fn push_trade_from(game: &Game, decisions: &mut Vec<AiDecision>, system: usize, from: Piece)
    requires
        game@.wf(),
        game@.status == GameStatus::InProgress,
        paid_allowed(game@, ActionKind::Trade),
        game@.turn.state.has_system(SystemId(system)),
        game@.turn.state.system_at(SystemId(system)).ships.contains(from),
        from.owner == Some(game@.turn.player),
        well_listed(game@, decision_views(old(decisions)@), 3),
    ensures
        well_listed(game@, decision_views(final(decisions)@), 3),
        grows_by(decision_views(old(decisions)@), decision_views(final(decisions)@), ActionKind::Trade),
        forall|c: Color|
            c != from.color
                && #[trigger] accepts(game@, ActionView::Trade { player: game@.turn.player, system: SystemId(system), from, to: Piece::make(c, from.size, Some(game@.turn.player)) })
                ==> decision_views(final(decisions)@).contains(DecisionView::Action(ActionView::Trade { player: game@.turn.player, system: SystemId(system), from, to: Piece::make(c, from.size, Some(game@.turn.player)) })),
        decision_views(final(decisions)@) == offer_all(game@, decision_views(old(decisions)@), trade_row(game@, system as int, from, 4)),
{
    let ghost g = game@;
    let ghost start = decision_views(decisions@);
    let player = game.turn().current_player();
    let state = game.turn().state();
    let mut ci: usize = 0;
    while ci < 4
        invariant
            g == game@,
            g.wf(),
            g.status == GameStatus::InProgress,
            paid_allowed(g, ActionKind::Trade),
            player == g.turn.player,
            state@ == g.turn.state,
            g.turn.state.has_system(SystemId(system)),
            g.turn.state.system_at(SystemId(system)).ships.contains(from),
            from.owner == Some(player),
            0 <= ci <= 4,
            well_listed(g, decision_views(decisions@), 3),
            grows_by(start, decision_views(decisions@), ActionKind::Trade),
            forall|c: Color|
                c != from.color && c.spec_index() < ci
                    && #[trigger] accepts(g, ActionView::Trade { player, system: SystemId(system), from, to: Piece::make(c, from.size, Some(player)) })
                    ==> decision_views(decisions@).contains(DecisionView::Action(ActionView::Trade { player, system: SystemId(system), from, to: Piece::make(c, from.size, Some(player)) })),
            decision_views(decisions@) == offer_all(g, start, trade_row(g, system as int, from, ci as int)),
        decreases 4 - ci,
    {
        let color = color_of_index(ci);
        let ghost prefix = trade_row(g, system as int, from, ci as int);
        if color != from.color() && state.bank().count(color, from.size()) != 0 {
            let action = Action::Trade { player, system: SystemId::new(system), from, to: Piece::owned(color, from.size(), player) };
            let ghost a = action@;
            let ghost before = decision_views(decisions@);
            push_if_legal(game, decisions, action);
            proof {
                lemma_grows_step(start, before, decision_views(decisions@), a, ActionKind::Trade);
                lemma_offer_after(g, start, prefix, a);
                assert(trade_row(g, system as int, from, ci + 1) =~= prefix + seq![a]);
            }
        } else {
            proof {
                assert(trade_row(g, system as int, from, ci + 1) =~= prefix);
            }
        }
        ci += 1;
    }
}

/// Every trade that the game takes, ship by ship, system by system.
fn push_trade_decisions(game: &Game, decisions: &mut Vec<AiDecision>)
    requires
        game@.wf(),
        game@.status == GameStatus::InProgress,
        well_listed(game@, decision_views(old(decisions)@), 3),
    ensures
        well_listed(game@, decision_views(final(decisions)@), 3),
        grows_by(decision_views(old(decisions)@), decision_views(final(decisions)@), ActionKind::Trade),
        forall|a: ActionView|
            a is Trade && is_candidate(game@, a) && #[trigger] accepts(game@, a)
                ==> decision_views(final(decisions)@).contains(DecisionView::Action(a)),
        decision_views(final(decisions)@) == offer_all(game@, decision_views(old(decisions)@), trade_candidates(game@)),
{
    if !paid_actions_allowed(game, ActionKind::Trade) {
        return;
    }
    let ghost g = game@;
    let ghost start = decision_views(decisions@);
    let player = game.turn().current_player();
    let state = game.turn().state();
    let systems = state.systems();
    let n = systems.len();
    let mut i: usize = 0;
    while i < n
        invariant
            g == game@,
            g.wf(),
            g.status == GameStatus::InProgress,
            paid_allowed(g, ActionKind::Trade),
            player == g.turn.player,
            state@ == g.turn.state,
            crate::game_state::system_views(systems@) == g.turn.state.systems,
            n == g.turn.state.systems.len(),
            0 <= i <= n,
            well_listed(g, decision_views(decisions@), 3),
            grows_by(start, decision_views(decisions@), ActionKind::Trade),
            forall|system: SystemId, k: int, c: Color|
                0 <= k < g.turn.state.system_at(system).ships.len() && system.0 < i
                    && g.turn.state.system_at(system).ships[k].owner == Some(player)
                    && c != g.turn.state.system_at(system).ships[k].color
                    && #[trigger] accepts(g, ActionView::Trade { player, system, from: g.turn.state.system_at(system).ships[k], to: Piece::make(c, g.turn.state.system_at(system).ships[k].size, Some(player)) })
                    ==> decision_views(decisions@).contains(DecisionView::Action(ActionView::Trade { player, system, from: g.turn.state.system_at(system).ships[k], to: Piece::make(c, g.turn.state.system_at(system).ships[k].size, Some(player)) })),
            decision_views(decisions@) == offer_all(g, start, trade_list(g, i as int)),
        decreases n - i,
    {
        let ships = systems[i].ships();
        assert(ships@ == g.turn.state.system_at(SystemId(i)).ships);
        let mut j: usize = 0;
        while j < ships.len()
            invariant
                g == game@,
                g.wf(),
                g.status == GameStatus::InProgress,
                paid_allowed(g, ActionKind::Trade),
                player == g.turn.player,
                state@ == g.turn.state,
                n == g.turn.state.systems.len(),
                0 <= i < n,
                ships@ == g.turn.state.system_at(SystemId(i)).ships,
                0 <= j <= ships@.len(),
                well_listed(g, decision_views(decisions@), 3),
                grows_by(start, decision_views(decisions@), ActionKind::Trade),
                forall|system: SystemId, k: int, c: Color|
                    0 <= k < g.turn.state.system_at(system).ships.len() && (system.0 < i || (system.0 == i && k < j))
                        && g.turn.state.system_at(system).ships[k].owner == Some(player)
                        && c != g.turn.state.system_at(system).ships[k].color
                        && #[trigger] accepts(g, ActionView::Trade { player, system, from: g.turn.state.system_at(system).ships[k], to: Piece::make(c, g.turn.state.system_at(system).ships[k].size, Some(player)) })
                        ==> decision_views(decisions@).contains(DecisionView::Action(ActionView::Trade { player, system, from: g.turn.state.system_at(system).ships[k], to: Piece::make(c, g.turn.state.system_at(system).ships[k].size, Some(player)) })),
                decision_views(decisions@) == offer_all(g, start, trade_list(g, i as int) + trade_ships(g, i as int, j as int)),
            decreases ships@.len() - j,
        {
            let ship = ships[j];
            let ghost prefix = trade_list(g, i as int) + trade_ships(g, i as int, j as int);
            proof {
                assert(ships_of(g, i as int) == ships@);
            }
            if ship.is_owned_by(player) {
                proof {
                    assert(ships@[j as int] == ship);
                    assert(g.turn.state.system_at(SystemId(i)).ships.contains(ship));
                }
                let ghost before = decision_views(decisions@);
                push_trade_from(game, decisions, i, ship);
                proof {
                    lemma_offer_all_append(g, start, prefix, trade_row(g, i as int, ship, 4));
                    assert(trade_list(g, i as int) + trade_ships(g, i as int, j + 1) =~= prefix + trade_row(g, i as int, ship, 4));
                    let after = decision_views(decisions@);
                    assert forall|x: DecisionView| start.contains(x) implies #[trigger] after.contains(x) by {
                        assert(before.contains(x));
                    }
                    assert forall|x: DecisionView| #[trigger] after.contains(x) implies start.contains(x) || (x matches DecisionView::Action(b) && b.kind() == ActionKind::Trade) by {
                        if !(x matches DecisionView::Action(b) && b.kind() == ActionKind::Trade) {
                            assert(before.contains(x));
                        }
                    }
                    assert forall|system: SystemId, k: int, c: Color|
                        0 <= k < g.turn.state.system_at(system).ships.len() && (system.0 < i || (system.0 == i && k < j + 1))
                            && g.turn.state.system_at(system).ships[k].owner == Some(player)
                            && c != g.turn.state.system_at(system).ships[k].color
                            && #[trigger] accepts(g, ActionView::Trade { player, system, from: g.turn.state.system_at(system).ships[k], to: Piece::make(c, g.turn.state.system_at(system).ships[k].size, Some(player)) })
                        implies after.contains(DecisionView::Action(ActionView::Trade { player, system, from: g.turn.state.system_at(system).ships[k], to: Piece::make(c, g.turn.state.system_at(system).ships[k].size, Some(player)) })) by {
                        if system.0 < i || k < j {
                            assert(before.contains(DecisionView::Action(ActionView::Trade { player, system, from: g.turn.state.system_at(system).ships[k], to: Piece::make(c, g.turn.state.system_at(system).ships[k].size, Some(player)) })));
                        } else {
                            assert(system == SystemId(i));
                        }
                    }
                }
            } else {
                proof {
                    assert(trade_list(g, i as int) + trade_ships(g, i as int, j + 1) =~= prefix);
                }
            }
            j += 1;
        }
        proof {
            assert(ships_of(g, i as int) == ships@);
            assert(trade_list(g, i + 1) == trade_list(g, i as int) + trade_ships(g, i as int, ships@.len() as int));
        }
        i += 1;
    }
    proof {
        assert forall|a: ActionView| a is Trade && is_candidate(g, a) && #[trigger] accepts(g, a)
            implies decision_views(decisions@).contains(DecisionView::Action(a)) by {
            if let ActionView::Trade { player: pl, system, from, to } = a {
                let ships = g.turn.state.system_at(system).ships;
                let k = choose|k: int| 0 <= k < ships.len() && ships[k] == from;
                assert(ships[k] == from);
                assert(to == Piece::make(to.color, from.size, Some(player)));
            }
        }
    }
}

/// Every sacrifice that the game takes, ship by ship, system by system.
fn push_sacrifice_decisions(game: &Game, decisions: &mut Vec<AiDecision>)
    requires
        game@.wf(),
        game@.status == GameStatus::InProgress,
        well_listed(game@, decision_views(old(decisions)@), 4),
    ensures
        well_listed(game@, decision_views(final(decisions)@), 4),
        grows_by(decision_views(old(decisions)@), decision_views(final(decisions)@), ActionKind::Sacrifice),
        forall|a: ActionView|
            a is Sacrifice && is_candidate(game@, a) && #[trigger] accepts(game@, a)
                ==> decision_views(final(decisions)@).contains(DecisionView::Action(a)),
        decision_views(final(decisions)@) == offer_all(game@, decision_views(old(decisions)@), sacrifice_candidates(game@)),
{
    if !paid_actions_allowed(game, ActionKind::Sacrifice) {
        return;
    }
    let ghost g = game@;
    let ghost start = decision_views(decisions@);
    let player = game.turn().current_player();
    let state = game.turn().state();
    let systems = state.systems();
    let n = systems.len();
    let mut i: usize = 0;
    while i < n
        invariant
            g == game@,
            g.wf(),
            g.status == GameStatus::InProgress,
            paid_allowed(g, ActionKind::Sacrifice),
            player == g.turn.player,
            state@ == g.turn.state,
            crate::game_state::system_views(systems@) == g.turn.state.systems,
            n == g.turn.state.systems.len(),
            0 <= i <= n,
            well_listed(g, decision_views(decisions@), 4),
            grows_by(start, decision_views(decisions@), ActionKind::Sacrifice),
            forall|system: SystemId, k: int|
                0 <= k < g.turn.state.system_at(system).ships.len() && system.0 < i
                    && g.turn.state.system_at(system).ships[k].owner == Some(player)
                    && #[trigger] accepts(g, ActionView::Sacrifice { player, system, ship: g.turn.state.system_at(system).ships[k] })
                    ==> decision_views(decisions@).contains(DecisionView::Action(ActionView::Sacrifice { player, system, ship: g.turn.state.system_at(system).ships[k] })),
            decision_views(decisions@) == offer_all(g, start, sacrifice_list(g, i as int)),
        decreases n - i,
    {
        let ships = systems[i].ships();
        assert(ships@ == g.turn.state.system_at(SystemId(i)).ships);
        let mut j: usize = 0;
        while j < ships.len()
            invariant
                g == game@,
                g.wf(),
                g.status == GameStatus::InProgress,
                paid_allowed(g, ActionKind::Sacrifice),
                player == g.turn.player,
                state@ == g.turn.state,
                n == g.turn.state.systems.len(),
                0 <= i < n,
                ships@ == g.turn.state.system_at(SystemId(i)).ships,
                0 <= j <= ships@.len(),
                well_listed(g, decision_views(decisions@), 4),
                grows_by(start, decision_views(decisions@), ActionKind::Sacrifice),
                forall|system: SystemId, k: int|
                    0 <= k < g.turn.state.system_at(system).ships.len() && (system.0 < i || (system.0 == i && k < j))
                        && g.turn.state.system_at(system).ships[k].owner == Some(player)
                        && #[trigger] accepts(g, ActionView::Sacrifice { player, system, ship: g.turn.state.system_at(system).ships[k] })
                        ==> decision_views(decisions@).contains(DecisionView::Action(ActionView::Sacrifice { player, system, ship: g.turn.state.system_at(system).ships[k] })),
                decision_views(decisions@) == offer_all(g, start, sacrifice_list(g, i as int) + sacrifice_ships(g, i as int, j as int)),
            decreases ships@.len() - j,
        {
            let ship = ships[j];
            let ghost prefix = sacrifice_list(g, i as int) + sacrifice_ships(g, i as int, j as int);
            proof {
                assert(ships_of(g, i as int) == ships@);
            }
            if ship.is_owned_by(player) {
                proof {
                    assert(ships@[j as int] == ship);
                    assert(g.turn.state.system_at(SystemId(i)).ships.contains(ship));
                }
                let action = Action::Sacrifice { player, system: SystemId::new(i), ship: ship };
                let ghost a = action@;
                let ghost before = decision_views(decisions@);
                push_if_legal(game, decisions, action);
                proof {
                    lemma_grows_step(start, before, decision_views(decisions@), a, ActionKind::Sacrifice);
                    lemma_offer_after(g, start, prefix, a);
                    assert(sacrifice_list(g, i as int) + sacrifice_ships(g, i as int, j + 1) =~= prefix + seq![a]);
                }
            } else {
                proof {
                    assert(sacrifice_list(g, i as int) + sacrifice_ships(g, i as int, j + 1) =~= prefix);
                }
            }
            j += 1;
        }
        proof {
            assert(ships_of(g, i as int) == ships@);
            assert(sacrifice_list(g, i + 1) == sacrifice_list(g, i as int) + sacrifice_ships(g, i as int, ships@.len() as int));
        }
        i += 1;
    }
    proof {
        assert forall|a: ActionView| a is Sacrifice && is_candidate(g, a) && #[trigger] accepts(g, a)
            implies decision_views(decisions@).contains(DecisionView::Action(a)) by {
            if let ActionView::Sacrifice { player: pl, system, ship } = a {
                let ships = g.turn.state.system_at(system).ships;
                let k = choose|k: int| 0 <= k < ships.len() && ships[k] == ship;
                assert(ships[k] == ship);
            }
        }
    }
}

/// Every invasion that the game takes, ship by ship, system by system.
fn push_invade_decisions(game: &Game, decisions: &mut Vec<AiDecision>)
    requires
        game@.wf(),
        game@.status == GameStatus::InProgress,
        well_listed(game@, decision_views(old(decisions)@), 5),
    ensures
        well_listed(game@, decision_views(final(decisions)@), 5),
        grows_by(decision_views(old(decisions)@), decision_views(final(decisions)@), ActionKind::Invade),
        forall|a: ActionView|
            a is Invade && is_candidate(game@, a) && #[trigger] accepts(game@, a)
                ==> decision_views(final(decisions)@).contains(DecisionView::Action(a)),
        decision_views(final(decisions)@) == offer_all(game@, decision_views(old(decisions)@), invade_candidates(game@)),
{
    if !paid_actions_allowed(game, ActionKind::Invade) {
        return;
    }
    let ghost g = game@;
    let ghost start = decision_views(decisions@);
    let player = game.turn().current_player();
    let state = game.turn().state();
    let systems = state.systems();
    let n = systems.len();
    let mut i: usize = 0;
    while i < n
        invariant
            g == game@,
            g.wf(),
            g.status == GameStatus::InProgress,
            paid_allowed(g, ActionKind::Invade),
            player == g.turn.player,
            state@ == g.turn.state,
            crate::game_state::system_views(systems@) == g.turn.state.systems,
            n == g.turn.state.systems.len(),
            0 <= i <= n,
            well_listed(g, decision_views(decisions@), 5),
            grows_by(start, decision_views(decisions@), ActionKind::Invade),
            forall|system: SystemId, k: int|
                0 <= k < g.turn.state.system_at(system).ships.len() && system.0 < i
                    && g.turn.state.system_at(system).ships[k].owner is Some && g.turn.state.system_at(system).ships[k].owner != Some(player)
                    && #[trigger] accepts(g, ActionView::Invade { player, system, target: g.turn.state.system_at(system).ships[k] })
                    ==> decision_views(decisions@).contains(DecisionView::Action(ActionView::Invade { player, system, target: g.turn.state.system_at(system).ships[k] })),
            decision_views(decisions@) == offer_all(g, start, invade_list(g, i as int)),
        decreases n - i,
    {
        let ships = systems[i].ships();
        assert(ships@ == g.turn.state.system_at(SystemId(i)).ships);
        let mut j: usize = 0;
        while j < ships.len()
            invariant
                g == game@,
                g.wf(),
                g.status == GameStatus::InProgress,
                paid_allowed(g, ActionKind::Invade),
                player == g.turn.player,
                state@ == g.turn.state,
                n == g.turn.state.systems.len(),
                0 <= i < n,
                ships@ == g.turn.state.system_at(SystemId(i)).ships,
                0 <= j <= ships@.len(),
                well_listed(g, decision_views(decisions@), 5),
                grows_by(start, decision_views(decisions@), ActionKind::Invade),
                forall|system: SystemId, k: int|
                    0 <= k < g.turn.state.system_at(system).ships.len() && (system.0 < i || (system.0 == i && k < j))
                        && g.turn.state.system_at(system).ships[k].owner is Some && g.turn.state.system_at(system).ships[k].owner != Some(player)
                        && #[trigger] accepts(g, ActionView::Invade { player, system, target: g.turn.state.system_at(system).ships[k] })
                        ==> decision_views(decisions@).contains(DecisionView::Action(ActionView::Invade { player, system, target: g.turn.state.system_at(system).ships[k] })),
                decision_views(decisions@) == offer_all(g, start, invade_list(g, i as int) + invade_ships(g, i as int, j as int)),
            decreases ships@.len() - j,
        {
            let ship = ships[j];
            let ghost prefix = invade_list(g, i as int) + invade_ships(g, i as int, j as int);
            proof {
                assert(ships_of(g, i as int) == ships@);
            }
            if ship.is_owned() && !ship.is_owned_by(player) {
                proof {
                    assert(ships@[j as int] == ship);
                    assert(g.turn.state.system_at(SystemId(i)).ships.contains(ship));
                }
                let action = Action::Invade { player, system: SystemId::new(i), target: ship };
                let ghost a = action@;
                let ghost before = decision_views(decisions@);
                push_if_legal(game, decisions, action);
                proof {
                    lemma_grows_step(start, before, decision_views(decisions@), a, ActionKind::Invade);
                    lemma_offer_after(g, start, prefix, a);
                    assert(invade_list(g, i as int) + invade_ships(g, i as int, j + 1) =~= prefix + seq![a]);
                }
            } else {
                proof {
                    assert(invade_list(g, i as int) + invade_ships(g, i as int, j + 1) =~= prefix);
                }
            }
            j += 1;
        }
        proof {
            assert(ships_of(g, i as int) == ships@);
            assert(invade_list(g, i + 1) == invade_list(g, i as int) + invade_ships(g, i as int, ships@.len() as int));
        }
        i += 1;
    }
    proof {
        assert forall|a: ActionView| a is Invade && is_candidate(g, a) && #[trigger] accepts(g, a)
            implies decision_views(decisions@).contains(DecisionView::Action(a)) by {
            if let ActionView::Invade { player: pl, system, target } = a {
                let ships = g.turn.state.system_at(system).ships;
                let k = choose|k: int| 0 <= k < ships.len() && ships[k] == target;
                assert(ships[k] == target);
            }
        }
    }
}

/// Whether `ds` lists exactly the legal decisions of the game: each once,
/// ending the turn first, then builds, travels, trades, sacrifices,
/// invasions and catastrophes.
pub open spec fn lists_legal_decisions(g: GameView, ds: Seq<DecisionView>) -> bool {
    &&& well_listed(g, ds, 6)
    &&& forall|d: DecisionView| #[trigger] is_legal(g, d) ==> ds.contains(d)
}

/// The decisions open to the current player of a game in progress: ending the
/// turn when it may end, then every candidate action that the game accepts,
/// each once, family by family; none once the game is over.
pub fn legal_decisions(game: &Game) -> (decisions: Vec<AiDecision>)
    requires
        game@.wf(),
    ensures
        game@.status != GameStatus::InProgress ==> decisions@.len() == 0,
        game@.status == GameStatus::InProgress ==> lists_legal_decisions(game@, decision_views(decisions@)),
        game@.status == GameStatus::InProgress ==> decision_views(decisions@) == listing(game@),
        decision_views(decisions@).no_duplicates(),
{
    let mut decisions: Vec<AiDecision> = Vec::new();
    if game.status() != GameStatus::InProgress {
        return decisions;
    }
    let ghost g = game@;
    proof {
        crate::listing::lemma_listing_distinct(g);
    }
    push_end_turn_decision(game, &mut decisions);
    let ghost v0 = decision_views(decisions@);
    push_build_decisions(game, &mut decisions);
    let ghost v1 = decision_views(decisions@);
    push_travel_decisions(game, &mut decisions);
    let ghost v2 = decision_views(decisions@);
    push_trade_decisions(game, &mut decisions);
    let ghost v3 = decision_views(decisions@);
    push_sacrifice_decisions(game, &mut decisions);
    let ghost v4 = decision_views(decisions@);
    push_invade_decisions(game, &mut decisions);
    let ghost v5 = decision_views(decisions@);
    push_catastrophe_decisions(game, &mut decisions);
    let ghost v6 = decision_views(decisions@);
    proof {
        assert forall|d: DecisionView| #[trigger] is_legal(g, d) implies v6.contains(d) by {
            match d {
                DecisionView::EndTurn => {
                    assert(v0[0] == d);
                    assert(v0.contains(d));
                    assert(v1.contains(d));
                    assert(v2.contains(d));
                    assert(v3.contains(d));
                    assert(v4.contains(d));
                    assert(v5.contains(d));
                },
                DecisionView::Action(a) => {
                    match a {
                        ActionView::Build { player, system, ship } => {
                            assert(ship == Piece::make(ship.color, ship.size, Some(g.turn.player)));
                            assert(v1.contains(d));
                            assert(v2.contains(d));
                            assert(v3.contains(d));
                            assert(v4.contains(d));
                            assert(v5.contains(d));
                        },
                        ActionView::Travel { .. } => {
                            assert(v2.contains(d));
                            assert(v3.contains(d));
                            assert(v4.contains(d));
                            assert(v5.contains(d));
                        },
                        ActionView::Trade { .. } => {
                            assert(v3.contains(d));
                            assert(v4.contains(d));
                            assert(v5.contains(d));
                        },
                        ActionView::Sacrifice { .. } => {
                            assert(v4.contains(d));
                            assert(v5.contains(d));
                        },
                        ActionView::Invade { .. } => {
                            assert(v5.contains(d));
                        },
                        ActionView::Catastrophe { system, color } => {
                            assert(accepts(g, ActionView::Catastrophe { system, color }));
                        },
                    }
                },
            }
        }
    }
    decisions
}

/// The systems and homeworlds after a legal action; the bank is left as it
/// was, since who has lost does not depend on it.
pub open spec fn board_after(s: StateView, a: ActionView) -> StateView {
    let staged = staged_systems(s, a);
    match prune_rule(a) {
        None => StateView { systems: staged, home_one: s.home_one, home_two: s.home_two, bank: s.bank },
        Some(rule) => StateView {
            systems: pruned(staged, s.home_one, s.home_two, rule),
            home_one: remap(staged, s.home_one, s.home_two, rule, s.home_one),
            home_two: remap(staged, s.home_one, s.home_two, rule, s.home_two),
            bank: s.bank,
        },
    }
}

/// Whether the turn may end right after the (legal) action.
pub open spec fn can_end_after(t: TurnView, a: ActionView) -> bool {
    match a {
        ActionView::Catastrophe { .. } => t.can_end(),
        ActionView::Sacrifice { .. } => true,
        _ => t.remaining == 1 || t.required is Some,
    }
}

/// The status that the decision leads to, ending the turn after an action
/// when the turn may then end; `None` when the game refuses the decision.
pub open spec fn status_after(g: GameView, d: DecisionView) -> Option<GameStatus> {
    match d {
        DecisionView::EndTurn => if g.status == GameStatus::InProgress && g.turn.can_end() {
            Some(status_of(g.turn.state))
        } else {
            None
        },
        DecisionView::Action(a) => if accepts(g, a) {
            if can_end_after(g.turn, a) {
                Some(status_of(board_after(g.turn.state, a)))
            } else {
                Some(GameStatus::InProgress)
            }
        } else {
            None
        },
    }
}

/// Whether the decision wins the game for the current player at once.
pub open spec fn wins_at_once(g: GameView, d: DecisionView) -> bool {
    status_after(g, d) == Some(GameStatus::Finished(GameOutcome::Winner(g.turn.player)))
}

/// Whether the decision ends the game at once without a win for the current
/// player: a loss or a draw.
pub open spec fn fails_at_once(g: GameView, d: DecisionView) -> bool {
    status_after(g, d) matches Some(GameStatus::Finished(outcome)) && outcome != GameOutcome::Winner(g.turn.player)
}

fn is_winning_status(status: GameStatus, player: Player) -> (wins: bool)
    ensures
        wins == (status == GameStatus::Finished(GameOutcome::Winner(player))),
{
    match status {
        GameStatus::Finished(GameOutcome::Winner(winner)) => winner == player,
        _ => false,
    }
}

fn is_terminal_non_win(status: GameStatus, player: Player) -> (fails: bool)
    ensures
        fails == (status matches GameStatus::Finished(outcome) && outcome != GameOutcome::Winner(player)),
{
    match status {
        GameStatus::InProgress => false,
        GameStatus::Finished(GameOutcome::Winner(winner)) => winner != player,
        GameStatus::Finished(GameOutcome::Draw) => true,
    }
}

/// The status that the decision leads to, if the game takes it.
fn status_after_decision(game: &Game, decision: &AiDecision) -> (status: Option<GameStatus>)
    requires
        game@.wf(),
    ensures
        status == status_after(game@, decision@),
{
    match decision {
        AiDecision::Action(action) => match game.apply_action(action) {
            Ok(next) => {
                proof {
                    assert(accepts(game@, action@));
                    assert(next@.turn.state.systems == board_after(game@.turn.state, action@).systems);
                }
                match next.end_turn() {
                    Ok(ended) => Some(ended.status()),
                    Err(_) => Some(next.status()),
                }
            },
            Err(_) => None,
        },
        AiDecision::EndTurn => match game.end_turn() {
            Ok(next) => Some(next.status()),
            Err(_) => None,
        },
    }
}

/// Whether the decision wins the game for the current player at once, or
/// after ending the turn that it leaves.
pub fn is_immediate_win(game: &Game, decision: &AiDecision) -> (wins: bool)
    requires
        game@.wf(),
    ensures
        wins == wins_at_once(game@, decision@),
{
    let player = game.turn().current_player();
    match status_after_decision(game, decision) {
        Some(status) => is_winning_status(status, player),
        None => false,
    }
}

/// Whether the decision loses or draws the game for the current player at
/// once, or after ending the turn that it leaves.
pub fn is_immediate_non_win(game: &Game, decision: &AiDecision) -> (fails: bool)
    requires
        game@.wf(),
    ensures
        fails == fails_at_once(game@, decision@),
{
    let player = game.turn().current_player();
    match status_after_decision(game, decision) {
        Some(status) => is_terminal_non_win(status, player),
        None => false,
    }
}

impl AiDecision {
    /// A copy of the decision.
    pub fn duplicate(&self) -> (copy: AiDecision)
        ensures
            copy@ == self@,
    {
        match self {
            AiDecision::Action(action) => AiDecision::Action(action.duplicate()),
            AiDecision::EndTurn => AiDecision::EndTurn,
        }
    }
}

/// A decision that the AI may take: legal, and not ending the game at once
/// in a loss or a draw for the current player.
pub open spec fn playable(g: GameView, d: DecisionView) -> bool {
    is_legal(g, d) && !fails_at_once(g, d)
}

/// The legal decisions that do not fail at once, in listing order.
fn playable_decisions(game: &Game) -> (playable_list: Vec<AiDecision>)
    requires
        game@.wf(),
        game@.status == GameStatus::InProgress,
    ensures
        forall|i: int| 0 <= i < playable_list@.len() ==> playable(game@, #[trigger] decision_views(playable_list@)[i]),
        forall|i: int, j: int| 0 <= i < j < playable_list@.len()
            ==> family_rank(#[trigger] decision_views(playable_list@)[i]) <= family_rank(#[trigger] decision_views(playable_list@)[j]),
        forall|d: DecisionView| #[trigger] playable(game@, d) ==> decision_views(playable_list@).contains(d),
        decision_views(playable_list@) == playable_listing(game@),
{
    let ghost g = game@;
    let all = legal_decisions(game);
    let ghost ds = decision_views(all@);
    let mut kept: Vec<AiDecision> = Vec::new();
    let mut i: usize = 0;
    while i < all.len()
        invariant
            g == game@,
            g.wf(),
            ds == decision_views(all@),
            lists_legal_decisions(g, ds),
            0 <= i <= all@.len(),
            forall|k: int| 0 <= k < kept@.len() ==> playable(g, #[trigger] decision_views(kept@)[k]),
            forall|k: int| 0 <= k < kept@.len() ==> exists|m: int| 0 <= m < i && ds[m] == #[trigger] decision_views(kept@)[k],
            forall|k: int, l: int| 0 <= k < l < kept@.len()
                ==> family_rank(#[trigger] decision_views(kept@)[k]) <= family_rank(#[trigger] decision_views(kept@)[l]),
            forall|m: int| 0 <= m < i && !fails_at_once(g, #[trigger] ds[m]) ==> decision_views(kept@).contains(ds[m]),
            ds == listing(g),
            decision_views(kept@) == ds.take(i as int).filter(|d: DecisionView| !fails_at_once(g, d)),
        decreases all@.len() - i,
    {
        let ghost before = decision_views(kept@);
        proof {
            reveal(Seq::filter);
            assert(ds.take(i + 1).drop_last() =~= ds.take(i as int));
            assert(ds.take(i + 1).last() == ds[i as int]);
        }
        if !is_immediate_non_win(game, &all[i]) {
            let d = all[i].duplicate();
            kept.push(d);
            proof {
                let after = decision_views(kept@);
                assert(after =~= before.push(ds[i as int]));
                assert forall|k: int| 0 <= k < after.len() implies exists|m: int| 0 <= m < i + 1 && ds[m] == #[trigger] after[k] by {
                    if k < before.len() {
                        let m = choose|m: int| 0 <= m < i && ds[m] == before[k];
                        assert(ds[m] == after[k]);
                    } else {
                        assert(ds[i as int] == after[k]);
                    }
                }
                assert forall|k: int, l: int| 0 <= k < l < after.len()
                    implies family_rank(#[trigger] after[k]) <= family_rank(#[trigger] after[l]) by {
                    if l == before.len() {
                        let m = choose|m: int| 0 <= m < i && ds[m] == before[k];
                        assert(ds[m] == after[k]);
                    }
                }
                assert forall|m: int| 0 <= m < i + 1 && !fails_at_once(g, #[trigger] ds[m]) implies after.contains(ds[m]) by {
                    if m == i {
                        assert(after[before.len() as int] == ds[m]);
                    } else {
                        assert(before.contains(ds[m]));
                    }
                }
            }
        }
        i += 1;
    }
    proof {
        assert(ds.take(all@.len() as int) =~= ds);
        assert forall|d: DecisionView| #[trigger] playable(g, d) implies decision_views(kept@).contains(d) by {
            assert(is_legal(g, d));
            let m = choose|m: int| 0 <= m < ds.len() && ds[m] == d;
            assert(ds[m] == d);
        }
    }
    kept
}

/// The first decision of the list, from its start, that is no immediate
/// loss or draw.
fn first_playable_index(game: &Game, decisions: &Vec<AiDecision>) -> (found: Option<usize>)
    requires
        game@.wf(),
    ensures
        match found {
            Some(i) => i < decisions@.len() && !fails_at_once(game@, decision_views(decisions@)[i as int])
                && forall|j: int| 0 <= j < i ==> fails_at_once(game@, #[trigger] decision_views(decisions@)[j]),
            None => forall|j: int| 0 <= j < decisions@.len() ==> fails_at_once(game@, #[trigger] decision_views(decisions@)[j]),
        },
{
    let mut i: usize = 0;
    while i < decisions.len()
        invariant
            game@.wf(),
            0 <= i <= decisions@.len(),
            forall|j: int| 0 <= j < i ==> fails_at_once(game@, #[trigger] decision_views(decisions@)[j]),
        decreases decisions@.len() - i,
    {
        if !is_immediate_non_win(game, &decisions[i]) {
            return Some(i);
        }
        i += 1;
    }
    None
}

/// The first decision of a list that satisfies the test, if any.
pub open spec fn first_where(ds: Seq<DecisionView>, test: spec_fn(DecisionView) -> bool) -> Option<DecisionView>
    decreases ds.len(),
{
    if ds.len() == 0 {
        None
    } else if test(ds[0]) {
        Some(ds[0])
    } else {
        first_where(ds.drop_first(), test)
    }
}

proof fn lemma_first_where_at(ds: Seq<DecisionView>, test: spec_fn(DecisionView) -> bool, i: int)
    requires
        0 <= i < ds.len(),
        test(ds[i]),
        forall|j: int| 0 <= j < i ==> !test(#[trigger] ds[j]),
    ensures
        first_where(ds, test) == Some(ds[i]),
    decreases i,
{
    if i > 0 {
        assert(!test(ds[0]));
        assert forall|j: int| 0 <= j < i - 1 implies !test(#[trigger] ds.drop_first()[j]) by {
            assert(ds.drop_first()[j] == ds[j + 1]);
        }
        lemma_first_where_at(ds.drop_first(), test, i - 1);
    }
}

proof fn lemma_first_where_none(ds: Seq<DecisionView>, test: spec_fn(DecisionView) -> bool)
    requires
        forall|j: int| 0 <= j < ds.len() ==> !test(#[trigger] ds[j]),
    ensures
        first_where(ds, test) is None,
    decreases ds.len(),
{
    if ds.len() > 0 {
        assert(!test(ds[0]));
        assert forall|j: int| 0 <= j < ds.len() - 1 implies !test(#[trigger] ds.drop_first()[j]) by {
            assert(ds.drop_first()[j] == ds[j + 1]);
        }
        lemma_first_where_none(ds.drop_first(), test);
    }
}

/// The legal decisions, in the AI's order, that do not lose or draw at once.
pub open spec fn playable_listing(g: GameView) -> Seq<DecisionView> {
    listing(g).filter(|d: DecisionView| !fails_at_once(g, d))
}

/// A decision that no other playable decision precedes in family order.
pub open spec fn earliest_playable(g: GameView, d: DecisionView) -> bool {
    &&& playable(g, d)
    &&& forall|e: DecisionView| #[trigger] playable(g, e) ==> family_rank(d) <= family_rank(e)
}

/// What the first-legal strategy picks: the earliest playable decision, or
/// nothing when every legal decision loses or draws at once.
pub open spec fn first_legal_choice(g: GameView, r: Option<DecisionView>) -> bool {
    if g.status != GameStatus::InProgress {
        r is None
    } else {
        match r {
            Some(d) => earliest_playable(g, d),
            None => forall|e: DecisionView| !(#[trigger] playable(g, e)),
        }
    }
}

/// The view of an optional decision.
pub open spec fn option_view(d: Option<AiDecision>) -> Option<DecisionView> {
    match d {
        Some(x) => Some(x@),
        None => None,
    }
}

/// A way of picking the next decision of a game.
pub trait Strategy {
    fn choose_decision(&self, game: &Game) -> (decision: Option<AiDecision>)
        requires
            game@.wf(),
    ;
}

/// Takes the first legal decision that does not lose or draw at once.
#[derive(Clone, Copy, Debug, Default, PartialEq, Eq)]
pub struct FirstLegalStrategy;

impl Strategy for FirstLegalStrategy {
    fn choose_decision(&self, game: &Game) -> (decision: Option<AiDecision>)
        ensures
            first_legal_choice(game@, option_view(decision)),
            game@.status == GameStatus::InProgress ==> option_view(decision) == first_where(
                listing(game@),
                |d: DecisionView| !fails_at_once(game@, d),
            ),
    {
        if game.status() != GameStatus::InProgress {
            return None;
        }
        let ghost g = game@;
        let all = legal_decisions(game);
        let ghost ds = decision_views(all@);
        match first_playable_index(game, &all) {
            Some(i) => {
                let d = all[i].duplicate();
                proof {
                    assert(d@ == ds[i as int]);
                    lemma_first_where_at(ds, |x: DecisionView| !fails_at_once(g, x), i as int);
                    assert forall|e: DecisionView| #[trigger] playable(g, e) implies family_rank(d@) <= family_rank(e) by {
                        let k = choose|k: int| 0 <= k < ds.len() && ds[k] == e;
                        assert(ds[k] == e);
                        if k < i {
                            assert(fails_at_once(g, ds[k]));
                        } else if k > i {
                            assert(family_rank(ds[i as int]) <= family_rank(ds[k]));
                        }
                    }
                }
                Some(d)
            },
            None => {
                proof {
                    lemma_first_where_none(ds, |x: DecisionView| !fails_at_once(g, x));
                    assert forall|e: DecisionView| !(#[trigger] playable(g, e)) by {
                        if playable(g, e) {
                            let k = choose|k: int| 0 <= k < ds.len() && ds[k] == e;
                            assert(fails_at_once(g, ds[k]));
                        }
                    }
                }
                None
            },
        }
    }
}

/// Whether the decision is a catastrophe.
pub open spec fn is_catastrophe_view(d: DecisionView) -> bool {
    d matches DecisionView::Action(a) && a is Catastrophe
}

/// Whether the decision is an action that spends the turn's budget.
pub open spec fn is_paid_view(d: DecisionView) -> bool {
    d matches DecisionView::Action(a) && !(a is Catastrophe)
}

/// What the priority strategy picks among playable decisions: a win at once,
/// else a catastrophe, else a paid action of the earliest family, else ending
/// the turn; nothing when no decision is playable.
pub open spec fn priority_choice(g: GameView, r: Option<DecisionView>) -> bool {
    if g.status != GameStatus::InProgress {
        r is None
    } else if exists|d: DecisionView| #[trigger] playable(g, d) && wins_at_once(g, d) {
        &&& r matches Some(d) && playable(g, d) && wins_at_once(g, d)
        &&& forall|e: DecisionView| #[trigger] playable(g, e) && wins_at_once(g, e) ==> family_rank(r->0) <= family_rank(e)
    } else if exists|d: DecisionView| #[trigger] playable(g, d) && is_catastrophe_view(d) {
        r matches Some(d) && playable(g, d) && is_catastrophe_view(d)
    } else if exists|d: DecisionView| #[trigger] playable(g, d) && is_paid_view(d) {
        &&& r matches Some(d) && playable(g, d) && is_paid_view(d)
        &&& forall|e: DecisionView| #[trigger] playable(g, e) && is_paid_view(e) ==> family_rank(r->0) <= family_rank(e)
    } else if playable(g, DecisionView::EndTurn) {
        r == Some(DecisionView::EndTurn)
    } else {
        r is None
    }
}

/// What the priority strategy picks, in the AI's order: the first playable
/// win at once, else the first playable catastrophe, else the first playable
/// paid action, else ending the turn if playable.
pub open spec fn priority_pick(g: GameView) -> Option<DecisionView> {
    let ps = playable_listing(g);
    match first_where(ps, |d: DecisionView| wins_at_once(g, d)) {
        Some(d) => Some(d),
        None => match first_where(ps, |d: DecisionView| is_catastrophe_view(d)) {
            Some(d) => Some(d),
            None => match first_where(ps, |d: DecisionView| is_paid_view(d)) {
                Some(d) => Some(d),
                None => first_where(ps, |d: DecisionView| d is EndTurn),
            },
        },
    }
}

/// Which test a decision is searched by.
enum DecisionClass {
    Win,
    Catastrophe,
    Paid,
    EndTurn,
}

spec fn in_class(g: GameView, d: DecisionView, class: DecisionClass) -> bool {
    match class {
        DecisionClass::Win => wins_at_once(g, d),
        DecisionClass::Catastrophe => is_catastrophe_view(d),
        DecisionClass::Paid => is_paid_view(d),
        DecisionClass::EndTurn => d is EndTurn,
    }
}

fn decision_in_class(game: &Game, decision: &AiDecision, class: &DecisionClass) -> (b: bool)
    requires
        game@.wf(),
    ensures
        b == in_class(game@, decision@, *class),
{
    match class {
        DecisionClass::Win => is_immediate_win(game, decision),
        DecisionClass::Catastrophe => match decision {
            AiDecision::Action(Action::Catastrophe { .. }) => true,
            _ => false,
        },
        DecisionClass::Paid => match decision {
            AiDecision::Action(action) => action.kind() != ActionKind::Catastrophe,
            AiDecision::EndTurn => false,
        },
        DecisionClass::EndTurn => match decision {
            AiDecision::EndTurn => true,
            _ => false,
        },
    }
}

/// The first decision of the list in the class.
fn first_matching(game: &Game, decisions: &Vec<AiDecision>, class: DecisionClass) -> (found: Option<usize>)
    requires
        game@.wf(),
    ensures
        match found {
            Some(i) => i < decisions@.len() && in_class(game@, decision_views(decisions@)[i as int], class)
                && forall|j: int| 0 <= j < i ==> !in_class(game@, #[trigger] decision_views(decisions@)[j], class),
            None => forall|j: int| 0 <= j < decisions@.len() ==> !in_class(game@, #[trigger] decision_views(decisions@)[j], class),
        },
{
    let mut i: usize = 0;
    while i < decisions.len()
        invariant
            game@.wf(),
            0 <= i <= decisions@.len(),
            forall|j: int| 0 <= j < i ==> !in_class(game@, #[trigger] decision_views(decisions@)[j], class),
        decreases decisions@.len() - i,
    {
        if decision_in_class(game, &decisions[i], &class) {
            return Some(i);
        }
        i += 1;
    }
    None
}

/// Prefers a win at once, then a catastrophe, then a paid action, then ending
/// the turn, and never takes a decision that loses or draws at once.
#[derive(Clone, Copy, Debug, Default, PartialEq, Eq)]
pub struct PriorityStrategy;

impl Strategy for PriorityStrategy {
    fn choose_decision(&self, game: &Game) -> (decision: Option<AiDecision>)
        ensures
            priority_choice(game@, option_view(decision)),
            game@.status == GameStatus::InProgress ==> option_view(decision) == priority_pick(game@),
    {
        if game.status() != GameStatus::InProgress {
            return None;
        }
        let ghost g = game@;
        let list = playable_decisions(game);
        let ghost ds = decision_views(list@);
        let ghost wins = |x: DecisionView| wins_at_once(g, x);
        let ghost catastrophes = |x: DecisionView| is_catastrophe_view(x);
        let ghost paid = |x: DecisionView| is_paid_view(x);
        let ghost ends = |x: DecisionView| x is EndTurn;
        if let Some(i) = first_matching(game, &list, DecisionClass::Win) {
            let d = list[i].duplicate();
            proof {
                lemma_first_where_at(ds, wins, i as int);
                assert(d@ == ds[i as int]);
                assert(playable(g, ds[i as int]));
                assert forall|e: DecisionView| #[trigger] playable(g, e) && wins_at_once(g, e) implies family_rank(d@) <= family_rank(e) by {
                    let k = choose|k: int| 0 <= k < ds.len() && ds[k] == e;
                    assert(ds[k] == e);
                    if k < i {
                        assert(!in_class(g, ds[k], DecisionClass::Win));
                    } else if k > i {
                        assert(family_rank(ds[i as int]) <= family_rank(ds[k]));
                    }
                }
            }
            return Some(d);
        }
        proof {
            lemma_first_where_none(ds, wins);
            assert forall|e: DecisionView| #[trigger] playable(g, e) implies !wins_at_once(g, e) by {
                let k = choose|k: int| 0 <= k < ds.len() && ds[k] == e;
                assert(!in_class(g, ds[k], DecisionClass::Win));
            }
        }
        if let Some(i) = first_matching(game, &list, DecisionClass::Catastrophe) {
            let d = list[i].duplicate();
            proof {
                lemma_first_where_at(ds, catastrophes, i as int);
                assert(d@ == ds[i as int]);
                assert(playable(g, ds[i as int]));
            }
            return Some(d);
        }
        proof {
            lemma_first_where_none(ds, catastrophes);
            assert forall|e: DecisionView| #[trigger] playable(g, e) implies !is_catastrophe_view(e) by {
                let k = choose|k: int| 0 <= k < ds.len() && ds[k] == e;
                assert(!in_class(g, ds[k], DecisionClass::Catastrophe));
            }
        }
        if let Some(i) = first_matching(game, &list, DecisionClass::Paid) {
            let d = list[i].duplicate();
            proof {
                lemma_first_where_at(ds, paid, i as int);
                assert(d@ == ds[i as int]);
                assert(playable(g, ds[i as int]));
                assert forall|e: DecisionView| #[trigger] playable(g, e) && is_paid_view(e) implies family_rank(d@) <= family_rank(e) by {
                    let k = choose|k: int| 0 <= k < ds.len() && ds[k] == e;
                    assert(ds[k] == e);
                    if k < i {
                        assert(!in_class(g, ds[k], DecisionClass::Paid));
                    } else if k > i {
                        assert(family_rank(ds[i as int]) <= family_rank(ds[k]));
                    }
                }
            }
            return Some(d);
        }
        proof {
            lemma_first_where_none(ds, paid);
            assert forall|e: DecisionView| #[trigger] playable(g, e) implies !is_paid_view(e) by {
                let k = choose|k: int| 0 <= k < ds.len() && ds[k] == e;
                assert(!in_class(g, ds[k], DecisionClass::Paid));
            }
        }
        if let Some(i) = first_matching(game, &list, DecisionClass::EndTurn) {
            proof {
                lemma_first_where_at(ds, ends, i as int);
                assert(ds[i as int] == DecisionView::EndTurn);
                assert(playable(g, ds[i as int]));
            }
            return Some(AiDecision::EndTurn);
        }
        proof {
            lemma_first_where_none(ds, ends);
            if playable(g, DecisionView::EndTurn) {
                let k = choose|k: int| 0 <= k < ds.len() && ds[k] == DecisionView::EndTurn;
                assert(!in_class(g, ds[k], DecisionClass::EndTurn));
            }
        }
        None
    }
}

} // verus!
