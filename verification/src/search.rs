use vstd::prelude::*;

use crate::ai::{accepts, decision_views, fails_at_once, is_immediate_non_win, is_legal, legal_decisions, lists_legal_decisions, option_view, playable, AiDecision, DecisionView, Strategy};
use crate::bank::Bank;
use crate::evaluation::{
    bank_total, bank_value, board_material, board_trade_room, color_access, evaluate_position, evaluation_of, homeworld_safety,
    pressure, ships_trade_room, terminal_evaluation, Evaluation,
};
use crate::game::{status_of, Game, GameStatus, GameView};
use crate::game_state::StateView;
use crate::listing::listing;
use crate::piece::{Color, Player, Size};
use crate::star_system::SystemView;
use crate::turn::TurnView;

verus! {

/// A decision with the score that the search gave it.
#[derive(Clone, Debug, PartialEq, Eq)]
pub struct ScoredDecision {
    pub decision: AiDecision,
    pub score: i32,
}

/// Picks the decision that a depth-limited search over the legal decisions scores best.
#[derive(Clone, Copy, Debug, PartialEq, Eq)]
pub struct SearchStrategy {
    depth: usize,
}

/// Whether the decision takes the game `g` to `next`.
pub open spec fn leads_to(g: GameView, d: DecisionView, next: GameView) -> bool {
    match d {
        DecisionView::Action(a) => {
            &&& accepts(g, a)
            &&& g.turn.after_action(a, next.turn)
            &&& next.status == GameStatus::InProgress
        },
        DecisionView::EndTurn => {
            &&& g.status == GameStatus::InProgress
            &&& g.turn.can_end()
            &&& next.turn == (TurnView { state: g.turn.state, player: g.turn.player.spec_other(), remaining: 1, required: None })
            &&& next.status == status_of(g.turn.state)
        },
    }
}

/// Whether the game takes the decision at all.
pub open spec fn takes(g: GameView, d: DecisionView) -> bool {
    match d {
        DecisionView::Action(a) => accepts(g, a),
        DecisionView::EndTurn => g.status == GameStatus::InProgress && g.turn.can_end(),
    }
}

/// The total score of the game for the player, as `evaluate_position` gives it.
pub open spec fn score_of(g: GameView, player: Player) -> int {
    match g.status {
        GameStatus::Finished(outcome) => terminal_evaluation(outcome, player).total as int,
        GameStatus::InProgress => {
            let s = g.turn.state;
            homeworld_safety(s, player) + board_material(s.systems, player) + color_access(s, player) + pressure(s, player)
                + bank_value(s, player)
        },
    }
}

proof fn lemma_ships_trade_room_congruent(ships: Seq<crate::piece::Piece>, b1: Bank, b2: Bank, player: Player)
    requires
        forall|c: Color, s: Size| #[trigger] b1.spec_count(c, s) == b2.spec_count(c, s),
    ensures
        ships_trade_room(ships, b1, player) == ships_trade_room(ships, b2, player),
    decreases ships.len(),
{
    if ships.len() > 0 {
        lemma_ships_trade_room_congruent(ships.drop_last(), b1, b2, player);
        let last = ships.last();
        assert(b1.spec_count(Color::Red, last.size) == b2.spec_count(Color::Red, last.size));
        assert(b1.spec_count(Color::Yellow, last.size) == b2.spec_count(Color::Yellow, last.size));
        assert(b1.spec_count(Color::Green, last.size) == b2.spec_count(Color::Green, last.size));
        assert(b1.spec_count(Color::Blue, last.size) == b2.spec_count(Color::Blue, last.size));
    }
}

proof fn lemma_trade_room_congruent(systems: Seq<SystemView>, b1: Bank, b2: Bank, player: Player)
    requires
        forall|c: Color, s: Size| #[trigger] b1.spec_count(c, s) == b2.spec_count(c, s),
    ensures
        board_trade_room(systems, b1, player) == board_trade_room(systems, b2, player),
    decreases systems.len(),
{
    if systems.len() > 0 {
        lemma_trade_room_congruent(systems.drop_last(), b1, b2, player);
        lemma_ships_trade_room_congruent(systems.last().ships, b1, b2, player);
    }
}

/// Two states with the same board and the same bank counts score the same.
proof fn lemma_same_board_same_score(s1: StateView, s2: StateView, player: Player)
    requires
        s1.systems == s2.systems,
        s1.home_one == s2.home_one,
        s1.home_two == s2.home_two,
        forall|c: Color, s: Size| #[trigger] s1.bank.spec_count(c, s) == s2.bank.spec_count(c, s),
    ensures
        homeworld_safety(s1, player) == homeworld_safety(s2, player),
        color_access(s1, player) == color_access(s2, player),
        pressure(s1, player) == pressure(s2, player),
        bank_value(s1, player) == bank_value(s2, player),
{
    lemma_trade_room_congruent(s1.systems, s1.bank, s2.bank, player);
    lemma_trade_room_congruent(s1.systems, s1.bank, s2.bank, player.spec_other());
    assert(bank_total(s1.bank) == bank_total(s2.bank)) by {
        assert(s1.bank.spec_count(Color::Red, Size::Small) == s2.bank.spec_count(Color::Red, Size::Small));
        assert(s1.bank.spec_count(Color::Red, Size::Medium) == s2.bank.spec_count(Color::Red, Size::Medium));
        assert(s1.bank.spec_count(Color::Red, Size::Large) == s2.bank.spec_count(Color::Red, Size::Large));
        assert(s1.bank.spec_count(Color::Yellow, Size::Small) == s2.bank.spec_count(Color::Yellow, Size::Small));
        assert(s1.bank.spec_count(Color::Yellow, Size::Medium) == s2.bank.spec_count(Color::Yellow, Size::Medium));
        assert(s1.bank.spec_count(Color::Yellow, Size::Large) == s2.bank.spec_count(Color::Yellow, Size::Large));
        assert(s1.bank.spec_count(Color::Green, Size::Small) == s2.bank.spec_count(Color::Green, Size::Small));
        assert(s1.bank.spec_count(Color::Green, Size::Medium) == s2.bank.spec_count(Color::Green, Size::Medium));
        assert(s1.bank.spec_count(Color::Green, Size::Large) == s2.bank.spec_count(Color::Green, Size::Large));
        assert(s1.bank.spec_count(Color::Blue, Size::Small) == s2.bank.spec_count(Color::Blue, Size::Small));
        assert(s1.bank.spec_count(Color::Blue, Size::Medium) == s2.bank.spec_count(Color::Blue, Size::Medium));
        assert(s1.bank.spec_count(Color::Blue, Size::Large) == s2.bank.spec_count(Color::Blue, Size::Large));
    }
}

/// Wherever a decision takes a game, the position scores the same.
proof fn lemma_leads_to_one_score(g: GameView, d: DecisionView, n1: GameView, n2: GameView, player: Player)
    requires
        leads_to(g, d, n1),
        leads_to(g, d, n2),
    ensures
        score_of(n1, player) == score_of(n2, player),
{
    if let DecisionView::Action(a) = d {
        let s1 = n1.turn.state;
        let s2 = n2.turn.state;
        assert forall|c: Color, s: Size| #[trigger] s1.bank.spec_count(c, s) == s2.bank.spec_count(c, s) by {
            assert(s1.piece_total(c, s) == g.turn.state.piece_total(c, s));
            assert(s2.piece_total(c, s) == g.turn.state.piece_total(c, s));
        }
        lemma_same_board_same_score(s1, s2, player);
    }
}

/// A decision leads a game to one position only.
pub proof fn lemma_leads_to_unique(g: GameView, d: DecisionView, n1: GameView, n2: GameView)
    requires
        leads_to(g, d, n1),
        leads_to(g, d, n2),
    ensures
        n1 == n2,
{
    if let DecisionView::Action(a) = d {
        let s1 = n1.turn.state;
        let s2 = n2.turn.state;
        assert forall|c: Color, s: Size| #[trigger] s1.bank.spec_count(c, s) == s2.bank.spec_count(c, s) by {
            assert(s1.piece_total(c, s) == g.turn.state.piece_total(c, s));
            assert(s2.piece_total(c, s) == g.turn.state.piece_total(c, s));
        }
        Bank::lemma_counts_determine_bank(s1.bank, s2.bank);
        assert(s1 == s2);
        assert(n1.turn == n2.turn);
    }
}

/// The position that a decision the game takes leads to.
pub open spec fn successor(g: GameView, d: DecisionView) -> GameView {
    choose|n: GameView| leads_to(g, d, n)
}

/// Whether a score replaces the best so far: higher when the root player
/// moves, lower when the opponent does.
pub open spec fn improves(g: GameView, root: Player, score: int, best: int) -> bool {
    if g.turn.player == root {
        score > best
    } else {
        score < best
    }
}

/// The score of a position searched `depth` moves deep for the root
/// player: its evaluation once the depth is spent, the game is over, or no
/// decision is playable; else the score of its best decision.
pub open spec fn search_value(g: GameView, root: Player, depth: nat) -> int
    decreases depth, 1int, 0int,
{
    if depth == 0 || g.status != GameStatus::InProgress {
        score_of(g, root)
    } else {
        match best_among(g, root, depth, listing(g)) {
            Some((_, score)) => score,
            None => score_of(g, root),
        }
    }
}

/// The best of a run of decisions at a node, with its score: those that
/// lose or draw at once, or that the game does not take, are passed over,
/// and a tie keeps the earlier decision.
pub open spec fn best_among(g: GameView, root: Player, depth: nat, ds: Seq<DecisionView>) -> Option<(DecisionView, int)>
    decreases depth, 0int, ds.len(),
{
    if depth == 0 || ds.len() == 0 {
        None
    } else {
        let previous = best_among(g, root, depth, ds.drop_last());
        let d = ds.last();
        if fails_at_once(g, d) || !takes(g, d) {
            previous
        } else {
            let score = search_value(successor(g, d), root, (depth - 1) as nat);
            match previous {
                None => Some((d, score)),
                Some((_, best)) => if improves(g, root, score, best) {
                    Some((d, score))
                } else {
                    previous
                },
            }
        }
    }
}

/// The result of a search, as a decision and a score.
pub open spec fn scored_view(best: Option<ScoredDecision>) -> Option<(DecisionView, int)> {
    match best {
        Some(sd) => Some((sd.decision@, sd.score as int)),
        None => None,
    }
}

/// The game that the decision leads to, if the game takes it.
pub fn apply_decision(game: &Game, decision: &AiDecision) -> (next: Option<Game>)
    requires
        game@.wf(),
    ensures
        next is Some <==> takes(game@, decision@),
        next matches Some(n) ==> leads_to(game@, decision@, n@) && n@.wf(),
{
    match decision {
        AiDecision::Action(action) => match game.apply_action(action) {
            Ok(next) => Some(next),
            Err(_) => None,
        },
        AiDecision::EndTurn => match game.end_turn() {
            Ok(next) => Some(next),
            Err(_) => None,
        },
    }
}

/// Whether `d` scored `score` is a best one-move choice for `root`: some
/// position it leads to scores `score`, and no playable decision leads to a
/// position that scores higher.
pub open spec fn one_ply_best(g: GameView, root: Player, d: DecisionView, score: int) -> bool {
    &&& exists|n: GameView| #[trigger] leads_to(g, d, n) && score_of(n, root) == score
    &&& forall|e: DecisionView, n: GameView| playable(g, e) && #[trigger] leads_to(g, e, n) ==> score_of(n, root) <= score
}

/// The score of a position searched to the given depth for the root player:
/// its evaluation once the depth is spent or the game is over.
fn search_score(game: &Game, root: Player, depth: usize) -> (score: i32)
    requires
        game@.wf(),
    ensures
        -4_100_000 <= score <= 4_100_000,
        depth == 0 || game@.status != GameStatus::InProgress ==> score == score_of(game@, root),
        score == search_value(game@, root, depth as nat),
    decreases depth, 1int,
{
    if depth == 0 || game.status() != GameStatus::InProgress {
        return evaluate_position(game, root).total;
    }
    match best_at_node(game, root, depth) {
        Some(scored) => scored.score,
        None => evaluate_position(game, root).total,
    }
}

/// Whether a candidate replaces the best so far: a higher score for the
/// root player's own move, a lower one for the opponent's.
fn should_replace(current: &Option<ScoredDecision>, candidate: &ScoredDecision, maximizing: bool) -> (replace: bool)
    ensures
        replace == match current {
            None => true,
            Some(c) => if maximizing {
                candidate.score > c.score
            } else {
                candidate.score < c.score
            },
        },
{
    match current {
        None => true,
        Some(current) => if maximizing {
            candidate.score > current.score
        } else {
            candidate.score < current.score
        },
    }
}

/// The best playable decision at a node of the search: the root player
/// maximizes, the opponent minimizes, ties keep the earlier decision.
fn best_at_node(game: &Game, root: Player, depth: usize) -> (best: Option<ScoredDecision>)
    requires
        game@.wf(),
    ensures
        depth == 0 || game@.status != GameStatus::InProgress ==> best is None,
        depth > 0 && game@.status == GameStatus::InProgress ==> (best is None <==> forall|d: DecisionView| !(#[trigger] playable(game@, d))),
        best matches Some(sd) ==> playable(game@, sd.decision@) && -4_100_000 <= sd.score <= 4_100_000,
        depth == 1 && game@.turn.player == root ==> (best matches Some(sd) ==> one_ply_best(game@, root, sd.decision@, sd.score as int)),
        depth > 0 && game@.status == GameStatus::InProgress ==> scored_view(best) == best_among(game@, root, depth as nat, listing(game@)),
    decreases depth, 0int,
{
    if depth == 0 || game.status() != GameStatus::InProgress {
        return None;
    }
    let ghost g = game@;
    let maximizing = game.turn().current_player() == root;
    let all = legal_decisions(game);
    let ghost ds = decision_views(all@);
    let mut best: Option<ScoredDecision> = None;
    let mut i: usize = 0;
    while i < all.len()
        invariant
            g == game@,
            g.wf(),
            g.status == GameStatus::InProgress,
            depth > 0,
            maximizing == (g.turn.player == root),
            ds == decision_views(all@),
            lists_legal_decisions(g, ds),
            0 <= i <= all@.len(),
            best matches Some(sd) ==> playable(g, sd.decision@) && -4_100_000 <= sd.score <= 4_100_000,
            depth == 1 ==> (best matches Some(sd) ==> exists|n: GameView| #[trigger] leads_to(g, sd.decision@, n) && score_of(n, root) == sd.score),
            forall|k: int| 0 <= k < i && playable(g, #[trigger] ds[k]) ==> best is Some,
            depth == 1 && maximizing ==> forall|k: int, n: GameView|
                0 <= k < i && playable(g, ds[k]) && #[trigger] leads_to(g, ds[k], n) ==> (best matches Some(sd) && score_of(n, root) <= sd.score),
            ds == listing(g),
            scored_view(best) == best_among(g, root, depth as nat, ds.take(i as int)),
        decreases all@.len() - i,
    {
        let decision = all[i].duplicate();
        proof {
            assert(decision@ == ds[i as int]);
            assert(ds.take(i + 1).drop_last() =~= ds.take(i as int));
            assert(ds.take(i + 1).last() == ds[i as int]);
        }
        if !is_immediate_non_win(game, &decision) {
            proof {
                assert(is_legal(g, ds[i as int]));
            }
            if let Some(next) = apply_decision(game, &decision) {
                let score = search_score(&next, root, depth - 1);
                proof {
                    lemma_leads_to_unique(g, ds[i as int], next@, successor(g, ds[i as int]));
                }
                let scored = ScoredDecision { decision, score };
                let ghost previous = best;
                if should_replace(&best, &scored, maximizing) {
                    best = Some(scored);
                }
                proof {
                    if depth == 1 {
                        assert(leads_to(g, ds[i as int], next@));
                        if best == Some(scored) {
                            assert(leads_to(g, scored.decision@, next@) && score_of(next@, root) == scored.score);
                        }
                        if maximizing {
                            assert forall|k: int, n: GameView|
                                0 <= k < i + 1 && playable(g, ds[k]) && #[trigger] leads_to(g, ds[k], n)
                                implies (best matches Some(sd) && score_of(n, root) <= sd.score) by {
                                if k == i {
                                    lemma_leads_to_one_score(g, ds[k], n, next@, root);
                                }
                            }
                        }
                    }
                }
            }
        }
        i += 1;
    }
    proof {
        assert(ds.take(all@.len() as int) =~= ds);
        assert forall|d: DecisionView| #[trigger] playable(g, d) implies best is Some by {
            let k = choose|k: int| 0 <= k < ds.len() && ds[k] == d;
            assert(playable(g, ds[k]));
        }
        if depth == 1 && maximizing {
            if best is Some {
                let sd = best->0;
                assert forall|e: DecisionView, n: GameView| playable(g, e) && #[trigger] leads_to(g, e, n)
                    implies score_of(n, root) <= sd.score by {
                    let k = choose|k: int| 0 <= k < ds.len() && ds[k] == e;
                    assert(leads_to(g, ds[k], n));
                }
            }
        }
    }
    best
}

/// The best decision of a depth-limited search rooted at the current
/// player; none at depth zero, once the game is over, or when every legal
/// decision loses or draws at once.
pub fn best_decision_at_depth(game: &Game, depth: usize) -> (best: Option<ScoredDecision>)
    requires
        game@.wf(),
    ensures
        depth == 0 || game@.status != GameStatus::InProgress ==> best is None,
        depth > 0 && game@.status == GameStatus::InProgress ==> (best is None <==> forall|d: DecisionView| !(#[trigger] playable(game@, d))),
        best matches Some(sd) ==> playable(game@, sd.decision@) && -4_100_000 <= sd.score <= 4_100_000,
        depth == 1 ==> (best matches Some(sd) ==> one_ply_best(game@, game@.turn.player, sd.decision@, sd.score as int)),
        depth > 0 && game@.status == GameStatus::InProgress ==> scored_view(best) == best_among(
            game@,
            game@.turn.player,
            depth as nat,
            listing(game@),
        ),
{
    if depth == 0 || game.status() != GameStatus::InProgress {
        return None;
    }
    let root = game.turn().current_player();
    best_at_node(game, root, depth)
}

/// The best decision of a one-move search.
pub fn best_decision(game: &Game) -> (best: Option<ScoredDecision>)
    requires
        game@.wf(),
    ensures
        game@.status != GameStatus::InProgress ==> best is None,
        game@.status == GameStatus::InProgress ==> (best is None <==> forall|d: DecisionView| !(#[trigger] playable(game@, d))),
        best matches Some(sd) ==> playable(game@, sd.decision@) && one_ply_best(game@, game@.turn.player, sd.decision@, sd.score as int),
        game@.status == GameStatus::InProgress ==> scored_view(best) == best_among(game@, game@.turn.player, 1, listing(game@)),
{
    best_decision_at_depth(game, 1)
}

impl SearchStrategy {
    pub fn new(depth: usize) -> (strategy: SearchStrategy)
        ensures
            strategy.spec_depth() == depth,
    {
        SearchStrategy { depth }
    }

    /// How many moves ahead the strategy searches.
    pub closed spec fn spec_depth(self) -> usize {
        self.depth
    }

    pub fn depth(self) -> (depth: usize)
        ensures
            depth == self.spec_depth(),
    {
        self.depth
    }
}

impl Default for SearchStrategy {
    fn default() -> (strategy: SearchStrategy)
        ensures
            strategy.spec_depth() == 1,
    {
        SearchStrategy::new(1)
    }
}

impl Strategy for SearchStrategy {
    fn choose_decision(&self, game: &Game) -> (decision: Option<AiDecision>)
        ensures
            self.spec_depth() == 0 || game@.status != GameStatus::InProgress ==> decision is None,
            self.spec_depth() > 0 && game@.status == GameStatus::InProgress ==> (decision is None <==> forall|d: DecisionView| !(#[trigger] playable(game@, d))),
            decision matches Some(d) ==> playable(game@, d@),
            self.spec_depth() == 1 ==> (decision matches Some(d) ==> exists|score: int| one_ply_best(game@, game@.turn.player, d@, score)),
            self.spec_depth() > 0 && game@.status == GameStatus::InProgress ==> option_view(decision) == match best_among(
                game@,
                game@.turn.player,
                self.spec_depth() as nat,
                listing(game@),
            ) {
                Some((d, _)) => Some(d),
                None => None,
            },
    {
        match best_decision_at_depth(game, self.depth) {
            Some(scored) => {
                proof {
                    if self.depth == 1 {
                        assert(one_ply_best(game@, game@.turn.player, scored.decision@, scored.score as int));
                    }
                }
                Some(scored.decision)
            },
            None => None,
        }
    }
}

} // verus!
