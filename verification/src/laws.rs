use vstd::prelude::*;

use crate::action::{ActionKind, ActionView};
use crate::completion::{alias_from, alias_matches, alias_targets, alias_words, command_names, name_matches, starts_with, word_completion_of, word_matches};
use crate::text::{ascii_lower, is_space, joined, lemma_joined_push, lemma_tokenize_joined, lowercase, plain_word, tokenize, trim, words};
use crate::tui::{log_push, same_but_input, TuiApp, MAX_MESSAGES};
use crate::ai::{accepts, fails_at_once, is_legal, lists_legal_decisions, playable, DecisionView};
use crate::bank::Bank;
use crate::game::{GameStatus, GameView};
use crate::game_state::{board_count, StateView};
use crate::save::{
    decoded_system, decoded_systems, entry_views, homeworld_entry, lemma_kind_name_reads_back, lemma_piece_code_reads_back,
    lemma_player_id_reads_back, lemma_ship_code_reads_back, piece_code_text, player_id_text, players_valid, reads_as,
    required_of_save, save_reads, ship_code_text, size_name_text, string_views, system_reads, turn_parts_error, writes_game, SaveFile,
    SaveSystem,
};
use crate::star_system::SystemView;
use crate::parser::{
    color_word, command_of, compact_piece, input_of, size_word, lemma_decimal_reads_back, lemma_semicolon_from, pieces_from, CommandView,
};
use crate::session::{action_command_text, compact_text, decision_command_text, stars_text};
use crate::piece::{Color, Piece, Player, Size, SystemId};
use crate::render::{color_label, color_short, decimal_text, size_short};
use crate::search::takes;
use crate::transition::{
    applied, kept_from, lemma_pruned_in_order, lemma_pruned_keeps_homeworld, lemma_pruned_len_ge, lemma_pruned_len_le, lemma_pruned_origin, prune_rule, pruned, remap, removed_at, staged_systems,
    PruneRule,
};
use crate::action::TargetView;
use crate::validation::action_error;
use crate::turn::{spec_sacrifice_action_kind, spec_sacrifice_budget, TurnView};

verus! {

/// Drawing a piece and putting it back leaves every bank count as it was.
pub proof fn law_draw_then_return_restores(before: Bank, drawn: Bank, after: Bank, color: Color, size: Size)
    requires
        drawn.changed_by(&before, color, size, -1),
        after.changed_by(&drawn, color, size, 1),
    ensures
        forall|c: Color, s: Size| #[trigger] after.spec_count(c, s) == before.spec_count(c, s),
{
}

/// An action never creates or destroys pieces: every color and size has as
/// many pieces, bank and board together, after it as before.
pub proof fn law_action_keeps_piece_totals(s: StateView, a: ActionView, next: StateView)
    requires
        applied(s, a, next),
    ensures
        forall|c: Color, z: Size| #[trigger] next.piece_total(c, z) == s.piece_total(c, z),
{
}

/// A catastrophe costs no action: the turn keeps its budget and its
/// required kind.
pub proof fn law_catastrophe_is_free(t: TurnView, a: ActionView, next: TurnView)
    requires
        a is Catastrophe,
        t.after_action(a, next),
    ensures
        next.remaining == t.remaining,
        next.required == t.required,
        next.player == t.player,
{
}

/// Sacrificing a ship grants one action per size step (small 1, medium 2,
/// large 3), all of the kind that the ship's color powers.
pub proof fn law_sacrifice_grants_actions(t: TurnView, a: ActionView, next: TurnView)
    requires
        a is Sacrifice,
        t.after_action(a, next),
    ensures
        next.remaining == spec_sacrifice_budget(a->Sacrifice_ship.size),
        next.required == Some(spec_sacrifice_action_kind(a->Sacrifice_ship.color)),
        1 <= next.remaining <= 3,
{
}

/// A paid action other than a sacrifice spends exactly one action, and the
/// turn forgets its required kind once the budget is spent.
pub proof fn law_paid_action_spends_one(t: TurnView, a: ActionView, next: TurnView)
    requires
        !(a is Catastrophe),
        !(a is Sacrifice),
        t.after_action(a, next),
    ensures
        next.remaining == t.remaining - 1,
        next.remaining == 0 ==> next.required is None,
{
}

/// A finished game takes no action and cannot end a turn.
pub proof fn law_finished_game_takes_nothing(g: GameView, d: DecisionView)
    requires
        g.status != GameStatus::InProgress,
    ensures
        !takes(g, d),
        !is_legal(g, d),
{
}

/// Every decision that the AI lists is one the game takes.
pub proof fn law_listed_decisions_are_taken(g: GameView, ds: Seq<DecisionView>, i: int)
    requires
        lists_legal_decisions(g, ds),
        0 <= i < ds.len(),
    ensures
        takes(g, ds[i]),
{
    assert(is_legal(g, ds[i]));
}

/// The AI never plays a decision that loses or draws the game at once.
pub proof fn law_playable_never_fails_at_once(g: GameView, d: DecisionView)
    requires
        playable(g, d),
    ensures
        !fails_at_once(g, d),
        takes(g, d),
{
}

/// A paid action is refused once the turn's budget is spent.
pub proof fn law_no_paid_action_without_budget(g: GameView, a: ActionView)
    requires
        g.turn.remaining == 0,
        !(a is Catastrophe),
    ensures
        !accepts(g, a),
{
}

/// The two-letter form of a piece that the board shows reads back as the
/// same color and size.
pub proof fn law_compact_piece_reads_back(piece: Piece)
    ensures
        compact_piece(color_short(piece.color) + size_short(piece.size)) == Some((piece.color, piece.size)),
{
    let text = color_short(piece.color) + size_short(piece.size);
    reveal_strlit("r");
    reveal_strlit("y");
    reveal_strlit("g");
    reveal_strlit("b");
    reveal_strlit("s");
    reveal_strlit("m");
    reveal_strlit("l");
    assert(text.len() == 2);
    assert(text[0] == color_short(piece.color)[0]);
    assert(text[1] == size_short(piece.size)[0]);
}

/// Every word that completion offers for an argument is one of the
/// candidates, begins with what was typed (in lower case), and is more
/// than what was typed.
pub proof fn law_completion_words_extend(current: Seq<char>, candidates: Seq<Seq<char>>, fold: bool, i: int)
    requires
        0 <= i < word_matches(current, candidates, fold).len(),
    ensures
        candidates.contains(word_matches(current, candidates, fold)[i]),
        ({
            let w = word_matches(current, candidates, fold)[i];
            let key = if fold {
                lowercase(w)
            } else {
                w
            };
            starts_with(key, lowercase(current)) && key != lowercase(current)
        }),
    decreases candidates.len(),
{
    let rest = word_matches(current, candidates.drop_last(), fold);
    if i < rest.len() {
        law_completion_words_extend(current, candidates.drop_last(), fold, i);
        let w = rest[i];
        let j = choose|j: int| 0 <= j < candidates.drop_last().len() && candidates.drop_last()[j] == w;
        assert(candidates[j] == w);
    } else {
        assert(candidates[candidates.len() - 1] == candidates.last());
    }
}

/// A command word completes only to a command name.
pub proof fn law_command_word_completes_to_a_command(token: Seq<char>)
    requires
        word_completion_of(token) is Some,
    ensures
        command_names().contains(word_completion_of(token).unwrap()),
{
    let t = lowercase(token);
    lemma_alias_targets_are_commands();
    match alias_from(t, 0) {
        Some(target) => {
            lemma_alias_from_target(t, 0);
        },
        None => {
            let all = name_matches(t, 14) + alias_matches(t, 13);
            lemma_name_matches_are_commands(t, 14);
            lemma_alias_matches_are_commands(t, 13);
            assert(all.len() > 0);
            assert(all[0] == all[0]);
            if name_matches(t, 14).len() > 0 {
                assert(all[0] == name_matches(t, 14)[0]);
            } else {
                assert(all[0] == alias_matches(t, 13)[0]);
            }
        },
    }
}

proof fn lemma_alias_targets_are_commands()
    ensures
        forall|i: int| 0 <= i < alias_targets().len() ==> command_names().contains(#[trigger] alias_targets()[i]),
{
    assert forall|i: int| 0 <= i < alias_targets().len() implies command_names().contains(#[trigger] alias_targets()[i]) by {
        let names = command_names();
        let targets = alias_targets();
        if i == 0 { assert(names[0] == targets[0]); }
        if i == 1 { assert(names[2] == targets[1]); }
        if i == 2 { assert(names[3] == targets[2]); }
        if i == 3 { assert(names[5] == targets[3]); }
        if i == 4 { assert(names[6] == targets[4]); }
        if i == 5 { assert(names[7] == targets[5]); }
        if i == 6 { assert(names[8] == targets[6]); }
        if i == 7 { assert(names[9] == targets[7]); }
        if i == 8 { assert(names[10] == targets[8]); }
        if i == 9 { assert(names[10] == targets[9]); }
        if i == 10 { assert(names[11] == targets[10]); }
        if i == 11 { assert(names[12] == targets[11]); }
        if i == 12 { assert(names[13] == targets[12]); }
    }
}

proof fn lemma_alias_from_target(t: Seq<char>, i: int)
    requires
        forall|k: int| 0 <= k < alias_targets().len() ==> command_names().contains(#[trigger] alias_targets()[k]),
        alias_from(t, i) is Some,
    ensures
        command_names().contains(alias_from(t, i).unwrap()),
    decreases alias_words().len() - i,
{
    if 0 <= i < alias_words().len() && alias_words()[i] != t {
        lemma_alias_from_target(t, i + 1);
    }
}

proof fn lemma_name_matches_are_commands(t: Seq<char>, n: int)
    ensures
        forall|k: int| 0 <= k < name_matches(t, n).len() ==> command_names().contains(#[trigger] name_matches(t, n)[k]),
    decreases n,
{
    if 0 < n <= command_names().len() {
        lemma_name_matches_are_commands(t, n - 1);
        let before = name_matches(t, n - 1);
        assert forall|k: int| 0 <= k < name_matches(t, n).len() implies command_names().contains(
            #[trigger] name_matches(t, n)[k],
        ) by {
            if k < before.len() {
                assert(name_matches(t, n)[k] == before[k]);
            } else {
                assert(name_matches(t, n)[k] == command_names()[n - 1]);
            }
        }
    }
}

proof fn lemma_alias_matches_are_commands(t: Seq<char>, n: int)
    requires
        forall|k: int| 0 <= k < alias_targets().len() ==> command_names().contains(#[trigger] alias_targets()[k]),
    ensures
        forall|k: int| 0 <= k < alias_matches(t, n).len() ==> command_names().contains(#[trigger] alias_matches(t, n)[k]),
    decreases n,
{
    if 0 < n <= alias_words().len() {
        lemma_alias_matches_are_commands(t, n - 1);
        let before = alias_matches(t, n - 1);
        assert forall|k: int| 0 <= k < alias_matches(t, n).len() implies command_names().contains(
            #[trigger] alias_matches(t, n)[k],
        ) by {
            if k < before.len() {
                assert(alias_matches(t, n)[k] == before[k]);
            } else {
                assert(alias_matches(t, n)[k] == alias_targets()[n - 1]);
            }
        }
    }
}

/// The terminal's message log never holds more than its limit, and a new
/// message is always the newest one kept.
pub proof fn law_log_keeps_newest(log: Seq<Seq<char>>, message: Seq<char>)
    requires
        log.len() <= MAX_MESSAGES,
    ensures
        log_push(log, message).len() <= MAX_MESSAGES,
        log_push(log, message).len() > 0,
        log_push(log, message).last() == message,
{
}

/// Whether a game can be written and read back: three pieces of each color
/// and size between bank and board, a turn budget that a save holds, and a
/// required kind, if any, that a sacrifice grants.
pub open spec fn saveable(g: GameView) -> bool {
    &&& g.wf()
    &&& forall|c: Color, s: Size| #[trigger] g.turn.state.piece_total(c, s) == 3
    &&& turn_parts_error(g.turn.remaining, g.turn.required) is None
    &&& g.turn.required != Some(ActionKind::Sacrifice)
    &&& g.turn.required != Some(ActionKind::Catastrophe)
}

/// A system's star and ship codes read back as the system.
proof fn lemma_system_reads_back(system: SystemView, saved: SaveSystem)
    requires
        system.wf(),
        string_views(saved.stars@) == system.stars.map_values(|p: Piece| piece_code_text(p)),
        string_views(saved.ships@) == system.ships.map_values(|p: Piece| ship_code_text(p)),
    ensures
        system_reads(saved),
        decoded_system(saved) == system,
{
    assert(string_views(saved.stars@).len() == saved.stars@.len());
    assert(string_views(saved.ships@).len() == saved.ships@.len());
    assert(saved.stars@.len() == system.stars.len());
    assert(saved.ships@.len() == system.ships.len());
    assert forall|k: int| 0 <= k < saved.stars@.len() implies crate::save::piece_of_code(#[trigger] saved.stars@[k]@)
        == Some((system.stars[k].color, system.stars[k].size)) by {
        assert(string_views(saved.stars@)[k] == saved.stars@[k]@);
        assert(saved.stars@[k]@ == piece_code_text(system.stars[k]));
        lemma_piece_code_reads_back(system.stars[k]);
    }
    assert forall|k: int| 0 <= k < saved.ships@.len() implies crate::save::ship_of_code(#[trigger] saved.ships@[k]@)
        == Ok::<Piece, Option<Seq<char>>>(system.ships[k]) by {
        assert(string_views(saved.ships@)[k] == saved.ships@[k]@);
        assert(saved.ships@[k]@ == ship_code_text(system.ships[k]));
        assert(system.ships[k].owner is Some);
        lemma_ship_code_reads_back(system.ships[k]);
    }
    let decoded = decoded_system(saved);
    assert forall|k: int| 0 <= k < system.stars.len() implies decoded.stars[k] == system.stars[k] by {
        assert(string_views(saved.stars@)[k] == saved.stars@[k]@);
        assert(system.stars[k].owner is None);
    }
    assert(decoded.stars =~= system.stars);
    assert(decoded.ships =~= system.ships);
}

/// Reading back what writing a game gives returns that game: the save reads,
/// and the game it reads as is the game that was written.
pub proof fn law_save_reads_back(g: GameView, f: SaveFile, back: GameView)
    requires
        saveable(g),
        writes_game(f, g),
        reads_as(f, back),
    ensures
        save_reads(f),
        back == g,
{
    let systems = g.turn.state.systems;
    assert forall|i: int| 0 <= i < f.systems@.len() implies system_reads(#[trigger] f.systems@[i])
        && decoded_system(f.systems@[i]) == systems[i] by {
        assert(systems[i].wf());
        lemma_system_reads_back(systems[i], f.systems@[i]);
    }
    assert(decoded_systems(f.systems@) =~= systems);
    assert forall|c: Color, z: Size| f.bank.spec_count(c, z) as nat + #[trigger] board_count(decoded_systems(f.systems@), c, z) == 3 by {
        assert(g.turn.state.piece_total(c, z) == 3);
    }
    assert forall|c: Color, z: Size| #[trigger] f.bank.spec_count(c, z) <= 3 by {
        assert(g.turn.state.piece_total(c, z) == 3);
    }
    lemma_player_id_reads_back(Player::One);
    lemma_player_id_reads_back(Player::Two);
    reveal_strlit("p1");
    reveal_strlit("p2");
    assert(player_id_text(Player::One) != player_id_text(Player::Two)) by {
        assert(player_id_text(Player::One)[1] != player_id_text(Player::Two)[1]);
    }
    let ids = string_views(f.players@);
    assert(ids[0] == player_id_text(Player::One));
    assert(ids[1] == player_id_text(Player::Two));
    assert(players_valid(ids));
    let entries = entry_views(f.homeworlds@);
    assert(entries[0].0 == player_id_text(Player::One));
    assert(entries[1].0 == player_id_text(Player::Two));
    assert forall|k: int| 0 <= k < f.homeworlds@.len() implies crate::save::player_of_id(#[trigger] f.homeworlds@[k].0@) is Some by {
        assert(entries[k].0 == f.homeworlds@[k].0@);
    }
    assert(homeworld_entry(entries, Player::One, 0) == Some(g.turn.state.home_one.0));
    assert(homeworld_entry(entries, Player::Two, 1) == Some(g.turn.state.home_two.0));
    assert(homeworld_entry(entries, Player::Two, 0) == Some(g.turn.state.home_two.0));
    lemma_player_id_reads_back(g.turn.player);
    if let Some(kind) = g.turn.required {
        lemma_kind_name_reads_back(kind);
    }
    assert(required_of_save(f.turn) == Some(g.turn.required));
    assert(save_reads(f));
    Bank::lemma_counts_determine_bank(back.turn.state.bank, g.turn.state.bank);
    assert(back.turn.state.home_one == g.turn.state.home_one);
    assert(back.turn.state.home_two == g.turn.state.home_two);
    assert(back.turn.state == g.turn.state);
    assert(back.turn == g.turn);
}

/// Whether a system has at least one ship and one star.
pub open spec fn occupied(system: SystemView) -> bool {
    system.ships.len() > 0 && system.stars.len() > 0
}

/// Whether every system but the two homeworlds has a ship and a star.
pub open spec fn settled(s: StateView) -> bool {
    forall|i: int|
        0 <= i < s.systems.len() && i != s.home_one.0 && i != s.home_two.0 ==> #[trigger] occupied(s.systems[i])
}

/// Whether the action discovers a new system with no stars.
pub open spec fn discovers_starless(a: ActionView) -> bool {
    a matches ActionView::Travel { target: TargetView::New(stars), .. } && stars.len() == 0
}

/// A kept system other than the homeworlds is occupied when every system
/// that pruning does not remove, the homeworlds aside, is.
proof fn lemma_pruned_settled(systems: Seq<SystemView>, h1: SystemId, h2: SystemId, rule: PruneRule, k: int)
    requires
        forall|i: int|
            0 <= i < systems.len() && i != h1.0 && i != h2.0 && !removed_at(systems, h1, h2, rule, i) ==> #[trigger] occupied(
                systems[i],
            ),
        0 <= k < pruned(systems, h1, h2, rule).len(),
        k != remap(systems, h1, h2, rule, h1).0,
        k != remap(systems, h1, h2, rule, h2).0,
    ensures
        occupied(pruned(systems, h1, h2, rule)[k]),
{
    let i = lemma_pruned_origin(systems, h1, h2, rule, k);
    lemma_pruned_len_le(systems.take(i), h1, h2, rule);
    if i == h1.0 {
        assert(systems.take(h1.0 as int) == systems.take(i));
    }
    if i == h2.0 {
        assert(systems.take(h2.0 as int) == systems.take(i));
    }
    assert(occupied(systems[i]));
}

/// Applying a legal action to a state in which every system but the two
/// homeworlds has a ship and a star gives a state of which the same holds,
/// unless the action discovers a system with no stars; both homeworlds stay,
/// each as the action left it.
pub proof fn law_action_keeps_systems_settled(s: StateView, a: ActionView, next: StateView)
    requires
        s.wf(),
        action_error(s, a, None) is None,
        applied(s, a, next),
        settled(s),
        !discovers_starless(a),
    ensures
        settled(next),
        next.system_at(next.home_one) == staged_systems(s, a)[s.home_one.0 as int],
        next.system_at(next.home_two) == staged_systems(s, a)[s.home_two.0 as int],
        next.systems.len() <= s.systems.len() + 1,
        next.systems.len() + 1 >= s.systems.len(),
{
    let staged = staged_systems(s, a);
    let h1 = s.home_one;
    let h2 = s.home_two;
    assert(s.has_system(h1) && s.has_system(h2));
    assert forall|i: int| 0 <= i < s.systems.len() && i != h1.0 && i != h2.0 implies #[trigger] s.systems[i].stars.len() > 0 by {
        assert(occupied(s.systems[i]));
    }
    match prune_rule(a) {
        None => {
            assert forall|i: int| 0 <= i < next.systems.len() && i != next.home_one.0 && i != next.home_two.0 implies #[trigger] occupied(
                next.systems[i],
            ) by {
                assert(occupied(s.systems[i]));
            }
        },
        Some(rule) => {
            assert(staged.len() >= s.systems.len());
            assert forall|i: int|
                0 <= i < staged.len() && i != h1.0 && i != h2.0 && !removed_at(staged, h1, h2, rule, i) implies #[trigger] occupied(
                staged[i],
            ) by {
                if i < s.systems.len() {
                    assert(occupied(s.systems[i]));
                }
            }
            lemma_pruned_keeps_homeworld(staged, h1, h2, rule, h1);
            lemma_pruned_keeps_homeworld(staged, h1, h2, rule, h2);
            assert forall|k: int| 0 <= k < next.systems.len() && k != next.home_one.0 && k != next.home_two.0 implies #[trigger] occupied(
                next.systems[k],
            ) by {
                lemma_pruned_settled(staged, h1, h2, rule, k);
            }
            let j: int = match a {
                ActionView::Travel { from, .. } => from.0 as int,
                ActionView::Sacrifice { system, .. } => system.0 as int,
                ActionView::Catastrophe { system, .. } => system.0 as int,
                _ => -1,
            };
            assert forall|i: int| 0 <= i < staged.len() && i != j implies !#[trigger] removed_at(staged, h1, h2, rule, i) by {
                if i < s.systems.len() && i != h1.0 && i != h2.0 {
                    assert(occupied(s.systems[i]));
                }
            }
            lemma_pruned_len_ge(staged, h1, h2, rule, j);
            lemma_pruned_len_le(staged, h1, h2, rule);
        },
    }
}

/// Typing a character and erasing it gives back the interface as it was:
/// the same typed input, and nothing else changed.
pub proof fn law_backspace_undoes_push_char(before: TuiApp, typed: TuiApp, after: TuiApp, ch: char)
    requires
        typed.spec_input() == before.spec_input().push(ch),
        same_but_input(before, typed),
        typed.spec_input().len() > 0 ==> after.spec_input() == typed.spec_input().drop_last(),
        same_but_input(typed, after),
    ensures
        after.spec_input() == before.spec_input(),
        same_but_input(before, after),
{
    assert(before.spec_input().push(ch).drop_last() =~= before.spec_input());
}

/// Whether the action discovers a new system.
pub open spec fn discovers(a: ActionView) -> bool {
    a matches ActionView::Travel { target: TargetView::New(_), .. }
}

/// Whether the action is a catastrophe in the system `id`.
pub open spec fn catastrophe_at(a: ActionView, id: SystemId) -> bool {
    a matches ActionView::Catastrophe { system, .. } && system == id
}

/// The index, among the systems as the action changed them, of the system
/// that ends up at index `k` once the action is applied.
pub open spec fn kept_index(s: StateView, a: ActionView, k: int) -> int {
    match prune_rule(a) {
        None => k,
        Some(rule) => kept_from(staged_systems(s, a), s.home_one, s.home_two, rule, k),
    }
}

/// Applying a legal action changes systems in place and appends a
/// discovered one; what is then removed leaves the rest in their order. Each
/// homeworld keeps its stars unless the action is a catastrophe there.
pub proof fn law_action_keeps_system_order(s: StateView, a: ActionView, next: StateView)
    requires
        s.wf(),
        action_error(s, a, None) is None,
        applied(s, a, next),
    ensures
        staged_systems(s, a).len() == s.systems.len() + if discovers(a) {
            1int
        } else {
            0int
        },
        forall|k: int|
            0 <= k < next.systems.len() ==> 0 <= #[trigger] kept_index(s, a, k) < staged_systems(s, a).len()
                && next.systems[k] == staged_systems(s, a)[kept_index(s, a, k)],
        forall|k1: int, k2: int|
            0 <= k1 < k2 < next.systems.len() ==> #[trigger] kept_index(s, a, k1) < #[trigger] kept_index(s, a, k2),
        !catastrophe_at(a, s.home_one) ==> next.system_at(next.home_one).stars == s.system_at(s.home_one).stars,
        !catastrophe_at(a, s.home_two) ==> next.system_at(next.home_two).stars == s.system_at(s.home_two).stars,
{
    let staged = staged_systems(s, a);
    let h1 = s.home_one;
    let h2 = s.home_two;
    assert(s.has_system(h1) && s.has_system(h2));
    assert(!catastrophe_at(a, h1) ==> staged[h1.0 as int].stars == s.systems[h1.0 as int].stars);
    assert(!catastrophe_at(a, h2) ==> staged[h2.0 as int].stars == s.systems[h2.0 as int].stars);
    match prune_rule(a) {
        None => {},
        Some(rule) => {
            lemma_pruned_in_order(staged, h1, h2, rule);
            lemma_pruned_keeps_homeworld(staged, h1, h2, rule, h1);
            lemma_pruned_keeps_homeworld(staged, h1, h2, rule, h2);
        },
    }
}

/// Whether a turn's budget is in bounds: at most three actions left, none
/// required once none are left, a required kind whenever more than one is
/// left, and a required kind that a sacrifice can grant.
pub open spec fn budget_in_bounds(t: TurnView) -> bool {
    &&& t.remaining <= 3
    &&& t.remaining == 0 ==> t.required is None
    &&& t.remaining > 1 ==> t.required is Some
    &&& t.required matches Some(kind) ==> (kind == ActionKind::Build || kind == ActionKind::Travel || kind
        == ActionKind::Trade || kind == ActionKind::Invade)
}

/// A turn that starts, as a new turn or after a turn ends, has its budget
/// in bounds.
pub proof fn law_fresh_turn_budget_in_bounds(state: StateView, player: Player)
    ensures
        budget_in_bounds(TurnView { state, player, remaining: 1, required: None }),
{
}

/// Every successful action keeps a turn's budget in bounds.
pub proof fn law_action_keeps_budget_in_bounds(t: TurnView, a: ActionView, next: TurnView)
    requires
        budget_in_bounds(t),
        t.action_outcome_ok(a, Ok(next)),
    ensures
        budget_in_bounds(next),
{
}

/// Which command and `;` a trimmed line gives, as its command alone would.
pub open spec fn with_board(result: Result<CommandView, Seq<char>>, show_after: bool) -> Result<(CommandView, bool), Seq<char>> {
    match result {
        Ok(command) => Ok((command, show_after)),
        Err(e) => Err(e),
    }
}

/// A line at the game prompt reads as its trimmed text does as a command
/// when it holds no `;`; as the text before a final `;`, with the board
/// asked for, when that `;` is its only one; and as an error when a `;`
/// stands anywhere before its last character.
pub proof fn law_input_reads_as_command(line: Seq<char>, player: Player)
    ensures
        ({
            let t = trim(line);
            &&& (forall|j: int| 0 <= j < t.len() ==> t[j] != ';') ==> input_of(line, player) == with_board(
                command_of(tokenize(t), words(t), player),
                false,
            )
            &&& t.len() > 0 && t.last() == ';' && (forall|j: int| 0 <= j < t.len() - 1 ==> t[j] != ';') ==> input_of(
                line,
                player,
            ) == with_board(command_of(tokenize(t.drop_last()), words(t.drop_last()), player), true)
            &&& (exists|j: int| 0 <= j < t.len() - 1 && t[j] == ';') ==> input_of(line, player) is Err
        }),
{
    let t = trim(line);
    lemma_semicolon_from(t, 0);
    if t.len() > 0 {
        assert(t.take(t.len() - 1) =~= t.drop_last());
    }
}

/// A one-letter lower-case word is plain.
proof fn lemma_letter_plain(c: char)
    requires
        'a' <= c <= 'z',
    ensures
        plain_word(seq![c]),
{
    assert(!is_space(c));
    assert(ascii_lower(c) == c);
}

/// The compact text of a piece is a plain word that reads back as its color
/// and size.
proof fn lemma_compact_plain(piece: Piece)
    ensures
        plain_word(compact_text(piece)),
        compact_piece(compact_text(piece)) == Some((piece.color, piece.size)),
{
    law_compact_piece_reads_back(piece);
    reveal_strlit("r");
    reveal_strlit("y");
    reveal_strlit("g");
    reveal_strlit("b");
    reveal_strlit("s");
    reveal_strlit("m");
    reveal_strlit("l");
    let t = compact_text(piece);
    assert(t.len() == 2);
    assert forall|k: int| 0 <= k < t.len() implies !is_space(#[trigger] t[k]) && ascii_lower(t[k]) == t[k] by {
        assert('a' <= t[k] <= 'z');
    }
}

/// The one-letter name of a color is a plain word that reads as the color.
proof fn lemma_color_plain(color: Color)
    ensures
        plain_word(color_short(color)),
        color_word(color_short(color)) == Some(color),
{
    reveal_strlit("r");
    reveal_strlit("y");
    reveal_strlit("g");
    reveal_strlit("b");
    reveal_strlit("red");
    reveal_strlit("yellow");
    reveal_strlit("green");
    reveal_strlit("blue");
    let t = color_short(color);
    assert(t.len() == 1);
    lemma_letter_plain(t[0]);
    assert(t =~= seq![t[0]]);
}

/// The words that name commands, as the parser compares them.
proof fn lemma_command_words()
    ensures
        "b"@ == seq!['b'],
        "t"@ == seq!['t'],
        "x"@ == seq!['x'],
        "s"@ == seq!['s'],
        "i"@ == seq!['i'],
        "c"@ == seq!['c'],
        "n"@ == seq!['n'],
        "e"@ == seq!['e'],
        "help"@.len() == 4,
        "h"@ == seq!['h'],
        "show"@.len() == 4,
        "end"@.len() == 3,
        "quit"@.len() == 4,
        "q"@ == seq!['q'],
        "build"@.len() == 5,
        "travel"@.len() == 6,
        "trade"@.len() == 5,
        "tr"@.len() == 2,
        "sacrifice"@.len() == 9,
        "sac"@.len() == 3,
        "invade"@.len() == 6,
        "catastrophe"@.len() == 11,
        "existing"@.len() == 8,
        "new"@.len() == 3,
        plain_word("b"@),
        plain_word("t"@),
        plain_word("x"@),
        plain_word("s"@),
        plain_word("i"@),
        plain_word("c"@),
        plain_word("n"@),
        plain_word("e"@),
{
    reveal_strlit("b");
    reveal_strlit("t");
    reveal_strlit("x");
    reveal_strlit("s");
    reveal_strlit("i");
    reveal_strlit("c");
    reveal_strlit("n");
    reveal_strlit("e");
    reveal_strlit("help");
    reveal_strlit("h");
    reveal_strlit("show");
    reveal_strlit("end");
    reveal_strlit("quit");
    reveal_strlit("q");
    reveal_strlit("build");
    reveal_strlit("travel");
    reveal_strlit("trade");
    reveal_strlit("tr");
    reveal_strlit("sacrifice");
    reveal_strlit("sac");
    reveal_strlit("invade");
    reveal_strlit("catastrophe");
    reveal_strlit("existing");
    reveal_strlit("new");
    lemma_letter_plain('b');
    lemma_letter_plain('t');
    lemma_letter_plain('x');
    lemma_letter_plain('s');
    lemma_letter_plain('i');
    lemma_letter_plain('c');
    lemma_letter_plain('n');
    lemma_letter_plain('e');
}

/// Three words joined by spaces.
proof fn lemma_joined_three(a: Seq<char>, b: Seq<char>, c: Seq<char>)
    ensures
        joined(seq![a, b, c]) =~= a + " "@ + b + " "@ + c,
{
    assert(joined(seq![a]) == a);
    lemma_joined_push(seq![a], b);
    assert(seq![a].push(b) =~= seq![a, b]);
    lemma_joined_push(seq![a, b], c);
    assert(seq![a, b].push(c) =~= seq![a, b, c]);
}

/// Four words joined by spaces.
proof fn lemma_joined_four(a: Seq<char>, b: Seq<char>, c: Seq<char>, d: Seq<char>)
    ensures
        joined(seq![a, b, c, d]) =~= a + " "@ + b + " "@ + c + " "@ + d,
{
    lemma_joined_three(a, b, c);
    lemma_joined_push(seq![a, b, c], d);
    assert(seq![a, b, c].push(d) =~= seq![a, b, c, d]);
}

/// Five words joined by spaces.
proof fn lemma_joined_five(a: Seq<char>, b: Seq<char>, c: Seq<char>, d: Seq<char>, e: Seq<char>)
    ensures
        joined(seq![a, b, c, d, e]) =~= a + " "@ + b + " "@ + c + " "@ + d + " "@ + e,
{
    lemma_joined_four(a, b, c, d);
    lemma_joined_push(seq![a, b, c, d], e);
    assert(seq![a, b, c, d].push(e) =~= seq![a, b, c, d, e]);
}

/// Three plain words joined by spaces read back as those words.
proof fn lemma_reads_three(a: Seq<char>, b: Seq<char>, c: Seq<char>)
    requires
        plain_word(a),
        plain_word(b),
        plain_word(c),
    ensures
        tokenize(a + " "@ + b + " "@ + c) == seq![a, b, c],
{
    let ws = seq![a, b, c];
    lemma_joined_three(a, b, c);
    assert forall|i: int| 0 <= i < ws.len() implies plain_word(#[trigger] ws[i]) by {}
    lemma_tokenize_joined(ws);
}

/// Four plain words joined by spaces read back as those words.
proof fn lemma_reads_four(a: Seq<char>, b: Seq<char>, c: Seq<char>, d: Seq<char>)
    requires
        plain_word(a),
        plain_word(b),
        plain_word(c),
        plain_word(d),
    ensures
        tokenize(a + " "@ + b + " "@ + c + " "@ + d) == seq![a, b, c, d],
{
    let ws = seq![a, b, c, d];
    lemma_joined_four(a, b, c, d);
    assert forall|i: int| 0 <= i < ws.len() implies plain_word(#[trigger] ws[i]) by {}
    lemma_tokenize_joined(ws);
}

/// Five plain words joined by spaces read back as those words.
proof fn lemma_reads_five(a: Seq<char>, b: Seq<char>, c: Seq<char>, d: Seq<char>, e: Seq<char>)
    requires
        plain_word(a),
        plain_word(b),
        plain_word(c),
        plain_word(d),
        plain_word(e),
    ensures
        tokenize(a + " "@ + b + " "@ + c + " "@ + d + " "@ + e) == seq![a, b, c, d, e],
{
    let ws = seq![a, b, c, d, e];
    lemma_joined_five(a, b, c, d, e);
    assert forall|i: int| 0 <= i < ws.len() implies plain_word(#[trigger] ws[i]) by {}
    lemma_tokenize_joined(ws);
}

/// The command that a decision is taken as.
pub open spec fn decision_command(d: DecisionView) -> CommandView {
    match d {
        DecisionView::EndTurn => CommandView::End,
        DecisionView::Action(a) => CommandView::Action(a),
    }
}

/// The AI's command text for a legal build reads back as that action.
#[verifier::rlimit(50)]
#[verifier::spinoff_prover]
proof fn lemma_build_reads_back(g: GameView, a: ActionView)
    requires
        is_legal(g, DecisionView::Action(a)),
        a is Build,
    ensures
        command_of(tokenize(action_command_text(a)), words(action_command_text(a)), g.turn.player) == Ok::<
            CommandView,
            Seq<char>,
        >(CommandView::Action(a)),
{
    lemma_command_words();
    reveal_strlit(" ");
    if let ActionView::Build { system, ship, .. } = a {
        reveal_strlit("b ");
        let n = decimal_text(system.0 as nat);
        lemma_decimal_reads_back(system.0);
        lemma_compact_plain(ship);
        assert("b "@ =~= "b"@ + " "@);
        assert(action_command_text(a) =~= "b"@ + " "@ + n + " "@ + compact_text(ship));
        lemma_reads_three("b"@, n, compact_text(ship));
    }
}

/// The AI's command text for a legal sacrifice reads back as that action.
#[verifier::rlimit(50)]
#[verifier::spinoff_prover]
proof fn lemma_sacrifice_reads_back(g: GameView, a: ActionView)
    requires
        is_legal(g, DecisionView::Action(a)),
        a is Sacrifice,
    ensures
        command_of(tokenize(action_command_text(a)), words(action_command_text(a)), g.turn.player) == Ok::<
            CommandView,
            Seq<char>,
        >(CommandView::Action(a)),
{
    lemma_command_words();
    reveal_strlit(" ");
    if let ActionView::Sacrifice { system, ship, .. } = a {
        reveal_strlit("s ");
        let n = decimal_text(system.0 as nat);
        lemma_decimal_reads_back(system.0);
        lemma_compact_plain(ship);
        assert("s "@ =~= "s"@ + " "@);
        assert(action_command_text(a) =~= "s"@ + " "@ + n + " "@ + compact_text(ship));
        lemma_reads_three("s"@, n, compact_text(ship));
    }
}

/// The AI's command text for a legal invade reads back as that action.
#[verifier::rlimit(50)]
#[verifier::spinoff_prover]
proof fn lemma_invade_reads_back(g: GameView, a: ActionView)
    requires
        is_legal(g, DecisionView::Action(a)),
        a is Invade,
    ensures
        command_of(tokenize(action_command_text(a)), words(action_command_text(a)), g.turn.player) == Ok::<
            CommandView,
            Seq<char>,
        >(CommandView::Action(a)),
{
    lemma_command_words();
    reveal_strlit(" ");
    if let ActionView::Invade { system, target, .. } = a {
        reveal_strlit("i ");
        let n = decimal_text(system.0 as nat);
        lemma_decimal_reads_back(system.0);
        lemma_compact_plain(target);
        assert("i "@ =~= "i"@ + " "@);
        assert(action_command_text(a) =~= "i"@ + " "@ + n + " "@ + compact_text(target));
        lemma_reads_three("i"@, n, compact_text(target));
    }
}

/// The AI's command text for a legal catastrophe reads back as that action.
#[verifier::rlimit(50)]
#[verifier::spinoff_prover]
proof fn lemma_catastrophe_reads_back(g: GameView, a: ActionView)
    requires
        is_legal(g, DecisionView::Action(a)),
        a is Catastrophe,
    ensures
        command_of(tokenize(action_command_text(a)), words(action_command_text(a)), g.turn.player) == Ok::<
            CommandView,
            Seq<char>,
        >(CommandView::Action(a)),
{
    lemma_command_words();
    reveal_strlit(" ");
    if let ActionView::Catastrophe { system, color } = a {
        reveal_strlit("c ");
        let n = decimal_text(system.0 as nat);
        lemma_decimal_reads_back(system.0);
        lemma_color_plain(color);
        assert("c "@ =~= "c"@ + " "@);
        assert(action_command_text(a) =~= "c"@ + " "@ + n + " "@ + color_short(color));
        lemma_reads_three("c"@, n, color_short(color));
    }
}

/// The AI's command text for a legal trade reads back as that action.
#[verifier::rlimit(50)]
#[verifier::spinoff_prover]
proof fn lemma_trade_reads_back(g: GameView, a: ActionView)
    requires
        is_legal(g, DecisionView::Action(a)),
        a is Trade,
    ensures
        command_of(tokenize(action_command_text(a)), words(action_command_text(a)), g.turn.player) == Ok::<
            CommandView,
            Seq<char>,
        >(CommandView::Action(a)),
{
    lemma_command_words();
    reveal_strlit(" ");
    if let ActionView::Trade { system, from, to, .. } = a {
        reveal_strlit("x ");
        let n = decimal_text(system.0 as nat);
        lemma_decimal_reads_back(system.0);
        lemma_compact_plain(from);
        lemma_compact_plain(to);
        assert("x "@ =~= "x"@ + " "@);
        assert(action_command_text(a) =~= "x"@ + " "@ + n + " "@ + compact_text(from) + " "@ + compact_text(to));
        lemma_reads_four("x"@, n, compact_text(from), compact_text(to));
    }
}

/// The AI's command text for a legal travel reads back as that action.
#[verifier::rlimit(50)]
#[verifier::spinoff_prover]
proof fn lemma_travel_reads_back(g: GameView, a: ActionView)
    requires
        is_legal(g, DecisionView::Action(a)),
        a is Travel,
    ensures
        command_of(tokenize(action_command_text(a)), words(action_command_text(a)), g.turn.player) == Ok::<
            CommandView,
            Seq<char>,
        >(CommandView::Action(a)),
{
    lemma_command_words();
    reveal_strlit(" ");
    if let ActionView::Travel { from, ship, target, .. } = a {
        reveal_strlit("t ");
        let n = decimal_text(from.0 as nat);
        lemma_decimal_reads_back(from.0);
        lemma_compact_plain(ship);
        assert("t "@ =~= "t"@ + " "@);
        match target {
            TargetView::Existing(to) => {
                reveal_strlit(" x ");
                let m = decimal_text(to.0 as nat);
                lemma_decimal_reads_back(to.0);
                assert(" x "@ =~= " "@ + "x"@ + " "@);
                assert(action_command_text(a) =~= "t"@ + " "@ + n + " "@ + compact_text(ship) + " "@ + "x"@ + " "@ + m);
                lemma_reads_five("t"@, n, compact_text(ship), "x"@, m);
            },
            TargetView::New(stars) => {
                reveal_strlit(" n ");
                let star = stars[0];
                lemma_compact_plain(star);
                assert(stars_text(stars) == compact_text(star));
                assert(" n "@ =~= " "@ + "n"@ + " "@);
                assert(action_command_text(a) =~= "t"@ + " "@ + n + " "@ + compact_text(ship) + " "@ + "n"@ + " "@
                    + compact_text(star));
                lemma_reads_five("t"@, n, compact_text(ship), "n"@, compact_text(star));
                let tokens = seq!["t"@, n, compact_text(ship), "n"@, compact_text(star)];
                assert(pieces_from(tokens, 5) == Ok::<Seq<Piece>, Seq<char>>(Seq::empty()));
                assert(stars =~= seq![star]);
                assert(pieces_from(tokens, 4) == Ok::<Seq<Piece>, Seq<char>>(stars));
            },
        }
    }
}

/// The command text that the AI writes for one of its legal decisions reads,
/// at the prompt of the player to move, as that very decision.
pub proof fn law_ai_command_reads_back(g: GameView, d: DecisionView)
    requires
        is_legal(g, d),
    ensures
        command_of(tokenize(decision_command_text(d)), words(decision_command_text(d)), g.turn.player) == Ok::<
            CommandView,
            Seq<char>,
        >(decision_command(d)),
{
    match d {
        DecisionView::EndTurn => {
            lemma_command_words();
            let ws = seq!["e"@];
            assert(joined(ws) == "e"@);
            assert forall|i: int| 0 <= i < ws.len() implies plain_word(#[trigger] ws[i]) by {}
            lemma_tokenize_joined(ws);
        },
        DecisionView::Action(a) => match a {
            ActionView::Build { .. } => lemma_build_reads_back(g, a),
            ActionView::Sacrifice { .. } => lemma_sacrifice_reads_back(g, a),
            ActionView::Invade { .. } => lemma_invade_reads_back(g, a),
            ActionView::Catastrophe { .. } => lemma_catastrophe_reads_back(g, a),
            ActionView::Trade { .. } => lemma_trade_reads_back(g, a),
            ActionView::Travel { .. } => lemma_travel_reads_back(g, a),
        },
    }
}

/// Whether `next` follows from `t` by a successful action or by ending the turn.
pub open spec fn turn_step(t: TurnView, next: TurnView) -> bool {
    ||| exists|a: ActionView| #[trigger] t.action_outcome_ok(a, Ok(next))
    ||| t.can_end() && next == (TurnView { state: t.state, player: t.player.spec_other(), remaining: 1, required: None })
}

/// Every turn reached from a new turn through successful actions and ends
/// of turn has its budget in bounds.
pub proof fn law_reachable_turns_in_bounds(turns: Seq<TurnView>, state: StateView, player: Player)
    requires
        turns.len() > 0,
        turns[0] == (TurnView { state, player, remaining: 1, required: None }),
        forall|i: int| 0 <= i < turns.len() - 1 ==> turn_step(#[trigger] turns[i], turns[i + 1]),
    ensures
        forall|i: int| 0 <= i < turns.len() ==> budget_in_bounds(#[trigger] turns[i]),
    decreases turns.len(),
{
    if turns.len() > 1 {
        let shorter = turns.drop_last();
        assert forall|i: int| 0 <= i < shorter.len() - 1 implies turn_step(#[trigger] shorter[i], shorter[i + 1]) by {
            assert(shorter[i] == turns[i] && shorter[i + 1] == turns[i + 1]);
        }
        law_reachable_turns_in_bounds(shorter, state, player);
        let n = turns.len() - 1;
        let t = turns[n - 1];
        assert(shorter[n - 1] == t);
        assert(budget_in_bounds(t));
        assert(turn_step(t, turns[n]));
        if exists|a: ActionView| #[trigger] t.action_outcome_ok(a, Ok(turns[n])) {
            let a = choose|a: ActionView| #[trigger] t.action_outcome_ok(a, Ok(turns[n]));
            law_action_keeps_budget_in_bounds(t, a, turns[n]);
        }
        assert forall|i: int| 0 <= i < turns.len() implies budget_in_bounds(#[trigger] turns[i]) by {
            if i < n {
                assert(shorter[i] == turns[i]);
            }
        }
    }
}

/// Every size reads from its full name and from its letter, and a word reads
/// as a size only when it is that size's name or letter.
pub proof fn law_size_words_read_back(size: Size, w: Seq<char>)
    ensures
        size_word(size_name_text(size)) == Some(size),
        size_word(size_short(size)) == Some(size),
        size_word(w) == Some(size) ==> w == size_name_text(size) || w == size_short(size),
{
    reveal_strlit("small");
    reveal_strlit("medium");
    reveal_strlit("large");
    reveal_strlit("s");
    reveal_strlit("m");
    reveal_strlit("l");
    assert("small"@[0] == 's' && "medium"@[0] == 'm' && "large"@[0] == 'l');
    assert("s"@[0] == 's' && "m"@[0] == 'm' && "l"@[0] == 'l');
    assert(w.len() > 0 ==> w[0] == w[0]);
}

/// Every color reads from its full name and from its letter, and a word reads
/// as a color only when it is that color's name or letter.
pub proof fn law_color_words_read_back(color: Color, w: Seq<char>)
    ensures
        color_word(color_label(color)) == Some(color),
        color_word(color_short(color)) == Some(color),
        color_word(w) == Some(color) ==> w == color_label(color) || w == color_short(color),
{
    reveal_strlit("red");
    reveal_strlit("yellow");
    reveal_strlit("green");
    reveal_strlit("blue");
    reveal_strlit("r");
    reveal_strlit("y");
    reveal_strlit("g");
    reveal_strlit("b");
    assert("red"@[0] == 'r' && "yellow"@[0] == 'y' && "green"@[0] == 'g' && "blue"@[0] == 'b');
    assert("r"@[0] == 'r' && "y"@[0] == 'y' && "g"@[0] == 'g' && "b"@[0] == 'b');
}

/// A word of lower-case letters is plain.
proof fn lemma_lower_word_plain(w: Seq<char>)
    requires
        w.len() > 0,
        forall|k: int| 0 <= k < w.len() ==> 'a' <= #[trigger] w[k] <= 'z',
    ensures
        plain_word(w),
{
    assert forall|k: int| 0 <= k < w.len() implies !is_space(#[trigger] w[k]) && ascii_lower(w[k]) == w[k] by {
        assert('a' <= w[k] <= 'z');
    }
}

/// The full names of colors and sizes are plain words that no compact piece
/// code matches.
proof fn lemma_piece_words_plain(color: Color, size: Size)
    ensures
        plain_word(color_label(color)),
        plain_word(size_name_text(size)),
        compact_piece(color_label(color)) is None,
{
    reveal_strlit("red");
    reveal_strlit("yellow");
    reveal_strlit("green");
    reveal_strlit("blue");
    reveal_strlit("small");
    reveal_strlit("medium");
    reveal_strlit("large");
    let c = color_label(color);
    let s = size_name_text(size);
    assert forall|k: int| 0 <= k < c.len() implies 'a' <= #[trigger] c[k] <= 'z' by {}
    assert forall|k: int| 0 <= k < s.len() implies 'a' <= #[trigger] s[k] <= 'z' by {}
    lemma_lower_word_plain(c);
    lemma_lower_word_plain(s);
}

/// A build typed with full color and size words, as in `build 0 green
/// large`, reads as building that piece, owned by the player to move, in
/// that system.
pub proof fn law_build_with_piece_words_reads(player: Player, system: usize, color: Color, size: Size)
    ensures
        ({
            let text = "build "@ + decimal_text(system as nat) + " "@ + color_label(color) + " "@ + size_name_text(size);
            command_of(tokenize(text), words(text), player) == Ok::<CommandView, Seq<char>>(
                CommandView::Action(
                    ActionView::Build { player, system: SystemId(system), ship: Piece::make(color, size, Some(player)) },
                ),
            )
        }),
{
    lemma_command_words();
    reveal_strlit(" ");
    reveal_strlit("build ");
    reveal_strlit("build");
    let n = decimal_text(system as nat);
    lemma_decimal_reads_back(system);
    lemma_piece_words_plain(color, size);
    law_size_words_read_back(size, size_name_text(size));
    law_color_words_read_back(color, color_label(color));
    assert forall|k: int| 0 <= k < "build"@.len() implies 'a' <= #[trigger] "build"@[k] <= 'z' by {}
    lemma_lower_word_plain("build"@);
    assert("build "@ =~= "build"@ + " "@);
    let text = "build "@ + n + " "@ + color_label(color) + " "@ + size_name_text(size);
    assert(text =~= "build"@ + " "@ + n + " "@ + color_label(color) + " "@ + size_name_text(size));
    lemma_reads_four("build"@, n, color_label(color), size_name_text(size));
}

} // verus!
