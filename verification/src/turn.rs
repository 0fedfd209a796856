use vstd::prelude::*;

use crate::action::{Action, ActionKind, ActionView};
use crate::game_state::{GameState, StateView};
use crate::piece::{Color, Player, Size};
use crate::transition::{apply_action_waiving, applied, TransitionError};
use crate::validation::action_error;

verus! {

/// A board with whose turn it is and what that player may still do.
#[derive(Clone, Debug, PartialEq, Eq)]
pub struct TurnState {
    state: GameState,
    current_player: Player,
    remaining_actions: usize,
    required_action: Option<ActionKind>,
}

/// Why a turn refused an action or could not end.
#[derive(Clone, Copy, Debug, PartialEq, Eq)]
pub enum TurnError {
    InvalidAction(TransitionError),
    WrongPlayer { expected: Player, actual: Player },
    NoActionBudget,
    ActionsRemaining { remaining: usize },
    WrongSacrificeActionKind { expected: ActionKind, actual: ActionKind },
}

/// What a turn holds.
pub ghost struct TurnView {
    pub state: StateView,
    pub player: Player,
    pub remaining: usize,
    pub required: Option<ActionKind>,
}

impl View for TurnState {
    type V = TurnView;

    closed spec fn view(&self) -> TurnView {
        TurnView {
            state: self.state@,
            player: self.current_player,
            remaining: self.remaining_actions,
            required: self.required_action,
        }
    }
}

/// The number of actions that sacrificing a ship of this size grants.
pub open spec fn spec_sacrifice_budget(size: Size) -> usize {
    match size {
        Size::Small => 1,
        Size::Medium => 2,
        Size::Large => 3,
    }
}

/// The action kind that sacrificing a ship of this color grants.
pub open spec fn spec_sacrifice_action_kind(color: Color) -> ActionKind {
    match color {
        Color::Green => ActionKind::Build,
        Color::Yellow => ActionKind::Travel,
        Color::Blue => ActionKind::Trade,
        Color::Red => ActionKind::Invade,
    }
}

/// The color whose power an action kind uses, if any.
pub open spec fn spec_action_kind_color(kind: ActionKind) -> Option<Color> {
    match kind {
        ActionKind::Build => Some(Color::Green),
        ActionKind::Travel => Some(Color::Yellow),
        ActionKind::Trade => Some(Color::Blue),
        ActionKind::Invade => Some(Color::Red),
        _ => None,
    }
}

/// The color whose power a sacrifice-granted action does not need.
pub open spec fn waived_color(required: Option<ActionKind>) -> Option<Color> {
    match required {
        Some(kind) => spec_action_kind_color(kind),
        None => None,
    }
}

impl TurnView {
    /// The board rules hold and every piece count fits a bank count.
    pub open spec fn wf(self) -> bool {
        self.state.wf() && self.state.totals_fit()
    }

    /// The turn error that refuses a paid action before its rules are checked, if any.
    pub open spec fn budget_error(self, a: ActionView) -> Option<TurnError> {
        if a.player() is Some && a.player() != Some(self.player) {
            Some(TurnError::WrongPlayer { expected: self.player, actual: a.player()->0 })
        } else if self.remaining == 0 {
            Some(TurnError::NoActionBudget)
        } else if self.required is Some && a.kind() != self.required->0 {
            Some(TurnError::WrongSacrificeActionKind { expected: self.required->0, actual: a.kind() })
        } else {
            None
        }
    }

    /// Whether `next` is what a successful action gives from this turn.
    pub open spec fn after_action(self, a: ActionView, next: TurnView) -> bool {
        &&& applied(self.state, a, next.state)
        &&& next.player == self.player
        &&& match a {
            ActionView::Catastrophe { .. } => next.remaining == self.remaining && next.required == self.required,
            ActionView::Sacrifice { ship, .. } => {
                &&& next.remaining == spec_sacrifice_budget(ship.size)
                &&& next.required == Some(spec_sacrifice_action_kind(ship.color))
            },
            _ => {
                &&& next.remaining == self.remaining - 1
                &&& next.required == if self.remaining - 1 == 0 {
                    None
                } else {
                    self.required
                }
            },
        }
    }

    /// What applying the action gives: an error, or some next turn.
    pub open spec fn action_outcome_ok(self, a: ActionView, result: Result<TurnView, TurnError>) -> bool {
        if a is Catastrophe {
            match action_error(self.state, a, None) {
                Some(e) => result == Err::<TurnView, TurnError>(TurnError::InvalidAction(TransitionError::InvalidAction(e))),
                None => result matches Ok(next) && self.after_action(a, next),
            }
        } else if self.budget_error(a) is Some {
            result == Err::<TurnView, TurnError>(self.budget_error(a)->0)
        } else {
            match action_error(self.state, a, waived_color(self.required)) {
                Some(e) => result == Err::<TurnView, TurnError>(TurnError::InvalidAction(TransitionError::InvalidAction(e))),
                None => result matches Ok(next) && self.after_action(a, next),
            }
        }
    }

    /// Whether the turn may end now.
    pub open spec fn can_end(self) -> bool {
        self.remaining == 0 || self.required is Some
    }
}

/// The view of a turn result.
pub open spec fn turn_result_view(result: Result<TurnState, TurnError>) -> Result<TurnView, TurnError> {
    match result {
        Ok(turn) => Ok(turn@),
        Err(e) => Err(e),
    }
}

fn sacrifice_budget(size: Size) -> (n: usize)
    ensures
        n == spec_sacrifice_budget(size),
{
    match size {
        Size::Small => 1,
        Size::Medium => 2,
        Size::Large => 3,
    }
}

fn sacrifice_action_kind(color: Color) -> (kind: ActionKind)
    ensures
        kind == spec_sacrifice_action_kind(color),
{
    match color {
        Color::Green => ActionKind::Build,
        Color::Yellow => ActionKind::Travel,
        Color::Blue => ActionKind::Trade,
        Color::Red => ActionKind::Invade,
    }
}

fn action_kind_color(kind: ActionKind) -> (color: Option<Color>)
    ensures
        color == spec_action_kind_color(kind),
{
    match kind {
        ActionKind::Build => Some(Color::Green),
        ActionKind::Travel => Some(Color::Yellow),
        ActionKind::Trade => Some(Color::Blue),
        ActionKind::Invade => Some(Color::Red),
        ActionKind::Sacrifice | ActionKind::Catastrophe => None,
    }
}

impl TurnState {
    /// A fresh turn: one paid action, no required kind.
    pub fn new(state: GameState, current_player: Player) -> (turn: TurnState)
        ensures
            turn@ == (TurnView { state: state@, player: current_player, remaining: 1, required: None }),
    {
        TurnState { state, current_player, remaining_actions: 1, required_action: None }
    }

    pub fn from_parts(
        state: GameState,
        current_player: Player,
        remaining_actions: usize,
        required_action: Option<ActionKind>,
    ) -> (turn: TurnState)
        ensures
            turn@ == (TurnView {
                state: state@,
                player: current_player,
                remaining: remaining_actions,
                required: required_action,
            }),
    {
        TurnState { state, current_player, remaining_actions, required_action }
    }

    pub fn state(&self) -> (state: &GameState)
        ensures
            state@ == self@.state,
    {
        &self.state
    }

    pub fn current_player(&self) -> (player: Player)
        ensures
            player == self@.player,
    {
        self.current_player
    }

    pub fn remaining_actions(&self) -> (n: usize)
        ensures
            n == self@.remaining,
    {
        self.remaining_actions
    }

    pub fn required_action(&self) -> (kind: Option<ActionKind>)
        ensures
            kind == self@.required,
    {
        self.required_action
    }

    /// A copy of the turn.
    pub fn duplicate(&self) -> (copy: TurnState)
        ensures
            copy@ == self@,
    {
        TurnState {
            state: self.state.duplicate(),
            current_player: self.current_player,
            remaining_actions: self.remaining_actions,
            required_action: self.required_action,
        }
    }

    /// Applies an action within the turn's budget. A catastrophe is free and
    /// open to either player; a sacrifice grants actions of its color's kind,
    /// which then need no local power of that color.
    pub fn apply_action(&self, action: &Action) -> (result: Result<TurnState, TurnError>)
        requires
            self@.wf(),
        ensures
            self@.action_outcome_ok(action@, turn_result_view(result)),
            result matches Ok(next) ==> next@.wf(),
    {
        if let Action::Catastrophe { .. } = action {
            let state = match apply_action_waiving(&self.state, action, None) {
                Ok(state) => state,
                Err(error) => {
                    return Err(TurnError::InvalidAction(error));
                },
            };
            return Ok(
                TurnState {
                    state,
                    current_player: self.current_player,
                    remaining_actions: self.remaining_actions,
                    required_action: self.required_action,
                },
            );
        }
        if let Some(player) = action.player() {
            if player != self.current_player {
                return Err(TurnError::WrongPlayer { expected: self.current_player, actual: player });
            }
        }
        if self.remaining_actions == 0 {
            return Err(TurnError::NoActionBudget);
        }
        if let Some(expected) = self.required_action {
            let actual = action.kind();
            if actual != expected {
                return Err(TurnError::WrongSacrificeActionKind { expected, actual });
            }
        }
        let waived = match self.required_action {
            Some(kind) => action_kind_color(kind),
            None => None,
        };
        let state = match apply_action_waiving(&self.state, action, waived) {
            Ok(state) => state,
            Err(error) => {
                return Err(TurnError::InvalidAction(error));
            },
        };
        if let Action::Sacrifice { ship, .. } = action {
            return Ok(
                TurnState {
                    state,
                    current_player: self.current_player,
                    remaining_actions: sacrifice_budget(ship.size),
                    required_action: Some(sacrifice_action_kind(ship.color)),
                },
            );
        }
        let remaining_actions = self.remaining_actions - 1;
        Ok(
            TurnState {
                state,
                current_player: self.current_player,
                remaining_actions,
                required_action: if remaining_actions == 0 {
                    None
                } else {
                    self.required_action
                },
            },
        )
    }

    /// Passes the turn to the other player once the paid budget is spent; a
    /// turn opened by a sacrifice may end early.
    pub fn end_turn(&self) -> (result: Result<TurnState, TurnError>)
        ensures
            self@.can_end() ==> (result matches Ok(next) && next@ == (TurnView {
                state: self@.state,
                player: self@.player.spec_other(),
                remaining: 1,
                required: None,
            })),
            !self@.can_end() ==> result == Err::<TurnState, TurnError>(
                TurnError::ActionsRemaining { remaining: self@.remaining },
            ),
    {
        if self.remaining_actions > 0 && self.required_action.is_none() {
            return Err(TurnError::ActionsRemaining { remaining: self.remaining_actions });
        }
        Ok(
            TurnState {
                state: self.state.duplicate(),
                current_player: self.current_player.other(),
                remaining_actions: 1,
                required_action: None,
            },
        )
    }
}

} // verus!
