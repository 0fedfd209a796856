//! A rules engine for the two-player Homeworlds game: pieces, the bank,
//! star systems, actions, turn flow, game outcome, a deterministic AI,
//! command parsing and text rendering.

pub mod piece;
pub mod bank;
pub mod count;
pub mod star_system;
pub mod game_state;
pub mod action;
pub mod validation;
pub mod transition;
pub mod turn;
pub mod game;
pub mod ai;
pub mod listing;
pub mod evaluation;
pub mod search;
pub mod text;
pub mod parser;
pub mod render;
pub mod laws;
pub mod debug_text;
pub mod save;
pub mod session;
pub mod cli;
pub mod tui;
pub mod completion;
pub mod paths;
pub mod screen;

pub use piece::{Color, Piece, Player, Size, SystemId};
pub use bank::{Bank, BankError};
pub use star_system::{StarSystem, StarSystemError};
pub use game_state::{GameState, GameStateError};
pub use action::{Action, ActionKind, MoveTarget, TravelTarget};
pub use validation::{has_possible_catastrophe, validate_action, ActionError};
pub use transition::{apply_action, TransitionError};
pub use turn::{TurnError, TurnState};
pub use game::{Game, GameError, GameOutcome, GameStatus, HomeworldSetup};
pub use ai::{legal_decisions, AiDecision, FirstLegalStrategy, PriorityStrategy, Strategy};
pub use evaluation::{evaluate_position, Evaluation};
pub use search::{best_decision, best_decision_at_depth, ScoredDecision, SearchStrategy};
pub use parser::{parse_command, parse_input, parse_setup, ParseError, ParsedCommand, ParsedInput};
