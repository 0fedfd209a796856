use vstd::prelude::*;

verus! {

/// The four piece colors.
#[derive(Clone, Copy, Debug, PartialEq, Eq, Hash, Structural)]
pub enum Color {
    Red,
    Yellow,
    Green,
    Blue,
}

impl Color {
    pub const COUNT: usize = 4;

    pub const ALL: [Color; 4] = [Color::Red, Color::Yellow, Color::Green, Color::Blue];

    /// Position of the color in `Color::ALL`.
    pub open spec fn spec_index(self) -> usize {
        match self {
            Color::Red => 0,
            Color::Yellow => 1,
            Color::Green => 2,
            Color::Blue => 3,
        }
    }

    #[verifier::when_used_as_spec(spec_index)]
    pub fn index(self) -> (i: usize)
        ensures
            i == self.spec_index(),
    {
        match self {
            Color::Red => 0,
            Color::Yellow => 1,
            Color::Green => 2,
            Color::Blue => 3,
        }
    }
}


/// The three piece sizes, ordered by strength.
#[derive(Clone, Copy, Debug, PartialEq, Eq, Hash, PartialOrd, Ord, Structural)]
pub enum Size {
    Small,
    Medium,
    Large,
}

impl Size {
    pub const COUNT: usize = 3;

    pub const ALL: [Size; 3] = [Size::Small, Size::Medium, Size::Large];

    /// Position of the size in `Size::ALL`; also its strength rank.
    pub open spec fn spec_index(self) -> usize {
        match self {
            Size::Small => 0,
            Size::Medium => 1,
            Size::Large => 2,
        }
    }

    #[verifier::when_used_as_spec(spec_index)]
    pub fn index(self) -> (i: usize)
        ensures
            i == self.spec_index(),
    {
        match self {
            Size::Small => 0,
            Size::Medium => 1,
            Size::Large => 2,
        }
    }

    /// Whether `self` is at least as strong as `other`.
    pub open spec fn spec_at_least(self, other: Size) -> bool {
        self.spec_index() >= other.spec_index()
    }

    #[verifier::when_used_as_spec(spec_at_least)]
    pub fn at_least(self, other: Size) -> (b: bool)
        ensures
            b == self.spec_at_least(other),
    {
        self.index() >= other.index()
    }
}

/// The two seats of a game.
#[derive(Clone, Copy, Debug, PartialEq, Eq, Hash, Structural)]
pub enum Player {
    One,
    Two,
}

impl Player {
    pub const COUNT: usize = 2;

    pub const ALL: [Player; 2] = [Player::One, Player::Two];

    /// Position of the player in `Player::ALL`.
    pub open spec fn spec_index(self) -> usize {
        match self {
            Player::One => 0,
            Player::Two => 1,
        }
    }

    #[verifier::when_used_as_spec(spec_index)]
    pub fn index(self) -> (i: usize)
        ensures
            i == self.spec_index(),
    {
        match self {
            Player::One => 0,
            Player::Two => 1,
        }
    }

    /// The opponent of a player.
    pub open spec fn spec_other(self) -> Player {
        match self {
            Player::One => Player::Two,
            Player::Two => Player::One,
        }
    }

    #[verifier::when_used_as_spec(spec_other)]
    pub fn other(self) -> (p: Player)
        ensures
            p == self.spec_other(),
    {
        match self {
            Player::One => Player::Two,
            Player::Two => Player::One,
        }
    }
}

/// The position of a system in a game state.
#[derive(Clone, Copy, Debug, PartialEq, Eq, Hash, Structural)]
pub struct SystemId(pub usize);

impl SystemId {
    pub open spec fn spec_index(self) -> usize {
        self.0
    }

    pub fn new(index: usize) -> (id: SystemId)
        ensures
            id.spec_index() == index,
    {
        SystemId(index)
    }

    #[verifier::when_used_as_spec(spec_index)]
    pub fn index(self) -> (i: usize)
        ensures
            i == self.spec_index(),
    {
        self.0
    }
}

/// A game piece: a color, a size and, for a ship, the player who owns it.
#[derive(Clone, Copy, Debug, PartialEq, Eq, Hash, Structural)]
pub struct Piece {
    pub color: Color,
    pub size: Size,
    pub owner: Option<Player>,
}

impl Piece {
    pub open spec fn spec_color(&self) -> Color {
        self.color
    }

    pub open spec fn spec_size(&self) -> Size {
        self.size
    }

    pub open spec fn spec_owner(&self) -> Option<Player> {
        self.owner
    }

    /// The piece with the given fields.
    pub open spec fn make(color: Color, size: Size, owner: Option<Player>) -> Piece {
        Piece { color, size, owner }
    }

    /// Whether two pieces have the same color and size, whoever owns them.
    pub open spec fn same_kind(self, other: Piece) -> bool {
        self.color == other.color && self.size == other.size
    }

    pub fn new(color: Color, size: Size) -> (p: Piece)
        ensures
            p == Piece::make(color, size, None),
    {
        Piece { color, size, owner: None }
    }

    pub fn owned(color: Color, size: Size, owner: Player) -> (p: Piece)
        ensures
            p == Piece::make(color, size, Some(owner)),
    {
        Piece { color, size, owner: Some(owner) }
    }

    #[verifier::when_used_as_spec(spec_color)]
    pub fn color(&self) -> (c: Color)
        ensures
            c == self.color,
    {
        self.color
    }

    #[verifier::when_used_as_spec(spec_size)]
    pub fn size(&self) -> (s: Size)
        ensures
            s == self.size,
    {
        self.size
    }

    #[verifier::when_used_as_spec(spec_owner)]
    pub fn owner(&self) -> (o: Option<Player>)
        ensures
            o == self.owner,
    {
        self.owner
    }

    pub open spec fn spec_is_owned(&self) -> bool {
        self.owner is Some
    }

    #[verifier::when_used_as_spec(spec_is_owned)]
    pub fn is_owned(&self) -> (b: bool)
        ensures
            b == self.spec_is_owned(),
    {
        self.owner.is_some()
    }

    pub open spec fn spec_is_owned_by(&self, player: Player) -> bool {
        self.owner == Some(player)
    }

    #[verifier::when_used_as_spec(spec_is_owned_by)]
    pub fn is_owned_by(&self, player: Player) -> (b: bool)
        ensures
            b == self.spec_is_owned_by(player),
    {
        match self.owner {
            Some(owner) => owner == player,
            None => false,
        }
    }

    pub open spec fn spec_with_owner(self, owner: Player) -> Piece {
        Piece { owner: Some(owner), ..self }
    }

    #[verifier::when_used_as_spec(spec_with_owner)]
    pub fn with_owner(self, owner: Player) -> (p: Piece)
        ensures
            p == self.spec_with_owner(owner),
    {
        Piece { color: self.color, size: self.size, owner: Some(owner) }
    }

    /// The same color and size with no owner.
    pub open spec fn spec_unowned(self) -> Piece {
        Piece { owner: None, ..self }
    }
}

} // verus!
