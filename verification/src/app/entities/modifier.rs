use crate::app::grid::Position;
use vstd::prelude::*;

verus! {

/// The kinds of modifier that sit on the grid.
#[derive(Debug, Clone, Copy, PartialEq, Eq, Structural)]
pub enum ModType {
    S,
    I,
    F,
    P,
    V,
}

impl ModType {
    /// The prompt shown for a modifier: `modifier` and its letter.
    pub fn get_prompt(&self) -> (s: String)
        ensures
            s@ == match *self {
                ModType::S => "modifier s"@,
                ModType::I => "modifier i"@,
                ModType::F => "modifier f"@,
                ModType::P => "modifier p"@,
                ModType::V => "modifier v"@,
            },
    {
        match self {
            ModType::S => String::from_str("modifier s"),
            ModType::I => String::from_str("modifier i"),
            ModType::F => String::from_str("modifier f"),
            ModType::P => String::from_str("modifier p"),
            ModType::V => String::from_str("modifier v"),
        }
    }
}

/// A modifier entity at a grid position.
pub struct Modifier {
    grid_position: Position,
    pub mod_type: ModType,
}

impl Modifier {
    pub closed spec fn position(&self) -> Position {
        self.grid_position
    }

    pub closed spec fn kind(&self) -> ModType {
        self.mod_type
    }

    /// A modifier of the given type at the origin.
    pub fn new(mod_type: &ModType) -> (m: Self)
        ensures
            m.kind() == *mod_type,
            m.position() == (Position { x: 0, y: 0 }),
    {
        Modifier { grid_position: Position::origin(), mod_type: *mod_type }
    }
}

} // verus!
