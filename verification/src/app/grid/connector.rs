use super::Position;
use vstd::prelude::*;

verus! {

/// The kinds of connector that sit on the grid.
#[derive(Debug, Clone, Copy, PartialEq, Eq, Structural)]
pub enum ConnType {
    S,
    I,
    F,
    P,
}

impl ConnType {
    /// The prompt shown for a connector: `modifier` and its letter.
    pub fn get_prompt(&self) -> (s: String)
        ensures
            s@ == match *self {
                ConnType::S => "modifier s"@,
                ConnType::I => "modifier i"@,
                ConnType::F => "modifier f"@,
                ConnType::P => "modifier p"@,
            },
    {
        match self {
            ConnType::S => String::from_str("modifier s"),
            ConnType::I => String::from_str("modifier i"),
            ConnType::F => String::from_str("modifier f"),
            ConnType::P => String::from_str("modifier p"),
        }
    }
}

/// A connector entity at a grid position.
pub struct Connector {
    grid_position: Position,
    pub conn_type: ConnType,
}

impl Connector {
    pub closed spec fn position(&self) -> Position {
        self.grid_position
    }

    pub closed spec fn kind(&self) -> ConnType {
        self.conn_type
    }

    /// A connector of the given type at the origin.
    pub fn new(mod_type: &ConnType) -> (c: Self)
        ensures
            c.kind() == *mod_type,
            c.position() == (Position { x: 0, y: 0 }),
    {
        Connector { grid_position: Position::origin(), conn_type: *mod_type }
    }
}

} // verus!
