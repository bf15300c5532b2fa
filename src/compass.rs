use vstd::prelude::*;

verus! {

/// A point of the 16-point compass rose, or none.
#[derive(Copy, Clone, Debug, PartialEq, Eq, Structural)]
pub enum Direction {
    North,
    NorthNorthEast,
    NorthEast,
    EastNorthEast,
    East,
    EastSouthEast,
    SouthEast,
    SouthSouthEast,
    South,
    SouthSouthWest,
    SouthWest,
    WestSouthWest,
    West,
    WestNorthWest,
    NorthWest,
    NorthNorthWest,
    NoDirection,
}

/// Position of a compass point clockwise from north, 0 to 15; 16 for none.
pub open spec fn point_index(d: Direction) -> int {
    match d {
        Direction::North => 0,
        Direction::NorthNorthEast => 1,
        Direction::NorthEast => 2,
        Direction::EastNorthEast => 3,
        Direction::East => 4,
        Direction::EastSouthEast => 5,
        Direction::SouthEast => 6,
        Direction::SouthSouthEast => 7,
        Direction::South => 8,
        Direction::SouthSouthWest => 9,
        Direction::SouthWest => 10,
        Direction::WestSouthWest => 11,
        Direction::West => 12,
        Direction::WestNorthWest => 13,
        Direction::NorthWest => 14,
        Direction::NorthNorthWest => 15,
        Direction::NoDirection => 16,
    }
}

/// The `k`-th cell, 0 to 15, of the border of a 5 by 5 grid, walking
/// clockwise from the top-left corner; cells are (row, column).
pub open spec fn border_cell(k: int) -> (usize, usize) {
    if k < 4 {
        (0, k as usize)
    } else if k < 8 {
        ((k - 4) as usize, 4)
    } else if k < 12 {
        (4, (12 - k) as usize)
    } else {
        ((16 - k) as usize, 0)
    }
}

impl Direction {
    /// The led of the 5 by 5 display that shows this direction: the border
    /// cell in that direction seen from the centre, or the centre for none.
    pub fn led_index(self) -> (r: (usize, usize))
        ensures
            self == Direction::NoDirection ==> r == (2usize, 2usize),
            self != Direction::NoDirection ==> r == border_cell((point_index(self) + 2) % 16),
    {
        match self {
            Self::North => (0, 2),
            Self::NorthNorthEast => (0, 3),
            Self::NorthEast => (0, 4),
            Self::EastNorthEast => (1, 4),
            Self::East => (2, 4),
            Self::EastSouthEast => (3, 4),
            Self::SouthEast => (4, 4),
            Self::SouthSouthEast => (4, 3),
            Self::South => (4, 2),
            Self::SouthSouthWest => (4, 1),
            Self::SouthWest => (4, 0),
            Self::WestSouthWest => (3, 0),
            Self::West => (2, 0),
            Self::WestNorthWest => (1, 0),
            Self::NorthWest => (0, 0),
            Self::NorthNorthWest => (0, 1),
            Self::NoDirection => (2, 2),
        }
    }

    /// The compass point for a rounded angle `sector`, counted in sixteenths
    /// of a turn from the west, clockwise in screen coordinates.
    pub fn from_sector(sector: u32) -> (r: Direction)
        ensures
            r != Direction::NoDirection,
            point_index(r) == (sector as int + 4) % 16,
    {
        match (sector % 16 + 4) % 16 {
            0 => Self::North,
            1 => Self::NorthNorthEast,
            2 => Self::NorthEast,
            3 => Self::EastNorthEast,
            4 => Self::East,
            5 => Self::EastSouthEast,
            6 => Self::SouthEast,
            7 => Self::SouthSouthEast,
            8 => Self::South,
            9 => Self::SouthSouthWest,
            10 => Self::SouthWest,
            11 => Self::WestSouthWest,
            12 => Self::West,
            13 => Self::WestNorthWest,
            14 => Self::NorthWest,
            _ => Self::NorthNorthWest,
        }
    }
}

} // verus!
