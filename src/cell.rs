use vstd::prelude::*;

verus! {

/// An RGB display colour. Black marks a dark module; the other colours are
/// the renderer's tints for the reserved areas.
#[derive(Copy, Clone, Debug, PartialEq, Eq, Structural)]
pub struct Color {
    pub r: u32,
    pub g: u32,
    pub b: u32,
}

/// The classification of a module.
#[derive(Copy, Clone, Debug, PartialEq, Eq, Structural)]
pub enum CellType {
    Finder,
    Alignment,
    Separator,
    Timing,
    DarkModule,
    VersionInformation,
    Format,
    Message,
    Unassigned,
}

/// A pair of coordinates: row first, column second.
#[derive(Copy, Clone, Debug, PartialEq, Eq, Structural)]
pub struct Point<T>(pub T, pub T);

/// One module of the symbol.
#[derive(Copy, Clone, Debug, PartialEq, Eq, Structural)]
pub struct Cell {
    pub module_type: CellType,
    pub value: u8,
    pub point: Point<usize>,
    pub color: Color,
}

/// A module position with the colour a pattern gives it.
#[derive(Copy, Clone, Debug, PartialEq, Eq, Structural)]
pub struct PlotPoint {
    pub point: Point<usize>,
    pub color: Color,
}

pub open spec fn black() -> Color {
    Color { r: 0, g: 0, b: 0 }
}

pub open spec fn white() -> Color {
    Color { r: 255, g: 255, b: 255 }
}

pub open spec fn ring_color(depth: int) -> Color {
    if depth % 2 == 0 {
        black()
    } else {
        white()
    }
}

pub fn black_color() -> (c: Color)
    ensures
        c == black(),
{
    Color { r: 0, g: 0, b: 0 }
}

pub fn white_color() -> (c: Color)
    ensures
        c == white(),
{
    Color { r: 255, g: 255, b: 255 }
}

impl Cell {
    /// A module is dark exactly when its colour is black.
    pub open spec fn dark(&self) -> bool {
        self.color == black()
    }

    pub open spec fn blank(row: usize, col: usize) -> Cell {
        Cell { module_type: CellType::Unassigned, value: 0, point: Point(row, col), color: white() }
    }

    pub fn is_black(&self) -> (r: bool)
        ensures
            r == self.dark(),
    {
        self.color.r == 0 && self.color.g == 0 && self.color.b == 0
    }

    /// An unclassified white module at (row, col).
    pub fn new(row: usize, col: usize) -> (c: Cell)
        ensures
            c == Cell::blank(row, col),
    {
        Cell { module_type: CellType::Unassigned, value: 0, point: Point(row, col), color: white_color() }
    }

    /// True while no pattern or data bit has claimed the module.
    pub fn is_free(&self) -> (r: bool)
        ensures
            r == (self.module_type == CellType::Unassigned),
    {
        match self.module_type {
            CellType::Unassigned => true,
            _ => false,
        }
    }

    pub fn as_point(&self) -> (p: Point<usize>)
        ensures
            p == self.point,
    {
        self.point
    }
}

} // verus!
