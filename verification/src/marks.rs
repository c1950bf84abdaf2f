//! What a page puts on the glass: texts, lines and filled shapes, in the order they are painted.
//!
//! A page's picture is a list of these. Later marks cover earlier ones, so the order is part of the
//! picture.

use vstd::prelude::*;

use crate::symbols::Stroke;
use crate::theme::Color;

verus! {

/// Which part of a text its `x` is.
#[derive(Debug, Clone, Copy, PartialEq, Eq, Structural)]
pub enum Align {
    Left,
    Center,
    Right,
}

/// Which part of a text its `y` is.
#[derive(Debug, Clone, Copy, PartialEq, Eq, Structural)]
pub enum Baseline {
    Top,
    Middle,
    Bottom,
}

/// How a text is written.
#[derive(Debug, Clone, Copy, PartialEq, Eq, Structural)]
pub struct Style {
    pub colour: Color,
    pub size: i64,
    pub align: Align,
    pub baseline: Baseline,
}

impl Style {
    /// A style.
    pub fn new(colour: Color, size: i64, align: Align, baseline: Baseline) -> (r: Style)
        ensures
            r == (Style { colour, size, align, baseline }),
    {
        Style { colour, size, align, baseline }
    }
}

/// A rectangle.
#[derive(Debug, Clone, Copy, PartialEq, Eq, Structural)]
pub struct Area {
    pub x: i64,
    pub y: i64,
    pub w: i64,
    pub h: i64,
}

/// One thing on the glass.
#[derive(Debug)]
pub enum Mark {
    Text { x: i64, y: i64, text: String, style: Style },
    /// A straight line. Lines that follow each other in one colour and width are one path.
    Line { from: (i64, i64), to: (i64, i64), colour: Color, width: i64 },
    /// A filled rectangle, its corners rounded by this much.
    Fill { area: Area, corner: i64, colour: Color },
    /// The outline of a rectangle.
    Frame { area: Area, corner: i64, colour: Color, width: i64 },
    /// A filled polygon.
    Shape { points: Vec<(i64, i64)>, colour: Color },
    /// The outline of a polygon.
    Outline { points: Vec<(i64, i64)>, colour: Color, width: i64 },
    /// The outline of an area on the ground, dashed or not. Those that follow each other in one
    /// colour and width are one path.
    Boundary { points: Vec<(i64, i64)>, colour: Color, width: i64, dashed: bool },
    /// A filled circle.
    Disc { at: (i64, i64), radius: i64, colour: Color },
    /// A circle.
    Ring { at: (i64, i64), radius: i64, colour: Color, width: i64 },
    /// A symbol of this size about the point marks are placed from: its outline this wide, or
    /// filled.
    Symbol { outline: Vec<Stroke>, size: i64, colour: Color, width: Option<i64> },
    /// Nothing outside this shows until [`Mark::Unclip`].
    Clip { area: Area },
    Unclip,
    /// Until [`Mark::Unturn`], marks are placed from this point, turned clockwise about it by an
    /// angle, and then moved down by a length along the turned picture.
    Turn { at: (i64, i64), mdeg: i64, down: i64 },
    Unturn,
}

/// What a mark looks like.
#[verifier::ext_equal]
pub ghost enum Painted {
    Text { x: int, y: int, text: Seq<char>, style: Style },
    Line { from: (int, int), to: (int, int), colour: Color, width: int },
    Fill { x: int, y: int, w: int, h: int, corner: int, colour: Color },
    Frame { x: int, y: int, w: int, h: int, corner: int, colour: Color, width: int },
    Shape { points: Seq<(i64, i64)>, colour: Color },
    Outline { points: Seq<(i64, i64)>, colour: Color, width: int },
    Boundary { points: Seq<(i64, i64)>, colour: Color, width: int, dashed: bool },
    Disc { at: (int, int), radius: int, colour: Color },
    Ring { at: (int, int), radius: int, colour: Color, width: int },
    Symbol { outline: Seq<Stroke>, size: int, colour: Color, width: Option<i64> },
    Clip { x: int, y: int, w: int, h: int },
    Unclip,
    Turn { at: (int, int), mdeg: int, down: int },
    Unturn,
}

impl View for Mark {
    type V = Painted;

    open spec fn view(&self) -> Painted {
        match *self {
            Mark::Text { x, y, text, style } => Painted::Text {
                x: x as int,
                y: y as int,
                text: text@,
                style,
            },
            Mark::Line { from, to, colour, width } => Painted::Line {
                from: (from.0 as int, from.1 as int),
                to: (to.0 as int, to.1 as int),
                colour,
                width: width as int,
            },
            Mark::Fill { area, corner, colour } => Painted::Fill {
                x: area.x as int,
                y: area.y as int,
                w: area.w as int,
                h: area.h as int,
                corner: corner as int,
                colour,
            },
            Mark::Frame { area, corner, colour, width } => Painted::Frame {
                x: area.x as int,
                y: area.y as int,
                w: area.w as int,
                h: area.h as int,
                corner: corner as int,
                colour,
                width: width as int,
            },
            Mark::Shape { points, colour } => Painted::Shape { points: points@, colour },
            Mark::Outline { points, colour, width } => Painted::Outline {
                points: points@,
                colour,
                width: width as int,
            },
            Mark::Boundary { points, colour, width, dashed } => Painted::Boundary {
                points: points@,
                colour,
                width: width as int,
                dashed,
            },
            Mark::Disc { at, radius, colour } => Painted::Disc {
                at: (at.0 as int, at.1 as int),
                radius: radius as int,
                colour,
            },
            Mark::Ring { at, radius, colour, width } => Painted::Ring {
                at: (at.0 as int, at.1 as int),
                radius: radius as int,
                colour,
                width: width as int,
            },
            Mark::Symbol { outline, size, colour, width } => Painted::Symbol {
                outline: outline@,
                size: size as int,
                colour,
                width,
            },
            Mark::Clip { area } => Painted::Clip {
                x: area.x as int,
                y: area.y as int,
                w: area.w as int,
                h: area.h as int,
            },
            Mark::Unclip => Painted::Unclip,
            Mark::Turn { at, mdeg, down } => Painted::Turn {
                at: (at.0 as int, at.1 as int),
                mdeg: mdeg as int,
                down: down as int,
            },
            Mark::Unturn => Painted::Unturn,
        }
    }
}

/// A text.
pub open spec fn text_at(x: int, y: int, text: Seq<char>, style: Style) -> Painted {
    Painted::Text { x, y, text, style }
}

/// A line.
pub open spec fn stroke(from: (int, int), to: (int, int), colour: Color, width: int) -> Painted {
    Painted::Line { from, to, colour, width }
}

/// A filled square-cornered rectangle.
pub open spec fn block(x: int, y: int, w: int, h: int, colour: Color) -> Painted {
    Painted::Fill { x, y, w, h, corner: 0, colour }
}

/// What a list of marks looks like.
pub open spec fn drawn(list: Seq<Mark>) -> Seq<Painted> {
    Seq::new(list.len(), |i: int| list[i]@)
}

/// No marks.
pub fn nothing() -> (r: Vec<Mark>)
    ensures
        r@.len() == 0,
        drawn(r@) == Seq::<Painted>::empty(),
{
    let r: Vec<Mark> = Vec::new();
    assert(drawn(r@) =~= Seq::<Painted>::empty());
    r
}

/// Paint one more mark over a list.
pub fn put(out: &mut Vec<Mark>, mark: Mark)
    ensures
        drawn(final(out)@) == drawn(old(out)@).push(mark@),
{
    let ghost was = drawn(out@);
    out.push(mark);
    assert(drawn(out@) =~= was.push(mark@));
}

/// Write a text over a list.
pub fn put_text(out: &mut Vec<Mark>, x: i64, y: i64, text: &str, style: Style)
    ensures
        drawn(final(out)@) == drawn(old(out)@).push(text_at(x as int, y as int, text@, style)),
{
    let mut copy: String = String::new();
    copy.append(text);
    assert(copy@ =~= text@);
    put(out, Mark::Text { x, y, text: copy, style });
}

/// Draw a line over a list.
pub fn put_line(out: &mut Vec<Mark>, from: (i64, i64), to: (i64, i64), colour: Color, width: i64)
    ensures
        drawn(final(out)@) == drawn(old(out)@).push(
            stroke(
                (from.0 as int, from.1 as int),
                (to.0 as int, to.1 as int),
                colour,
                width as int,
            ),
        ),
{
    put(out, Mark::Line { from, to, colour, width });
}

/// Fill a square-cornered rectangle over a list.
pub fn put_fill(out: &mut Vec<Mark>, x: i64, y: i64, w: i64, h: i64, colour: Color)
    ensures
        drawn(final(out)@) == drawn(old(out)@).push(
            block(x as int, y as int, w as int, h as int, colour),
        ),
{
    put(out, Mark::Fill { area: Area { x, y, w, h }, corner: 0, colour });
}

/// Paint all of another list over a list.
pub fn put_all(out: &mut Vec<Mark>, more: Vec<Mark>)
    ensures
        drawn(final(out)@) == drawn(old(out)@) + drawn(more@),
{
    let ghost was = out@;
    let ghost added = more@;
    let mut more: Vec<Mark> = more;
    out.append(&mut more);
    assert(drawn(out@) =~= drawn(was) + drawn(added));
}

} // verus!
