//! What is drawn on a terminal: areas, styled text, and the pieces that a screen is made of.

use ratatui::layout::{Constraint, Direction, Layout, Rect};
use vstd::prelude::*;

use crate::text::{characters, text_of};

verus! {

// ── palette ──────────────────────────────────────────────────────────────────

/// The colours in use.
#[derive(Clone, Copy, Debug, PartialEq, Eq, Structural)]
pub enum Color {
    White,
    DarkGray,
    Yellow,
    LightYellow,
    Cyan,
}

pub const TEXT: Color = Color::White;

pub const MUTED: Color = Color::DarkGray;

pub const BORDER: Color = Color::DarkGray;

pub const ACCENT: Color = Color::Yellow;

pub const WARM: Color = Color::LightYellow;

pub const COOL: Color = Color::Cyan;

/// Marks the column of the present time on the schedule bar.
pub const NOW: Color = Color::White;

/// How text is set.
#[derive(Clone, Copy, Debug, PartialEq, Eq, Structural)]
pub struct Style {
    pub fg: Option<Color>,
    pub bg: Option<Color>,
    pub bold: bool,
    pub reversed: bool,
}

/// Text as the terminal has it.
pub open spec fn unstyled() -> Style {
    Style { fg: None, bg: None, bold: false, reversed: false }
}

/// Text in a colour.
pub open spec fn in_color(color: Color) -> Style {
    Style { fg: Some(color), bg: None, bold: false, reversed: false }
}

/// Bold text in a colour.
pub open spec fn in_bold(color: Color) -> Style {
    Style { fg: Some(color), bg: None, bold: true, reversed: false }
}

/// Bold text on a patch of colour.
pub open spec fn in_reverse(color: Color) -> Style {
    Style { fg: Some(color), bg: None, bold: true, reversed: true }
}

pub fn raw() -> (style: Style)
    ensures
        style == unstyled(),
{
    Style { fg: None, bg: None, bold: false, reversed: false }
}

pub fn colored(color: Color) -> (style: Style)
    ensures
        style == in_color(color),
{
    Style { fg: Some(color), bg: None, bold: false, reversed: false }
}

pub fn bold(color: Color) -> (style: Style)
    ensures
        style == in_bold(color),
{
    Style { fg: Some(color), bg: None, bold: true, reversed: false }
}

pub fn reverse(color: Color) -> (style: Style)
    ensures
        style == in_reverse(color),
{
    Style { fg: Some(color), bg: None, bold: true, reversed: true }
}

// ── text ─────────────────────────────────────────────────────────────────────

/// A piece of text in one style.
#[derive(Debug)]
pub struct Span {
    pub content: String,
    pub style: Style,
}

/// A piece of text as a sequence of characters.
pub struct SpanView {
    pub content: Seq<char>,
    pub style: Style,
}

impl View for Span {
    type V = SpanView;

    open spec fn view(&self) -> SpanView {
        SpanView { content: self.content@, style: self.style }
    }
}

/// A line of text.
pub open spec fn line_view(spans: Seq<Span>) -> Seq<SpanView> {
    Seq::new(spans.len(), |i: int| spans[i]@)
}

/// Lines of text.
pub open spec fn lines_view(lines: Seq<Vec<Span>>) -> Seq<Seq<SpanView>> {
    Seq::new(lines.len(), |i: int| line_view(lines[i]@))
}

/// A piece of text.
pub open spec fn piece(content: Seq<char>, style: Style) -> SpanView {
    SpanView { content, style }
}

/// Makes a piece of text.
pub fn span(content: &str, style: Style) -> (s: Span)
    ensures
        s@ == piece(content@, style),
{
    Span { content: content.to_owned(), style }
}

/// Makes a piece of text of a string.
pub fn owned_span(content: String, style: Style) -> (s: Span)
    ensures
        s@ == piece(content@, style),
{
    Span { content, style }
}

/// One place on a line: a character and its style.
pub struct Cell {
    pub symbol: char,
    pub style: Style,
}

/// One of the places that a piece of text takes up.
pub open spec fn span_cell(part: SpanView, i: int) -> Cell {
    Cell { symbol: part.content[i], style: part.style }
}

/// The places that a piece of text takes up.
pub open spec fn span_cells(part: SpanView) -> Seq<Cell> {
    Seq::new(part.content.len(), |i: int| span_cell(part, i))
}

pub proof fn lemma_span_cells(s: SpanView, symbol: char, n: int)
    requires
        n >= 0,
        s.content == Seq::new(n as nat, |i: int| symbol),
    ensures
        span_cells(s).len() == n,
        forall|i: int|
            0 <= i < n ==> #[trigger] span_cells(s)[i] == (Cell { symbol, style: s.style }),
{
}

/// The places that a line takes up.
pub open spec fn cells(line: Seq<SpanView>) -> Seq<Cell>
    decreases line.len(),
{
    if line.len() == 0 {
        Seq::empty()
    } else {
        cells(line.drop_last()) + span_cells(line.last())
    }
}

/// A text cut to a width, with an ellipsis where something was cut off.
pub open spec fn truncated(text: Seq<char>, width: int) -> Seq<char> {
    if text.len() <= width {
        text
    } else if width <= 0 {
        Seq::empty()
    } else {
        text.take(width - 1).push('…')
    }
}

/// Cuts a text to a width.
pub fn truncate_with_ellipsis(value: &str, width: usize) -> (text: String)
    ensures
        text@ == truncated(value@, width as int),
{
    let chars: Vec<char> = characters(value);
    if chars.len() <= width {
        return value.to_owned();
    }
    if width == 0 {
        return String::new();
    }
    let kept: &[char] = vstd::slice::slice_subrange(chars.as_slice(), 0, width - 1);
    let mut text: String = text_of(kept);
    text.push('…');
    proof {
        assert(kept@ =~= value@.take(width - 1));
    }
    text
}

/// As many spaces.
pub open spec fn spaces(n: int) -> Seq<char> {
    Seq::new(
        if n > 0 {
            n as nat
        } else {
            0
        },
        |i: int| ' ',
    )
}

/// A text with spaces behind it up to a width.
pub open spec fn padded(text: Seq<char>, width: int) -> Seq<char> {
    text + spaces(width - text.len())
}

/// A text with spaces before it up to a width.
pub open spec fn padded_left(text: Seq<char>, width: int) -> Seq<char> {
    spaces(width - text.len()) + text
}

fn blanks(n: usize) -> (text: String)
    ensures
        text@ == spaces(n as int),
{
    let mut text: String = String::new();
    for i in 0..n
        invariant
            text@ == spaces(i as int),
    {
        text.push(' ');
        proof {
            assert(text@ =~= spaces(i + 1));
        }
    }
    text
}

/// Fills a text up with spaces behind it.
pub fn pad(text: &str, width: usize) -> (r: String)
    ensures
        r@ == padded(text@, width as int),
{
    let count: usize = characters(text).len();
    let mut r: String = text.to_owned();
    r.append(
        blanks(
            if width > count {
                width - count
            } else {
                0
            },
        ).as_str(),
    );
    proof {
        assert(spaces(width - count) =~= spaces(
            if width > count {
                width - count
            } else {
                0
            },
        ));
    }
    r
}

/// Fills a text up with spaces before it.
pub fn pad_left(text: &str, width: usize) -> (r: String)
    ensures
        r@ == padded_left(text@, width as int),
{
    let count: usize = characters(text).len();
    let mut r: String = blanks(
        if width > count {
            width - count
        } else {
            0
        },
    );
    r.append(text);
    proof {
        assert(spaces(width - count) =~= spaces(
            if width > count {
                width - count
            } else {
                0
            },
        ));
    }
    r
}

// ── areas ────────────────────────────────────────────────────────────────────

/// A part of the terminal.
#[derive(Clone, Copy, Debug, PartialEq, Eq, Structural)]
pub struct Area {
    pub x: u16,
    pub y: u16,
    pub width: u16,
    pub height: u16,
}

/// A sum of at most 65535.
pub open spec fn capped_sum(a: int, b: int) -> int {
    if a + b <= 65535 {
        a + b
    } else {
        65535
    }
}

/// A difference of at least zero.
pub open spec fn floored_difference(a: int, b: int) -> int {
    if a >= b {
        a - b
    } else {
        0
    }
}

/// Whether an area is what a margin leaves of another: nothing at the origin where it leaves
/// nothing.
pub open spec fn within_margin(area: Area, horizontal: int, vertical: int) -> Area {
    let across = capped_sum(horizontal, horizontal);
    let down = capped_sum(vertical, vertical);
    if area.width < across || area.height < down {
        Area { x: 0, y: 0, width: 0, height: 0 }
    } else {
        Area {
            x: capped_sum(area.x as int, horizontal) as u16,
            y: capped_sum(area.y as int, vertical) as u16,
            width: (area.width - across) as u16,
            height: (area.height - down) as u16,
        }
    }
}

/// The inside of a frame.
pub open spec fn within_frame(area: Area) -> Area {
    let right = capped_sum(area.x as int, area.width as int);
    let bottom = capped_sum(area.y as int, area.height as int);
    Area {
        x: if capped_sum(area.x as int, 1) < right {
            capped_sum(area.x as int, 1) as u16
        } else {
            right as u16
        },
        y: if capped_sum(area.y as int, 1) < bottom {
            capped_sum(area.y as int, 1) as u16
        } else {
            bottom as u16
        },
        width: floored_difference(area.width as int, 2) as u16,
        height: floored_difference(area.height as int, 2) as u16,
    }
}

/// What a line along the bottom leaves of an area.
pub open spec fn above_rule(area: Area) -> Area {
    Area { height: floored_difference(area.height as int, 1) as u16, ..area }
}

/// What is left of an area with a column taken off on either side.
pub open spec fn between_columns(area: Area) -> Area {
    Area {
        x: capped_sum(area.x as int, 1) as u16,
        width: floored_difference(area.width as int, 2) as u16,
        ..area
    }
}

impl Area {
    /// What a margin leaves of the area.
    pub fn inner(self, horizontal: u16, vertical: u16) -> (r: Area)
        ensures
            r == within_margin(self, horizontal as int, vertical as int),
    {
        let across: u16 = horizontal.saturating_add(horizontal);
        let down: u16 = vertical.saturating_add(vertical);
        if self.width < across || self.height < down {
            Area { x: 0, y: 0, width: 0, height: 0 }
        } else {
            Area {
                x: self.x.saturating_add(horizontal),
                y: self.y.saturating_add(vertical),
                width: self.width - across,
                height: self.height - down,
            }
        }
    }

    /// The inside of a frame round the area.
    pub fn framed(self) -> (r: Area)
        ensures
            r == within_frame(self),
    {
        let right: u16 = self.x.saturating_add(self.width);
        let bottom: u16 = self.y.saturating_add(self.height);
        let left: u16 = self.x.saturating_add(1);
        let top: u16 = self.y.saturating_add(1);
        Area {
            x: if left < right {
                left
            } else {
                right
            },
            y: if top < bottom {
                top
            } else {
                bottom
            },
            width: self.width.saturating_sub(2),
            height: self.height.saturating_sub(2),
        }
    }

    /// What a line along the bottom leaves of the area.
    pub fn ruled(self) -> (r: Area)
        ensures
            r == above_rule(self),
    {
        Area { x: self.x, y: self.y, width: self.width, height: self.height.saturating_sub(1) }
    }

    /// The area without its first and its last column.
    pub fn indented(self) -> (r: Area)
        ensures
            r == between_columns(self),
    {
        Area {
            x: self.x.saturating_add(1),
            y: self.y,
            width: self.width.saturating_sub(2),
            height: self.height,
        }
    }
}

/// How much of the length a part of an area takes.
#[derive(Clone, Copy, Debug, PartialEq, Eq, Structural)]
pub enum Limit {
    Length(u16),
    Min(u16),
    Percentage(u16),
    Fill(u16),
}

/// Whether an area has the breadth of another one that was divided into rows or columns.
pub open spec fn across(part: Area, area: Area, rows: bool) -> bool {
    if rows {
        part.x == area.x && part.width == area.width
    } else {
        part.y == area.y && part.height == area.height
    }
}

/// How far an area reaches along its rows, or along its columns. Areas end where coordinates do.
pub open spec fn extent(area: Area, rows: bool) -> int {
    if rows {
        capped_sum(area.y as int, area.height as int) - area.y
    } else {
        capped_sum(area.x as int, area.width as int) - area.x
    }
}

/// A part of an area, of a given length at a given distance from its start.
pub open spec fn part_at(area: Area, rows: bool, distance: int, length: int) -> Area {
    if rows {
        Area { y: (area.y + distance) as u16, height: length as u16, ..area }
    } else {
        Area { x: (area.x + distance) as u16, width: length as u16, ..area }
    }
}

/// What a limit takes of the length: a minimum takes what the others spare as well.
pub open spec fn taken(limit: Limit, spare: int) -> int {
    match limit {
        Limit::Length(n) => n as int,
        Limit::Min(n) => n + spare,
        _ => 0,
    }
}

/// What the first limits take of the length.
pub open spec fn taken_before(limits: Seq<Limit>, count: int, spare: int) -> int
    decreases count,
{
    if count <= 0 {
        0
    } else {
        taken_before(limits, count - 1, spare) + taken(limits[count - 1], spare)
    }
}

/// Whether limits are lengths, with at most one minimum among them.
pub open spec fn is_stack(limits: Seq<Limit>) -> bool {
    &&& forall|i: int|
        0 <= i < limits.len() ==> (#[trigger] limits[i] is Length || limits[i] is Min)
    &&& forall|i: int, j: int|
        0 <= i < j < limits.len() ==> !(#[trigger] limits[i] is Min && #[trigger] limits[j] is Min)
}

/// The parts of an area one behind the other, from its start.
pub open spec fn stacked(area: Area, rows: bool, limits: Seq<Limit>) -> Seq<Area> {
    let spare = extent(area, rows) - taken_before(limits, limits.len() as int, 0);
    Seq::new(
        limits.len(),
        |i: int|
            part_at(area, rows, taken_before(limits, i, spare), taken(limits[i], spare)),
    )
}

/// A part of a given length in the middle of an area, between the parts before and behind it.
pub open spec fn centred(area: Area, rows: bool, length: int) -> Seq<Area> {
    let spare = extent(area, rows) - length;
    let before = (spare + 1) / 2;
    seq![
        part_at(area, rows, 0, before),
        part_at(area, rows, before, length),
        part_at(area, rows, before + length, spare - before),
    ]
}

/// The two halves of what a gap leaves of an area.
pub open spec fn halved(area: Area, rows: bool, gap: int) -> Seq<Area> {
    let spare = extent(area, rows) - gap;
    let first = (spare + 1) / 2;
    seq![part_at(area, rows, 0, first), part_at(area, rows, first + gap, spare - first)]
}

/// Whether an area lies within another.
pub open spec fn lies_within(part: Area, area: Area) -> bool {
    &&& area.x <= part.x && part.x + part.width <= area.x + area.width
    &&& area.y <= part.y && part.y + part.height <= area.y + area.height
}

/// Where an area starts along its rows, or along its columns.
pub open spec fn start_of(area: Area, rows: bool) -> int {
    if rows {
        area.y as int
    } else {
        area.x as int
    }
}

/// Where an area ends along its rows, or along its columns.
pub open spec fn end_of(area: Area, rows: bool) -> int {
    if rows {
        area.y + area.height
    } else {
        area.x + area.width
    }
}

/// Whether a part lies between the start and the end of an area.
pub open spec fn along(part: Area, area: Area, rows: bool) -> bool {
    start_of(area, rows) <= start_of(part, rows) && end_of(part, rows) <= start_of(area, rows)
        + extent(area, rows)
}

/// Whether parts follow each other from the start of an area, without a gap.
pub open spec fn in_a_row(parts: Seq<Area>, area: Area, rows: bool) -> bool {
    &&& parts.len() > 0 ==> start_of(parts[0], rows) == start_of(area, rows)
    &&& forall|i: int, j: int|
        #![trigger parts[i], parts[j]]
        0 <= i && j == i + 1 && j < parts.len() ==> start_of(parts[j], rows) == end_of(
            parts[i],
            rows,
        )
}

/// What is known of a division of an area. Each part has the breadth of the area and lies within
/// it. Lengths, with at most one minimum among them, follow each other. Those that fit in are kept,
/// and the minimum takes the rest; a length that fits in between two shares of equal weight is
/// centred; and two halves lie on either side of a gap that fits in.
pub open spec fn division(
    area: Area,
    rows: bool,
    limits: Seq<Limit>,
    gap: int,
    parts: Seq<Area>,
) -> bool {
    &&& parts.len() == limits.len()
    &&& forall|i: int|
        0 <= i < parts.len() ==> across(#[trigger] parts[i], area, rows) && along(
            parts[i],
            area,
            rows,
        )
    &&& gap == 0 && is_stack(limits) ==> in_a_row(parts, area, rows)
    &&& gap == 0 && is_stack(limits) && taken_before(limits, limits.len() as int, 0) <= extent(
        area,
        rows,
    ) ==> parts == stacked(area, rows, limits)
    &&& gap == 0 && limits.len() == 3 && limits[0] == Limit::Fill(1) && limits[2] == Limit::Fill(1)
        && limits[1] is Length && taken(limits[1], 0) <= extent(area, rows) ==> parts == centred(
        area,
        rows,
        taken(limits[1], 0),
    )
    &&& gap <= extent(area, rows) && limits.len() == 2 && limits[0] == Limit::Percentage(50)
        && limits[1] == Limit::Percentage(50) ==> parts == halved(area, rows, gap)
}

/// Divides an area into rows, or into columns, with a gap between neighbours.
///
/// This is `ratatui`'s `Layout::split` with the default flex, which aligns parts to the start. It
/// claims what [`division`] says of its result. The parts are as many as the limits, have the
/// breadth of the area and lie within it, which the solver has to keep. A stack of lengths with at
/// most one minimum has no gaps, for the solver holds neighbours together before it holds any
/// limit. Where such a stack, a centred length, or two halves have room, the parts are those that
/// keep all limits, rounded to whole cells with halves rounded up. Where there is no room for the
/// limits, how the length is shared out is not stated: the solver, which works on floating-point
/// numbers and walks hash maps, picks among divisions that break limits.
#[verifier::external_body]
pub(crate) fn split(area: Area, rows: bool, limits: &[Limit], gap: u16) -> (parts: Vec<Area>)
    requires
        gap <= 100,
        limits@.len() <= 100,
    ensures
        division(area, rows, limits@, gap as int, parts@),
{
    let direction = if rows { Direction::Vertical } else { Direction::Horizontal };
    let constraints = limits.iter().map(|limit| match *limit {
        Limit::Length(n) => Constraint::Length(n),
        Limit::Min(n) => Constraint::Min(n),
        Limit::Percentage(n) => Constraint::Percentage(n),
        Limit::Fill(n) => Constraint::Fill(n),
    });
    let whole = Rect { x: area.x, y: area.y, width: area.width, height: area.height };
    let parts = Layout::new(direction, constraints).spacing(gap).split(whole);
    let convert = |r: &Rect| Area { x: r.x, y: r.y, width: r.width, height: r.height };
    parts.iter().map(convert).collect()
}

/// The columns of a header: what it says, and how to leave.
pub open spec fn header_columns() -> Seq<Limit> {
    seq![Limit::Min(1), Limit::Length(12)]
}

/// Single rows.
pub open spec fn single_rows(count: nat) -> Seq<Limit> {
    Seq::new(count, |i: int| Limit::Length(1))
}

proof fn lemma_header_columns(spare: int)
    ensures
        is_stack(header_columns()),
        taken_before(header_columns(), 0, spare) == 0,
        taken_before(header_columns(), 1, spare) == 1 + spare,
        taken_before(header_columns(), 2, spare) == 13 + spare,
{
    reveal_with_fuel(taken_before, 3);
}

/// Of rows that follow each other, one ends before any that comes behind it starts.
pub proof fn lemma_in_order(parts: Seq<Area>, area: Area, i: int, j: int)
    requires
        in_a_row(parts, area, true),
        0 <= i < j < parts.len(),
    ensures
        end_of(parts[i], true) <= start_of(parts[j], true),
    decreases j - i,
{
    assert(start_of(parts[i + 1], true) == end_of(parts[i], true));
    if i + 1 < j {
        lemma_in_order(parts, area, i + 1, j);
    }
}

/// Single rows take one row each.
pub proof fn lemma_single_rows(count: nat, i: int, spare: int)
    requires
        0 <= i <= count,
    ensures
        is_stack(single_rows(count)),
        taken_before(single_rows(count), i, spare) == i,
    decreases i,
{
    if i > 0 {
        lemma_single_rows(count, i - 1, spare);
    }
}

/// The columns of a header that is wide enough follow each other.
pub proof fn lemma_columns(area: Area, cells: Seq<Area>)
    requires
        13 <= area.width,
        area.x + area.width <= 65535,
        division(area, false, header_columns(), 0, cells),
    ensures
        cells == stacked(area, false, header_columns()),
        cells[0] == part_at(area, false, 0, area.width - 12),
        cells[1] == part_at(area, false, area.width - 12, 12),
{
    lemma_header_columns(0);
    lemma_header_columns(area.width - 13);
}

// ── drawings ─────────────────────────────────────────────────────────────────

/// Where a line stands in its area.
#[derive(Clone, Copy, Debug, PartialEq, Eq, Structural)]
pub enum Align {
    Left,
    Center,
    Right,
}

/// A piece of a screen.
#[derive(Debug)]
pub enum Drawing {
    /// Sets the colour of the text of an area.
    Base { area: Area, color: Color },
    /// A rounded frame with a title.
    Panel { area: Area, title: Span },
    /// A line along the bottom of an area.
    Rule { area: Area },
    /// A line of text, wrapped if asked to.
    Text { area: Area, line: Vec<Span>, align: Align, wrap: bool },
    /// A bar that is filled to a percentage, behind a label.
    Gauge { area: Area, percent: u8, label: String, color: Color },
    /// Lines of text of which one is selected.
    Rows { area: Area, lines: Vec<Vec<Span>>, selected: Option<usize> },
}

/// A piece of a screen, with texts as sequences of characters.
pub enum DrawingView {
    Base { area: Area, color: Color },
    Panel { area: Area, title: SpanView },
    Rule { area: Area },
    Text { area: Area, line: Seq<SpanView>, align: Align, wrap: bool },
    Gauge { area: Area, percent: u8, label: Seq<char>, color: Color },
    Rows { area: Area, lines: Seq<Seq<SpanView>>, selected: Option<usize> },
}

impl View for Drawing {
    type V = DrawingView;

    open spec fn view(&self) -> DrawingView {
        match *self {
            Drawing::Base { area, color } => DrawingView::Base { area, color },
            Drawing::Panel { area, title } => DrawingView::Panel { area, title: title@ },
            Drawing::Rule { area } => DrawingView::Rule { area },
            Drawing::Text { area, line, align, wrap } => DrawingView::Text {
                area,
                line: line_view(line@),
                align,
                wrap,
            },
            Drawing::Gauge { area, percent, label, color } => DrawingView::Gauge {
                area,
                percent,
                label: label@,
                color,
            },
            Drawing::Rows { area, lines, selected } => DrawingView::Rows {
                area,
                lines: lines_view(lines@),
                selected,
            },
        }
    }
}

/// A screen.
pub open spec fn drawing_views(drawings: Seq<Drawing>) -> Seq<DrawingView> {
    Seq::new(drawings.len(), |i: int| drawings[i]@)
}

/// A line of text at the left of an area.
pub open spec fn text_at(area: Area, line: Seq<SpanView>, align: Align) -> DrawingView {
    DrawingView::Text { area, line, align, wrap: false }
}

/// Makes a line of text.
pub fn text_line(area: Area, line: Vec<Span>, align: Align) -> (drawing: Drawing)
    ensures
        drawing@ == text_at(area, line_view(line@), align),
{
    Drawing::Text { area, line, align, wrap: false }
}

/// A frame with a title in the accent colour.
pub open spec fn panel_at(area: Area, title: Seq<char>) -> DrawingView {
    DrawingView::Panel { area, title: piece(title, in_bold(ACCENT)) }
}

/// Makes a frame with a title in the accent colour.
pub fn panel(area: Area, title: &str) -> (drawing: Drawing)
    ensures
        drawing@ == panel_at(area, title@),
{
    Drawing::Panel { area, title: span(title, bold(ACCENT)) }
}

/// Puts more drawings behind the ones that are there.
pub fn draw_all(drawings: &mut Vec<Drawing>, more: Vec<Drawing>)
    ensures
        drawing_views(final(drawings)@) == drawing_views(old(drawings)@) + drawing_views(more@),
{
    let ghost before = drawings@;
    let mut more: Vec<Drawing> = more;
    let ghost added = more@;
    drawings.append(&mut more);
    proof {
        assert(drawing_views(drawings@) =~= drawing_views(before) + drawing_views(added));
    }
}

/// A key in a list of keys.
pub open spec fn key_piece(label: Seq<char>) -> SpanView {
    piece(" "@ + label + " "@, in_reverse(ACCENT))
}

/// Makes a key in a list of keys.
pub fn key_chip(label: &str) -> (s: Span)
    ensures
        s@ == key_piece(label@),
{
    let mut content: String = " ".to_owned();
    content.append(label);
    content.append(" ");
    owned_span(content, reverse(ACCENT))
}

/// Makes muted text.
pub fn muted(label: &str) -> (s: Span)
    ensures
        s@ == piece(label@, in_color(MUTED)),
{
    span(label, colored(MUTED))
}

/// The reminder of the key that quits.
pub open spec fn quit_line() -> Seq<SpanView> {
    seq![piece("[ q ]"@, in_bold(ACCENT)), piece(" Quit"@, in_color(MUTED))]
}

/// Makes the reminder of the key that quits.
pub fn quit_reminder(area: Area) -> (drawing: Drawing)
    ensures
        drawing@ == text_at(area, quit_line(), Align::Right),
{
    let line: Vec<Span> = vec![span("[ q ]", bold(ACCENT)), muted(" Quit")];
    proof {
        assert(line_view(line@) =~= quit_line());
    }
    text_line(area, line, Align::Right)
}

/// A framed help text with its title.
pub open spec fn help_box(area: Area, title: Seq<char>, help: Seq<char>) -> Seq<DrawingView> {
    seq![
        panel_at(area, " HELP "@),
        DrawingView::Text {
            area: between_columns(within_frame(area)),
            line: seq![
                piece(" i "@, in_bold(ACCENT)),
                piece(" "@, unstyled()),
                piece(title + ". "@, in_bold(TEXT)),
                piece(help, in_color(MUTED)),
            ],
            align: Align::Left,
            wrap: true,
        },
    ]
}

/// Makes a framed help text.
pub fn render_help(area: Area, title: &str, help: &str) -> (drawings: Vec<Drawing>)
    ensures
        drawing_views(drawings@) == help_box(area, title@, help@),
{
    let mut heading: String = title.to_owned();
    heading.append(". ");
    let line: Vec<Span> = vec![
        span(" i ", bold(ACCENT)),
        span(" ", raw()),
        owned_span(heading, bold(TEXT)),
        muted(help),
    ];
    proof {
        assert(line_view(line@) =~= seq![
            piece(" i "@, in_bold(ACCENT)),
            piece(" "@, unstyled()),
            piece(title@ + ". "@, in_bold(TEXT)),
            piece(help@, in_color(MUTED)),
        ]);
    }
    let drawings: Vec<Drawing> = vec![
        panel(area, " HELP "),
        Drawing::Text { area: area.framed().indented(), line, align: Align::Left, wrap: true },
    ];
    proof {
        assert(drawing_views(drawings@) =~= help_box(area, title@, help@));
    }
    drawings
}

/// A screen that is too small.
pub open spec fn too_small(area: Area, message: Seq<char>) -> Seq<DrawingView> {
    seq![
        DrawingView::Base { area, color: TEXT },
        text_at(area, seq![piece(message, in_color(ACCENT))], Align::Center),
    ]
}

/// Makes a screen that is too small.
pub fn render_too_small(area: Area, message: &str) -> (drawings: Vec<Drawing>)
    ensures
        drawing_views(drawings@) == too_small(area, message@),
{
    let line: Vec<Span> = vec![span(message, colored(ACCENT))];
    proof {
        assert(line_view(line@) =~= seq![piece(message@, in_color(ACCENT))]);
    }
    let drawings: Vec<Drawing> = vec![
        Drawing::Base { area, color: TEXT },
        text_line(area, line, Align::Center),
    ];
    proof {
        assert(drawing_views(drawings@) =~= too_small(area, message@));
    }
    drawings
}

/// A text that fits is shown as it is. One that does not is cut to the width, with an ellipsis for
/// what is missing.
pub proof fn cut_texts_end_in_an_ellipsis(text: Seq<char>, width: int)
    requires
        width >= 0,
    ensures
        text.len() <= width ==> truncated(text, width) == text,
        text.len() > width && width > 0 ==> {
            let cut = truncated(text, width);
            &&& cut.len() == width
            &&& cut[width - 1] == '…'
            &&& forall|i: int| 0 <= i < width - 1 ==> #[trigger] cut[i] == text[i]
        },
        text.len() > 0 && width == 0 ==> truncated(text, width).len() == 0,
{
}

/// A text is filled up to a width with spaces, behind it or before it; a longer one stays.
pub proof fn filled_texts_have_the_width(text: Seq<char>, width: int)
    ensures
        ({
            let long = if text.len() < width {
                width
            } else {
                text.len() as int
            };
            &&& padded(text, width).len() == long
            &&& padded_left(text, width).len() == long
            &&& padded(text, width).take(text.len() as int) == text
            &&& padded_left(text, width).skip(long - text.len()) == text
            &&& forall|i: int| text.len() <= i < long ==> #[trigger] padded(text, width)[i] == ' '
            &&& forall|i: int|
                0 <= i < long - text.len() ==> #[trigger] padded_left(text, width)[i] == ' '
        }),
{
    assert(padded(text, width).take(text.len() as int) =~= text);
    let long = if text.len() < width {
        width
    } else {
        text.len() as int
    };
    assert(padded_left(text, width).skip(long - text.len()) =~= text);
}

/// Help stands inside its frame, with its title before it, over as many lines as it takes. A screen
/// that is too small says so and shows nothing else.
pub proof fn help_and_warnings_are_shown_in_full(
    area: Area,
    title: Seq<char>,
    help: Seq<char>,
    message: Seq<char>,
)
    ensures
        ({
            let drawings = help_box(area, title, help);
            &&& drawings.len() == 2
            &&& drawings[0] matches DrawingView::Panel { area: frame, .. } && frame == area
            &&& drawings[1] matches DrawingView::Text { line, wrap, .. } && wrap && line.len() == 4
                && line[2].content == title + ". "@ && line[3].content == help
        }),
        ({
            let drawings = too_small(area, message);
            &&& drawings.len() == 2
            &&& drawings[0] is Base
            &&& drawings[1] matches DrawingView::Text { area: place, line, .. } && place == area
                && line.len() == 1 && line[0].content == message
        }),
{
}

/// A line takes up the places of its pieces, one behind the other, each character in the style of
/// its piece.
pub proof fn lines_take_up_their_characters(line: Seq<SpanView>, part: SpanView)
    ensures
        cells(Seq::empty()).len() == 0,
        cells(line.push(part)).len() == cells(line).len() + part.content.len(),
        forall|i: int|
            0 <= i < cells(line).len() ==> #[trigger] cells(line.push(part))[i] == cells(line)[i],
        forall|i: int|
            0 <= i < part.content.len() ==> (#[trigger] cells(line.push(part))[cells(line).len()
                + i]) == (Cell { symbol: part.content[i], style: part.style }),
{
    assert(line.push(part).drop_last() =~= line);
    assert(line.push(part).last() == part);
}

/// A frame takes up one column on either side and one row above and below.
pub proof fn frames_are_one_cell_wide(area: Area)
    requires
        area.x + area.width <= 65535,
        area.y + area.height <= 65535,
        area.width >= 2,
        area.height >= 2,
    ensures
        within_frame(area).x == area.x + 1,
        within_frame(area).y == area.y + 1,
        within_frame(area).x + within_frame(area).width == area.x + area.width - 1,
        within_frame(area).y + within_frame(area).height == area.y + area.height - 1,
{
}

}
