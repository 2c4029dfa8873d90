//! What the settings interface draws in a terminal.

use vstd::prelude::*;

use crate::config::{clock_text, Schedule, ScheduleTiming, Settings, SettingsView};
use crate::gamma::{kelvin, warmth_to_kelvin};
use crate::protocol::RuntimeView;
use crate::schedule::{resolved, LocalTime, ResolvedTimes, Sky};
use crate::screen::{
    above_rule, across, along, bold, cells, colored, division, draw_all, drawing_views,
    floored_difference, halved, header_columns, help_box, in_a_row, in_bold, in_color, in_reverse,
    is_stack, key_chip, key_piece, lemma_columns, lemma_in_order, lemma_single_rows,
    lemma_span_cells, lies_within, line_view, lines_view, muted, owned_span, pad, pad_left, padded,
    padded_left, panel, panel_at, part_at, piece, quit_line, quit_reminder, raw, render_help,
    render_too_small, reverse, single_rows, span, span_cells, split, stacked, taken_before,
    text_at, text_line, too_small, truncate_with_ellipsis, truncated, unstyled, within_frame,
    within_margin, Align, Area, Cell, Color, Drawing, DrawingView, Limit, Span, SpanView, Style,
    ACCENT, COOL, MUTED, NOW, TEXT, WARM,
};
use crate::text::{characters, decimal, decimal_text, join, joined, texts};
use crate::tui::{
    field_row, selected_help, shared_field, shown_notice, switches, App, AppView, Field,
};
use crate::ui_common::{
    backend_status, backend_text, format_hhmm, help_of, phase_glyph, shown_phase, TimelinePhase,
    TimelineView,
};

verus! {

// ── areas ────────────────────────────────────────────────────────────────────

/// Where the parts of the screen are.
#[derive(Clone, Copy, Debug, PartialEq, Eq)]
pub struct ScreenAreas {
    pub header: Area,
    pub metrics: Area,
    pub timeline: Area,
    pub settings: Area,
    pub help: Option<Area>,
    pub notice: Area,
    pub footer: Area,
    pub compact: bool,
}

/// The parts of a screen, from the rows that it is divided into. A low screen goes without help and
/// without blank rows.
pub open spec fn assigned_areas(rows: Seq<Area>, compact: bool) -> ScreenAreas {
    if compact {
        ScreenAreas {
            header: rows[0],
            metrics: rows[1],
            timeline: rows[2],
            settings: rows[3],
            help: None,
            notice: rows[4],
            footer: rows[5],
            compact,
        }
    } else {
        ScreenAreas {
            header: rows[0],
            metrics: rows[2],
            timeline: rows[4],
            settings: rows[6],
            help: Some(rows[8]),
            notice: rows[9],
            footer: rows[10],
            compact,
        }
    }
}

/// The rows that a screen is divided into.
pub open spec fn screen_limits(compact: bool) -> Seq<Limit> {
    if compact {
        seq![
            Limit::Length(2),
            Limit::Length(3),
            Limit::Length(3),
            Limit::Min(14),
            Limit::Length(1),
            Limit::Length(1),
        ]
    } else {
        seq![
            Limit::Length(3),
            Limit::Length(1),
            Limit::Length(6),
            Limit::Length(1),
            Limit::Length(5),
            Limit::Length(1),
            Limit::Min(12),
            Limit::Length(1),
            Limit::Length(3),
            Limit::Length(1),
            Limit::Length(1),
        ]
    }
}

/// Whether the parts of a screen are the rows that its area is divided into.
pub open spec fn areas_fit(areas: ScreenAreas, area: Area) -> bool {
    let compact = area.height < 34;
    exists|rows: Seq<Area>| #[trigger]
        division(area, true, screen_limits(compact), 0, rows) && areas == assigned_areas(
            rows,
            compact,
        )
}

/// Divides the rows of a screen among its parts.
pub fn assign_areas(rows: &[Area], compact: bool) -> (areas: ScreenAreas)
    requires
        rows@.len() == (if compact {
            6int
        } else {
            11
        }),
    ensures
        areas == assigned_areas(rows@, compact),
{
    if compact {
        ScreenAreas {
            header: rows[0],
            metrics: rows[1],
            timeline: rows[2],
            settings: rows[3],
            help: None,
            notice: rows[4],
            footer: rows[5],
            compact,
        }
    } else {
        ScreenAreas {
            header: rows[0],
            metrics: rows[2],
            timeline: rows[4],
            settings: rows[6],
            help: Some(rows[8]),
            notice: rows[9],
            footer: rows[10],
            compact,
        }
    }
}

/// Divides a screen into its parts.
pub fn screen_areas(area: Area) -> (areas: ScreenAreas)
    ensures
        areas_fit(areas, area),
{
    if area.height < 34 {
        let limits: Vec<Limit> = vec![
            Limit::Length(2),
            Limit::Length(3),
            Limit::Length(3),
            Limit::Min(14),
            Limit::Length(1),
            Limit::Length(1),
        ];
        let rows: Vec<Area> = split(area, true, limits.as_slice(), 0);
        proof {
            assert(limits@ =~= screen_limits(true));
            assert(division(area, true, screen_limits(true), 0, rows@));
        }
        assign_areas(rows.as_slice(), true)
    } else {
        let limits: Vec<Limit> = vec![
            Limit::Length(3),
            Limit::Length(1),
            Limit::Length(6),
            Limit::Length(1),
            Limit::Length(5),
            Limit::Length(1),
            Limit::Min(12),
            Limit::Length(1),
            Limit::Length(3),
            Limit::Length(1),
            Limit::Length(1),
        ];
        let rows: Vec<Area> = split(area, true, limits.as_slice(), 0);
        proof {
            assert(limits@ =~= screen_limits(false));
            assert(division(area, true, screen_limits(false), 0, rows@));
        }
        assign_areas(rows.as_slice(), false)
    }
}

// ── header ───────────────────────────────────────────────────────────────────

/// Where the parts of the header are: one row for everything, or one for the title and one for the
/// status.
#[derive(Clone, Copy, Debug, PartialEq, Eq)]
pub struct HeaderParts {
    pub area: Area,
    pub main: Area,
    pub keys: Area,
    pub status: Option<Area>,
}

/// Whether the parts of a header are those that its area is divided into.
pub open spec fn header_fits(parts: HeaderParts, area: Area) -> bool {
    let inner = above_rule(area);
    if inner.height <= 1 {
        exists|cells: Seq<Area>| #[trigger]
            division(inner, false, header_columns(), 0, cells) && parts == (HeaderParts {
                area,
                main: cells[0],
                keys: cells[1],
                status: None,
            })
    } else {
        exists|rows: Seq<Area>, cells: Seq<Area>|
            #![trigger division(inner, true, single_rows(2), 0, rows), division(rows[0], false, header_columns(), 0, cells)]
            division(inner, true, single_rows(2), 0, rows) && division(
                rows[0],
                false,
                header_columns(),
                0,
                cells,
            ) && parts == (HeaderParts {
                area,
                main: cells[0],
                keys: cells[1],
                status: Some(rows[1]),
            })
    }
}

/// Divides the header.
pub fn header_parts(area: Area) -> (parts: HeaderParts)
    ensures
        header_fits(parts, area),
{
    let inner: Area = area.ruled();
    let columns: Vec<Limit> = vec![Limit::Min(1), Limit::Length(12)];
    proof {
        assert(columns@ =~= header_columns());
    }
    if inner.height <= 1 {
        let cells: Vec<Area> = split(inner, false, columns.as_slice(), 0);
        proof {
            assert(division(inner, false, header_columns(), 0, cells@));
        }
        return HeaderParts { area, main: cells[0], keys: cells[1], status: None };
    }
    let limits: Vec<Limit> = vec![Limit::Length(1), Limit::Length(1)];
    let rows: Vec<Area> = split(inner, true, limits.as_slice(), 0);
    let cells: Vec<Area> = split(rows[0], false, columns.as_slice(), 0);
    proof {
        assert(limits@ =~= single_rows(2));
        assert(division(inner, true, single_rows(2), 0, rows@));
        assert(division(rows@[0], false, header_columns(), 0, cells@));
    }
    HeaderParts { area, main: cells[0], keys: cells[1], status: Some(rows[1]) }
}

/// The outputs in a row.
pub open spec fn outputs_text(outputs: Seq<Seq<char>>) -> Seq<char> {
    if outputs.len() == 0 {
        "No displays detected"@
    } else {
        joined(outputs, "  ·  "@)
    }
}

/// The colour of the backend's status.
pub open spec fn status_color(transient: bool, available: bool) -> Color {
    if !available {
        ACCENT
    } else if transient {
        WARM
    } else {
        COOL
    }
}

/// The backend's status with a space on either side.
pub open spec fn status_chip(app: AppView) -> SpanView {
    piece(
        " "@ + backend_text(app.transient, app.backend_available) + " "@,
        in_reverse(status_color(app.transient, app.backend_available)),
    )
}

/// The header of the interface.
pub open spec fn header_drawings(app: AppView, parts: HeaderParts) -> Seq<DrawingView> {
    let chip = status_chip(app);
    let outputs = outputs_text(app.state.outputs);
    match parts.status {
        None => seq![
            DrawingView::Rule { area: parts.area },
            text_at(
                parts.main,
                seq![
                    piece(" WAYWARM "@, in_bold(ACCENT)),
                    chip,
                    piece(" "@, in_color(MUTED)),
                    piece(
                        truncated(
                            outputs,
                            floored_difference(
                                parts.main.width as int,
                                9int + chip.content.len() + 1,
                            ),
                        ),
                        in_color(TEXT),
                    ),
                ],
                Align::Left,
            ),
            text_at(parts.keys, quit_line(), Align::Right),
        ],
        Some(status) => seq![
            DrawingView::Rule { area: parts.area },
            text_at(
                parts.main,
                seq![
                    piece(" WAYWARM "@, in_bold(ACCENT)),
                    piece("·"@, in_color(MUTED)),
                    piece(" dashboard "@, in_color(MUTED)),
                ],
                Align::Left,
            ),
            text_at(parts.keys, quit_line(), Align::Right),
            text_at(
                status,
                seq![
                    piece(" DAEMON "@, in_color(MUTED)),
                    chip,
                    piece("  OUTPUTS "@, in_color(MUTED)),
                    piece(
                        truncated(
                            outputs,
                            floored_difference(status.width as int, 8int + chip.content.len() + 10),
                        ),
                        in_color(TEXT),
                    ),
                ],
                Align::Left,
            ),
        ],
    }
}

/// The outputs in a row.
pub fn outputs_line(outputs: &Vec<String>) -> (line: String)
    ensures
        line@ == outputs_text(texts(outputs@)),
{
    if outputs.len() == 0 {
        "No displays detected".to_owned()
    } else {
        join(outputs.as_slice(), "  ·  ")
    }
}

fn backend_chip(app: &App) -> (chip: Span)
    ensures
        chip@ == status_chip(app@),
{
    let color: Color = if !app.backend_available {
        ACCENT
    } else if app.transient {
        WARM
    } else {
        COOL
    };
    let mut content: String = " ".to_owned();
    content.append(backend_status(app.transient, app.backend_available));
    content.append(" ");
    owned_span(content, reverse(color))
}

proof fn lemma_chip_is_short(app: AppView)
    ensures
        status_chip(app).content.len() <= 11,
{
    reveal_strlit("OFFLINE");
    reveal_strlit("TEMPORARY");
    reveal_strlit("ONLINE");
    reveal_strlit(" ");
    assert("OFFLINE"@.len() == 7);
    assert("TEMPORARY"@.len() == 9);
    assert("ONLINE"@.len() == 6);
    assert(" "@.len() == 1);
}

fn room(width: u16, taken: usize) -> (left: usize)
    requires
        taken <= 65535,
    ensures
        left == floored_difference(width as int, taken as int),
{
    if width as usize >= taken {
        width as usize - taken
    } else {
        0
    }
}

/// Draws the header.
pub fn render_header(app: &App, parts: HeaderParts) -> (drawings: Vec<Drawing>)
    ensures
        drawing_views(drawings@) == header_drawings(app@, parts),
{
    let outputs: String = outputs_line(&app.state.outputs);
    let chip: Span = backend_chip(app);
    let taken: usize = characters(chip.content.as_str()).len();
    proof {
        lemma_chip_is_short(app@);
    }
    match parts.status {
        None => {
            let shown: String = truncate_with_ellipsis(
                outputs.as_str(),
                room(parts.main.width, 9 + taken + 1),
            );
            let line: Vec<Span> = vec![
                span(" WAYWARM ", bold(ACCENT)),
                chip,
                muted(" "),
                owned_span(shown, colored(TEXT)),
            ];
            let ghost views = line_view(line@);
            let drawings: Vec<Drawing> = vec![
                Drawing::Rule { area: parts.area },
                text_line(parts.main, line, Align::Left),
                quit_reminder(parts.keys),
            ];
            proof {
                let wanted = header_drawings(app@, parts);
                assert(views =~= wanted[1]->Text_line);
                assert(drawing_views(drawings@) =~= wanted);
            }
            drawings
        },
        Some(status) => {
            let title: Vec<Span> = vec![
                span(" WAYWARM ", bold(ACCENT)),
                muted("·"),
                muted(" dashboard "),
            ];
            let shown: String = truncate_with_ellipsis(
                outputs.as_str(),
                room(status.width, 8 + taken + 10),
            );
            let line: Vec<Span> = vec![
                muted(" DAEMON "),
                chip,
                muted("  OUTPUTS "),
                owned_span(shown, colored(TEXT)),
            ];
            let ghost titles = line_view(title@);
            let ghost views = line_view(line@);
            let drawings: Vec<Drawing> = vec![
                Drawing::Rule { area: parts.area },
                text_line(parts.main, title, Align::Left),
                quit_reminder(parts.keys),
                text_line(status, line, Align::Left),
            ];
            proof {
                let wanted = header_drawings(app@, parts);
                assert(titles =~= wanted[1]->Text_line);
                assert(views =~= wanted[3]->Text_line);
                assert(drawing_views(drawings@) =~= wanted);
            }
            drawings
        },
    }
}

// ── metrics ──────────────────────────────────────────────────────────────────

/// Where the parts of a metric are: one row for the bar with its value, two rows for the value and
/// the bar, or four rows with a scale.
#[derive(Clone, Copy, Debug, PartialEq, Eq)]
pub enum MetricRows {
    One { bar: Area },
    Two { value: Area, bar: Area },
    Four { value: Area, bar: Area, scale: Area, width: u16 },
}

/// A metric's frame and what is in it.
#[derive(Clone, Copy, Debug, PartialEq, Eq)]
pub struct MetricParts {
    pub area: Area,
    pub rows: MetricRows,
}

/// Whether the parts of a metric are those that its area is divided into.
pub open spec fn metric_fits(parts: MetricParts, area: Area, compact: bool) -> bool {
    let inner = within_frame(area);
    let content = within_margin(inner, 2, 0);
    if compact && inner.height <= 1 {
        parts == (MetricParts { area, rows: MetricRows::One { bar: inner } })
    } else if compact {
        exists|rows: Seq<Area>| #[trigger]
            division(inner, true, single_rows(2), 0, rows) && parts == (MetricParts {
                area,
                rows: MetricRows::Two { value: rows[0], bar: rows[1] },
            })
    } else {
        exists|rows: Seq<Area>| #[trigger]
            division(content, true, single_rows(4), 0, rows) && parts == (MetricParts {
                area,
                rows: MetricRows::Four {
                    value: rows[0],
                    bar: rows[2],
                    scale: rows[3],
                    width: content.width,
                },
            })
    }
}

/// Divides a metric.
pub fn metric_parts(area: Area, compact: bool) -> (parts: MetricParts)
    ensures
        metric_fits(parts, area, compact),
{
    let inner: Area = area.framed();
    let one: Limit = Limit::Length(1);
    if compact {
        if inner.height <= 1 {
            return MetricParts { area, rows: MetricRows::One { bar: inner } };
        }
        let limits: Vec<Limit> = vec![one, one];
        let rows: Vec<Area> = split(inner, true, limits.as_slice(), 0);
        proof {
            assert(limits@ =~= single_rows(2));
            assert(division(inner, true, single_rows(2), 0, rows@));
        }
        return MetricParts { area, rows: MetricRows::Two { value: rows[0], bar: rows[1] } };
    }
    let content: Area = inner.inner(2, 0);
    let limits: Vec<Limit> = vec![one, one, one, one];
    let rows: Vec<Area> = split(content, true, limits.as_slice(), 0);
    proof {
        assert(limits@ =~= single_rows(4));
        assert(division(content, true, single_rows(4), 0, rows@));
    }
    MetricParts {
        area,
        rows: MetricRows::Four {
            value: rows[0],
            bar: rows[2],
            scale: rows[3],
            width: content.width,
        },
    }
}

/// A metric.
pub open spec fn metric_drawings(
    parts: MetricParts,
    title: Seq<char>,
    value: Seq<char>,
    percent: u8,
    color: Color,
) -> Seq<DrawingView> {
    let frame = DrawingView::Panel { area: parts.area, title: piece(title, in_bold(color)) };
    match parts.rows {
        MetricRows::One { bar } => seq![
            frame,
            DrawingView::Gauge { area: bar, percent, label: value, color },
        ],
        MetricRows::Two { value: row, bar } => seq![
            frame,
            text_at(row, seq![piece(value, in_bold(TEXT))], Align::Center),
            DrawingView::Gauge { area: bar, percent, label: ""@, color },
        ],
        MetricRows::Four { value: row, bar, scale, width } => seq![
            frame,
            text_at(
                row,
                seq![piece("CURRENT  "@, in_color(MUTED)), piece(value, in_bold(TEXT))],
                Align::Left,
            ),
            DrawingView::Gauge { area: bar, percent, label: ""@, color },
            text_at(
                scale,
                seq![
                    piece("0%"@, in_color(MUTED)),
                    piece(
                        padded_left("100%"@, floored_difference(width as int, 2)),
                        in_color(MUTED),
                    ),
                ],
                Align::Left,
            ),
        ],
    }
}

/// Draws a metric.
pub fn render_metric(
    parts: MetricParts,
    title: &str,
    value: String,
    percent: u8,
    color: Color,
) -> (drawings: Vec<Drawing>)
    ensures
        drawing_views(drawings@) == metric_drawings(parts, title@, value@, percent, color),
{
    let ghost wanted = metric_drawings(parts, title@, value@, percent, color);
    let frame: Drawing = Drawing::Panel { area: parts.area, title: span(title, bold(color)) };
    match parts.rows {
        MetricRows::One { bar } => {
            let drawings: Vec<Drawing> = vec![
                frame,
                Drawing::Gauge { area: bar, percent, label: value, color },
            ];
            proof {
                assert(drawing_views(drawings@) =~= wanted);
            }
            drawings
        },
        MetricRows::Two { value: row, bar } => {
            let line: Vec<Span> = vec![owned_span(value, bold(TEXT))];
            let ghost views = line_view(line@);
            let drawings: Vec<Drawing> = vec![
                frame,
                text_line(row, line, Align::Center),
                Drawing::Gauge { area: bar, percent, label: "".to_owned(), color },
            ];
            proof {
                assert(views =~= wanted[1]->Text_line);
                assert(drawing_views(drawings@) =~= wanted);
            }
            drawings
        },
        MetricRows::Four { value: row, bar, scale, width } => {
            let line: Vec<Span> = vec![muted("CURRENT  "), owned_span(value, bold(TEXT))];
            let ends: Vec<Span> = vec![
                muted("0%"),
                owned_span(pad_left("100%", room(width, 2)), colored(MUTED)),
            ];
            let ghost views = line_view(line@);
            let ghost end_views = line_view(ends@);
            let drawings: Vec<Drawing> = vec![
                frame,
                text_line(row, line, Align::Left),
                Drawing::Gauge { area: bar, percent, label: "".to_owned(), color },
                text_line(scale, ends, Align::Left),
            ];
            proof {
                assert(views =~= wanted[1]->Text_line);
                assert(end_views =~= wanted[3]->Text_line);
                assert(drawing_views(drawings@) =~= wanted);
            }
            drawings
        },
    }
}

/// A percentage.
pub open spec fn percent_text(percent: u8) -> Seq<char> {
    decimal_text(percent as int) + "%"@
}

/// A warmth with its colour temperature.
pub open spec fn warmth_text(warmth: u8) -> Seq<char> {
    decimal_text(warmth as int) + "%  ·  "@ + decimal_text(kelvin(warmth)) + " K"@
}

/// Writes a percentage.
pub fn format_percent(percent: u8) -> (text: String)
    ensures
        text@ == percent_text(percent),
{
    let mut text: String = decimal(percent as u32);
    text.append("%");
    text
}

/// Writes a warmth with its colour temperature.
pub fn format_warmth(warmth: u8) -> (text: String)
    ensures
        text@ == warmth_text(warmth),
{
    let mut text: String = decimal(warmth as u32);
    text.append("%  ·  ");
    text.append(decimal(warmth_to_kelvin(warmth) as u32).as_str());
    text.append(" K");
    text
}

/// The metrics of the interface: the warmth and the brightness that are in force.
pub open spec fn metrics_drawings(
    state: RuntimeView,
    warmth: MetricParts,
    brightness: MetricParts,
) -> Seq<DrawingView> {
    metric_drawings(
        warmth,
        " WARMTH "@,
        warmth_text(state.active_warmth),
        state.active_warmth,
        WARM,
    ) + metric_drawings(
        brightness,
        " BRIGHTNESS "@,
        percent_text(state.active_brightness),
        state.active_brightness,
        ACCENT,
    )
}

/// Draws the metrics.
pub fn render_metrics(app: &App, warmth: MetricParts, brightness: MetricParts) -> (drawings: Vec<
    Drawing,
>)
    ensures
        drawing_views(drawings@) == metrics_drawings(app@.state, warmth, brightness),
{
    let mut drawings: Vec<Drawing> = render_metric(
        warmth,
        " WARMTH ",
        format_warmth(app.state.active_warmth),
        app.state.active_warmth,
        WARM,
    );
    draw_all(
        &mut drawings,
        render_metric(
            brightness,
            " BRIGHTNESS ",
            format_percent(app.state.active_brightness),
            app.state.active_brightness,
            ACCENT,
        ),
    );
    drawings
}

// ── timeline ─────────────────────────────────────────────────────────────────

/// The colour of a phase.
pub open spec fn phase_color(phase: TimelinePhase, active: bool) -> Color {
    if !active {
        MUTED
    } else {
        match phase {
            TimelinePhase::Day => COOL,
            TimelinePhase::Night => WARM,
            _ => ACCENT,
        }
    }
}

/// The colour of a phase.
pub fn color_of(phase: TimelinePhase, active: bool) -> (color: Color)
    ensures
        color == phase_color(phase, active),
{
    if !active {
        return MUTED;
    }
    match phase {
        TimelinePhase::Day => COOL,
        TimelinePhase::Night => WARM,
        TimelinePhase::EveningFade | TimelinePhase::MorningFade => ACCENT,
    }
}

/// The character that a phase is drawn with.
pub open spec fn phase_symbol(phase: TimelinePhase) -> char {
    phase_glyph(phase)[0]
}

/// A phase is drawn with one character, so that a bar is as wide as it has columns.
pub proof fn glyphs_are_single(phase: TimelinePhase)
    ensures
        phase_glyph(phase) == seq![phase_symbol(phase)],
{
    reveal_strlit("█");
    reveal_strlit("▒");
    assert(phase_glyph(phase) =~= seq![phase_symbol(phase)]);
}

/// The minute that a column of a bar stands for.
pub open spec fn column_minute(column: int, width: int) -> int {
    column * 1440 / width
}

/// The column that a minute falls into.
pub open spec fn minute_column(minute: int, width: int) -> int {
    if minute * width / 1440 < width - 1 {
        minute * width / 1440
    } else {
        width - 1
    }
}

/// A column of the bar: the phase of its minute, highlighted where the present time falls into it.
pub open spec fn bar_cell(view: TimelineView, active: bool, column: int, width: int) -> Cell {
    let phase = shown_phase(view.segments@, column_minute(column, width));
    Cell {
        symbol: phase_symbol(phase),
        style: if column == minute_column(view.now_minute as int, width) {
            Style {
                fg: Some(NOW),
                bg: Some(phase_color(phase, active)),
                bold: true,
                reversed: false,
            }
        } else {
            in_color(phase_color(phase, active))
        },
    }
}

/// The columns of the bar.
pub open spec fn bar_cells(view: TimelineView, active: bool, width: int) -> Seq<Cell> {
    Seq::new(width as nat, |column: int| bar_cell(view, active, column, width))
}

fn symbol_of(phase: TimelinePhase) -> (symbol: char)
    ensures
        symbol == phase_symbol(phase),
{
    proof {
        reveal_strlit("█");
        reveal_strlit("▒");
    }
    match phase {
        TimelinePhase::Day | TimelinePhase::Night => '█',
        TimelinePhase::EveningFade | TimelinePhase::MorningFade => '▒',
    }
}

fn minute_at(column: usize, width: usize) -> (minute: u16)
    requires
        column < width <= 65535,
    ensures
        minute == column_minute(column as int, width as int),
        minute < 1440,
{
    proof {
        assert(column * 1440 / (width as int) < 1440) by (nonlinear_arith)
            requires
                0 <= column < width,
        ;
        assert(column * 1440 / (width as int) >= 0) by (nonlinear_arith)
            requires
                0 <= column < width,
        ;
    }
    ((column as u32 * 1440) / width as u32) as u16
}

proof fn lemma_cells_push(line: Seq<SpanView>, last: SpanView)
    ensures
        cells(line.push(last)) == cells(line) + span_cells(last),
{
    assert(line.push(last).drop_last() =~= line);
}

/// Draws the bar of a day. Columns of the same look are put into one piece.
pub fn render_timeline_bar(width: usize, timeline: &TimelineView, active: bool) -> (line: Vec<Span>)
    requires
        width <= 65535,
    ensures
        cells(line_view(line@)) == bar_cells(*timeline, active, width as int),
{
    let mut line: Vec<Span> = Vec::new();
    proof {
        assert(line_view(line@) =~= Seq::<SpanView>::empty());
        assert(bar_cells(*timeline, active, 0) =~= Seq::<Cell>::empty());
    }
    if width == 0 {
        return line;
    }
    proof {
        assert(timeline.now_minute * width <= 65535 * 65535) by (nonlinear_arith)
            requires
                timeline.now_minute <= 65535,
                0 <= width <= 65535,
        ;
    }
    let mut now: usize = (timeline.now_minute as u32 * width as u32 / 1440) as usize;
    if now > width - 1 {
        now = width - 1;
    }
    let mut column: usize = 0;
    while column < width
        invariant
            0 < width <= 65535,
            column <= width,
            now == minute_column(timeline.now_minute as int, width as int),
            cells(line_view(line@)) == bar_cells(*timeline, active, width as int).take(
                column as int,
            ),
        decreases width - column,
    {
        let ghost before = line_view(line@);
        let phase: TimelinePhase = timeline.phase_at(minute_at(column, width));
        let symbol: char = symbol_of(phase);
        let style: Style = if column == now {
            Style { fg: Some(NOW), bg: Some(color_of(phase, active)), bold: true, reversed: false }
        } else {
            colored(color_of(phase, active))
        };
        let mut content: String = String::new();
        content.push(symbol);
        let mut end: usize = column + 1;
        proof {
            assert(content@ =~= Seq::new(1, |i: int| symbol));
        }
        while end < width && column != now && end != now && timeline.phase_at(
            minute_at(end, width),
        ) == phase
            invariant
                0 < width <= 65535,
                column < end <= width,
                now == minute_column(timeline.now_minute as int, width as int),
                phase == shown_phase(
                    timeline.segments@,
                    column_minute(column as int, width as int),
                ),
                symbol == phase_symbol(phase),
                column == now ==> end == column + 1,
                style == bar_cell(*timeline, active, column as int, width as int).style,
                content@ == Seq::new((end - column) as nat, |i: int| symbol),
                forall|c: int|
                    column <= c < end ==> #[trigger] bar_cell(*timeline, active, c, width as int)
                        == (Cell { symbol, style }),
            decreases width - end,
        {
            content.push(symbol);
            proof {
                assert(bar_cell(*timeline, active, end as int, width as int) == (Cell {
                    symbol,
                    style,
                }));
                assert(content@ =~= Seq::new((end + 1 - column) as nat, |i: int| symbol));
            }
            end = end + 1;
        }
        let last: Span = owned_span(content, style);
        let ghost added = last@;
        line.push(last);
        proof {
            assert(line_view(line@) =~= before.push(added));
            lemma_cells_push(before, added);
            let all = bar_cells(*timeline, active, width as int);
            let drawn = cells(before) + span_cells(added);
            assert(cells(before) == all.take(column as int));
            assert(all.take(column as int).len() == column);
            lemma_span_cells(added, symbol, end - column);
            assert forall|c: int| 0 <= c < end implies drawn[c] == all.take(end as int)[c] by {
                if c < column {
                    assert(drawn[c] == all.take(column as int)[c]);
                } else {
                    assert(drawn[c] == span_cells(added)[c - column]);
                    assert(bar_cell(*timeline, active, c, width as int) == (Cell { symbol, style }));
                }
            }
            assert(drawn =~= all.take(end as int));
        }
        column = end;
    }
    proof {
        let all = bar_cells(*timeline, active, width as int);
        assert(all.take(width as int) =~= all);
    }
    line
}

/// Where the parts of the timeline are: one row for the bar, two rows with a legend, or three rows
/// with a heading.
#[derive(Clone, Copy, Debug, PartialEq, Eq)]
pub enum TimelineRows {
    One { bar: Area },
    Two { bar: Area, legend: Area },
    Three { heading: Area, bar: Area, legend: Area },
}

/// The timeline's frame and what is in it.
#[derive(Clone, Copy, Debug, PartialEq, Eq)]
pub struct TimelineParts {
    pub area: Area,
    pub inner: Area,
    pub compact: bool,
    pub rows: TimelineRows,
}

/// Whether the parts of a timeline are those that its area is divided into.
pub open spec fn timeline_fits(parts: TimelineParts, area: Area, compact: bool) -> bool {
    let inner = within_frame(area);
    if inner.height <= 1 {
        parts == (TimelineParts { area, inner, compact, rows: TimelineRows::One { bar: inner } })
    } else if compact {
        exists|rows: Seq<Area>| #[trigger]
            division(inner, true, single_rows(2), 0, rows) && parts == (TimelineParts {
                area,
                inner,
                compact,
                rows: TimelineRows::Two { bar: rows[0], legend: rows[1] },
            })
    } else {
        exists|rows: Seq<Area>| #[trigger]
            division(inner, true, single_rows(3), 0, rows) && parts == (TimelineParts {
                area,
                inner,
                compact,
                rows: TimelineRows::Three { heading: rows[0], bar: rows[1], legend: rows[2] },
            })
    }
}

/// Divides the timeline.
pub fn timeline_parts(area: Area, compact: bool) -> (parts: TimelineParts)
    ensures
        timeline_fits(parts, area, compact),
{
    let inner: Area = area.framed();
    let one: Limit = Limit::Length(1);
    if inner.height <= 1 {
        return TimelineParts { area, inner, compact, rows: TimelineRows::One { bar: inner } };
    }
    if compact {
        let limits: Vec<Limit> = vec![one, one];
        let rows: Vec<Area> = split(inner, true, limits.as_slice(), 0);
        proof {
            assert(limits@ =~= single_rows(2));
            assert(division(inner, true, single_rows(2), 0, rows@));
        }
        return TimelineParts {
            area,
            inner,
            compact,
            rows: TimelineRows::Two { bar: rows[0], legend: rows[1] },
        };
    }
    let limits: Vec<Limit> = vec![one, one, one];
    let rows: Vec<Area> = split(inner, true, limits.as_slice(), 0);
    proof {
        assert(limits@ =~= single_rows(3));
        assert(division(inner, true, single_rows(3), 0, rows@));
    }
    TimelineParts {
        area,
        inner,
        compact,
        rows: TimelineRows::Three { heading: rows[0], bar: rows[1], legend: rows[2] },
    }
}

/// Where the bar of a timeline is.
pub open spec fn bar_area(parts: TimelineParts) -> Area {
    match parts.rows {
        TimelineRows::One { bar } => bar,
        TimelineRows::Two { bar, .. } => bar,
        TimelineRows::Three { bar, .. } => bar,
    }
}

/// The title of the timeline.
pub open spec fn timeline_title(
    view: Option<TimelineView>,
    active: bool,
    compact: bool,
) -> Seq<char> {
    match view {
        Some(view) => if !active {
            " TODAY · inactive "@
        } else if compact {
            " TODAY · day "@ + clock_text(view.day_start as int % 1440) + " · night "@
                + clock_text(view.night_start as int % 1440) + " "@
        } else {
            " TODAY "@
        },
        None => " TODAY "@,
    }
}

/// The legend of a timeline on two rows.
pub open spec fn short_legend(view: TimelineView) -> Seq<char> {
    " day "@ + clock_text(view.day_start as int % 1440) + " · night "@ + clock_text(
        view.night_start as int % 1440,
    ) + " · fade "@ + decimal_text(view.transition_minutes as int) + "m · now "@ + clock_text(
        view.now_minute as int % 1440,
    )
}

/// The legend of a timeline on three rows.
pub open spec fn long_legend(view: TimelineView) -> Seq<char> {
    "  Day begins "@ + clock_text(view.day_start as int % 1440) + "   Night begins "@ + clock_text(
        view.night_start as int % 1440,
    ) + "   Fade "@ + decimal_text(view.transition_minutes as int) + " min   Now "@ + clock_text(
        view.now_minute as int % 1440,
    )
}

/// A phase in the heading of a timeline.
pub open spec fn phase_piece(phase: TimelinePhase, active: bool) -> SpanView {
    piece(
        match phase {
            TimelinePhase::Day => " day "@,
            TimelinePhase::Night => " night "@,
            _ => " fade "@,
        },
        Style {
            fg: Some(
                if active {
                    TEXT
                } else {
                    MUTED
                },
            ),
            bg: Some(phase_color(phase, active)),
            bold: false,
            reversed: false,
        },
    )
}

/// The timeline of the interface; `bar` is its bar.
pub open spec fn timeline_drawings(
    parts: TimelineParts,
    view: Option<TimelineView>,
    active: bool,
    bar: Seq<SpanView>,
) -> Seq<DrawingView> {
    let frame = panel_at(parts.area, timeline_title(view, active, parts.compact));
    match view {
        None => seq![
            frame,
            text_at(
                parts.inner,
                seq![piece("Schedule times are invalid"@, in_color(ACCENT))],
                Align::Center,
            ),
        ],
        Some(view) => match parts.rows {
            TimelineRows::One { bar: row } => seq![frame, text_at(row, bar, Align::Left)],
            TimelineRows::Two { bar: row, legend } => seq![
                frame,
                text_at(row, bar, Align::Left),
                text_at(legend, seq![piece(short_legend(view), in_color(MUTED))], Align::Left),
            ],
            TimelineRows::Three { heading, bar: row, legend } => seq![
                frame,
                text_at(
                    heading,
                    seq![
                        piece("  24h schedule"@, in_color(MUTED)),
                        piece("  ·  "@, in_color(MUTED)),
                        phase_piece(TimelinePhase::Day, active),
                        piece(" "@, unstyled()),
                        phase_piece(TimelinePhase::EveningFade, active),
                        piece(" "@, unstyled()),
                        phase_piece(TimelinePhase::Night, active),
                    ],
                    Align::Left,
                ),
                text_at(row, bar, Align::Left),
                text_at(legend, seq![piece(long_legend(view), in_color(MUTED))], Align::Left),
            ],
        },
    }
}

/// Whether a bar is that of a timeline.
pub open spec fn is_bar(
    bar: Seq<SpanView>,
    parts: TimelineParts,
    view: Option<TimelineView>,
    active: bool,
) -> bool {
    view matches Some(view) ==> cells(bar) == bar_cells(
        view,
        active,
        bar_area(parts).width as int,
    )
}

/// Draws a phase in the heading of a timeline.
pub fn phase_legend(phase: TimelinePhase, active: bool) -> (s: Span)
    ensures
        s@ == phase_piece(phase, active),
{
    let label: &str = match phase {
        TimelinePhase::Day => " day ",
        TimelinePhase::Night => " night ",
        TimelinePhase::EveningFade | TimelinePhase::MorningFade => " fade ",
    };
    span(
        label,
        Style {
            fg: Some(
                if active {
                    TEXT
                } else {
                    MUTED
                },
            ),
            bg: Some(color_of(phase, active)),
            bold: false,
            reversed: false,
        },
    )
}

fn title_of(view: &Option<TimelineView>, active: bool, compact: bool) -> (title: String)
    ensures
        title@ == timeline_title(*view, active, compact),
{
    match view {
        Some(view) => if !active {
            " TODAY · inactive ".to_owned()
        } else if compact {
            let mut title: String = " TODAY · day ".to_owned();
            title.append(format_hhmm(view.day_start).as_str());
            title.append(" · night ");
            title.append(format_hhmm(view.night_start).as_str());
            title.append(" ");
            title
        } else {
            " TODAY ".to_owned()
        },
        None => " TODAY ".to_owned(),
    }
}

fn format_short_legend(view: &TimelineView) -> (legend: String)
    ensures
        legend@ == short_legend(*view),
{
    let mut legend: String = " day ".to_owned();
    legend.append(format_hhmm(view.day_start).as_str());
    legend.append(" · night ");
    legend.append(format_hhmm(view.night_start).as_str());
    legend.append(" · fade ");
    legend.append(decimal(view.transition_minutes as u32).as_str());
    legend.append("m · now ");
    legend.append(format_hhmm(view.now_minute).as_str());
    legend
}

fn format_long_legend(view: &TimelineView) -> (legend: String)
    ensures
        legend@ == long_legend(*view),
{
    let mut legend: String = "  Day begins ".to_owned();
    legend.append(format_hhmm(view.day_start).as_str());
    legend.append("   Night begins ");
    legend.append(format_hhmm(view.night_start).as_str());
    legend.append("   Fade ");
    legend.append(decimal(view.transition_minutes as u32).as_str());
    legend.append(" min   Now ");
    legend.append(format_hhmm(view.now_minute).as_str());
    legend
}

fn muted_line(content: String) -> (line: Vec<Span>)
    ensures
        line_view(line@) == seq![piece(content@, in_color(MUTED))],
{
    let ghost text = content@;
    let line: Vec<Span> = vec![owned_span(content, colored(MUTED))];
    proof {
        assert(line_view(line@) =~= seq![piece(text, in_color(MUTED))]);
    }
    line
}

/// Draws the timeline of a day, if its schedule has valid times.
pub fn render_timeline(parts: TimelineParts, view: &Option<TimelineView>, active: bool) -> (drawings: Vec<
    Drawing,
>)
    ensures
        exists|bar: Seq<SpanView>| #[trigger]
            is_bar(bar, parts, *view, active) && drawing_views(drawings@) == timeline_drawings(
                parts,
                *view,
                active,
                bar,
            ),
{
    let title: String = title_of(view, active, parts.compact);
    let frame: Drawing = panel(parts.area, title.as_str());
    let view: &TimelineView = match view {
        Some(view) => view,
        None => {
            let line: Vec<Span> = vec![span("Schedule times are invalid", colored(ACCENT))];
            let ghost views = line_view(line@);
            let drawings: Vec<Drawing> = vec![frame, text_line(parts.inner, line, Align::Center)];
            proof {
                let bar = Seq::<SpanView>::empty();
                let wanted = timeline_drawings(parts, *view, active, bar);
                assert(is_bar(bar, parts, *view, active));
                assert(views =~= wanted[1]->Text_line);
                assert(drawing_views(drawings@) =~= wanted);
            }
            return drawings;
        },
    };
    match parts.rows {
        TimelineRows::One { bar: row } => {
            let bar: Vec<Span> = render_timeline_bar(row.width as usize, view, active);
            let ghost bar_view = line_view(bar@);
            let drawings: Vec<Drawing> = vec![frame, text_line(row, bar, Align::Left)];
            proof {
                let wanted = timeline_drawings(parts, Some(*view), active, bar_view);
                assert(is_bar(bar_view, parts, Some(*view), active));
                assert(drawing_views(drawings@) =~= wanted);
            }
            drawings
        },
        TimelineRows::Two { bar: row, legend } => {
            let bar: Vec<Span> = render_timeline_bar(row.width as usize, view, active);
            let ghost bar_view = line_view(bar@);
            let drawings: Vec<Drawing> = vec![
                frame,
                text_line(row, bar, Align::Left),
                text_line(legend, muted_line(format_short_legend(view)), Align::Left),
            ];
            proof {
                let wanted = timeline_drawings(parts, Some(*view), active, bar_view);
                assert(is_bar(bar_view, parts, Some(*view), active));
                assert(drawing_views(drawings@) =~= wanted);
            }
            drawings
        },
        TimelineRows::Three { heading, bar: row, legend } => {
            let phases: Vec<Span> = vec![
                muted("  24h schedule"),
                muted("  ·  "),
                phase_legend(TimelinePhase::Day, active),
                span(" ", raw()),
                phase_legend(TimelinePhase::EveningFade, active),
                span(" ", raw()),
                phase_legend(TimelinePhase::Night, active),
            ];
            let ghost phase_views = line_view(phases@);
            let bar: Vec<Span> = render_timeline_bar(row.width as usize, view, active);
            let ghost bar_view = line_view(bar@);
            let drawings: Vec<Drawing> = vec![
                frame,
                text_line(heading, phases, Align::Left),
                text_line(row, bar, Align::Left),
                text_line(legend, muted_line(format_long_legend(view)), Align::Left),
            ];
            proof {
                let wanted = timeline_drawings(parts, Some(*view), active, bar_view);
                assert(is_bar(bar_view, parts, Some(*view), active));
                assert(phase_views =~= wanted[1]->Text_line);
                assert(drawing_views(drawings@) =~= wanted);
            }
            drawings
        },
    }
}

// ── settings ─────────────────────────────────────────────────────────────────

/// A heading in the list of settings.
pub open spec fn group_line(label: Seq<char>, active: bool) -> Seq<SpanView> {
    seq![
        piece(
            label,
            in_bold(
                if active {
                    ACCENT
                } else {
                    MUTED
                },
            ),
        ),
    ]
}

/// A setting in the list: what can be moved stands between arrows, what is switched in brackets.
pub open spec fn value_line(
    label: Seq<char>,
    value: Seq<char>,
    active: bool,
    accent: bool,
    adjustable: bool,
) -> Seq<SpanView> {
    seq![
        piece(
            padded(label, 22),
            in_color(
                if active {
                    TEXT
                } else {
                    MUTED
                },
            ),
        ),
        piece(
            if adjustable {
                "‹ "@ + value + " ›"@
            } else {
                "[ "@ + value + " ]"@
            },
            in_bold(
                if !active {
                    MUTED
                } else if accent {
                    ACCENT
                } else {
                    TEXT
                },
            ),
        ),
    ]
}

/// A blank line, in a roomy list.
pub open spec fn blank_line(spacious: bool) -> Seq<Seq<SpanView>> {
    if spacious {
        seq![Seq::empty()]
    } else {
        Seq::empty()
    }
}

/// The general settings as they are listed.
pub open spec fn general_lines(settings: SettingsView) -> Seq<Seq<SpanView>> {
    let mode = if settings.automatic {
        "AUTOMATIC"@
    } else {
        "MANUAL"@
    };
    let filter = if settings.enabled {
        "ON"@
    } else {
        "OFF"@
    };
    seq![
        group_line("GENERAL"@, true),
        value_line("Mode"@, mode, true, true, false),
        value_line("Filter"@, filter, true, settings.enabled, false),
    ]
}

/// The manual levels as they are listed.
pub open spec fn manual_lines(settings: SettingsView) -> Seq<Seq<SpanView>> {
    let manual = settings.enabled && !settings.automatic;
    seq![
        group_line("MANUAL OVERRIDE"@, manual),
        value_line("Warmth"@, warmth_text(settings.manual.warmth), manual, false, true),
        value_line("Brightness"@, percent_text(settings.manual.brightness), manual, false, true),
    ]
}

/// The schedule as it is listed, given the coordinates with two decimals. What does not count under
/// its timing is not moved.
pub open spec fn schedule_lines(
    settings: SettingsView,
    latitude: Seq<char>,
    longitude: Seq<char>,
) -> Seq<Seq<SpanView>> {
    let schedule = settings.schedule;
    let scheduled = schedule_runs(settings);
    let located = scheduled && schedule.timing == ScheduleTiming::Location;
    let clocked = scheduled && schedule.timing == ScheduleTiming::Fixed;
    let timing = match schedule.timing {
        ScheduleTiming::Fixed => "FIXED"@,
        ScheduleTiming::Location => "LOCATION"@,
    };
    seq![
        group_line("SCHEDULE"@, scheduled),
        value_line("Timing"@, timing, scheduled, true, false),
        value_line("Day warmth"@, warmth_text(schedule.day.warmth), scheduled, false, true),
        value_line("Day brightness"@, percent_text(schedule.day.brightness), scheduled, false, true),
        value_line("Night warmth"@, warmth_text(schedule.night.warmth), scheduled, false, true),
        value_line(
            "Night brightness"@,
            percent_text(schedule.night.brightness),
            scheduled,
            false,
            true,
        ),
        value_line("Night begins"@, schedule.night_start, scheduled, false, clocked),
        value_line("Day begins"@, schedule.day_start, scheduled, false, clocked),
        value_line("Latitude"@, latitude + "°"@, located, false, located),
        value_line("Longitude"@, longitude + "°"@, located, false, located),
        value_line(
            "Fade duration"@,
            decimal_text(schedule.transition_minutes as int) + " min"@,
            scheduled,
            false,
            true,
        ),
    ]
}

/// The settings as they are listed, given the coordinates with two decimals.
pub open spec fn settings_lines(
    settings: SettingsView,
    spacious: bool,
    latitude: Seq<char>,
    longitude: Seq<char>,
) -> Seq<Seq<SpanView>> {
    general_lines(settings) + blank_line(spacious) + manual_lines(settings) + blank_line(spacious)
        + schedule_lines(settings, latitude, longitude)
}

/// The list of settings of the interface.
pub open spec fn settings_drawings(
    area: Area,
    settings: SettingsView,
    selected: Field,
    latitude: Seq<char>,
    longitude: Seq<char>,
) -> Seq<DrawingView> {
    let inner = within_frame(area);
    let spacious = inner.height >= 19;
    seq![
        panel_at(area, " CONTROLS "@),
        DrawingView::Rows {
            area: inner,
            lines: settings_lines(settings, spacious, latitude, longitude),
            selected: Some(field_row(selected, spacious) as usize),
        },
    ]
}

fn group_item(label: &str, active: bool) -> (line: Vec<Span>)
    ensures
        line_view(line@) == group_line(label@, active),
{
    let line: Vec<Span> = vec![
        span(
            label,
            bold(
                if active {
                    ACCENT
                } else {
                    MUTED
                },
            ),
        ),
    ];
    proof {
        assert(line_view(line@) =~= group_line(label@, active));
    }
    line
}

fn value_item(label: &str, value: &str, active: bool, accent: bool, adjustable: bool) -> (line: Vec<
    Span,
>)
    ensures
        line_view(line@) == value_line(label@, value@, active, accent, adjustable),
{
    let mut shown: String = if adjustable {
        "‹ ".to_owned()
    } else {
        "[ ".to_owned()
    };
    shown.append(value);
    shown.append(
        if adjustable {
            " ›"
        } else {
            " ]"
        },
    );
    let base: Color = if active {
        TEXT
    } else {
        MUTED
    };
    let color: Color = if !active {
        MUTED
    } else if accent {
        ACCENT
    } else {
        TEXT
    };
    let line: Vec<Span> = vec![
        owned_span(pad(label, 22), colored(base)),
        owned_span(shown, bold(color)),
    ];
    proof {
        assert(line_view(line@) =~= value_line(label@, value@, active, accent, adjustable));
    }
    line
}

fn with_degrees(number: &str) -> (text: String)
    ensures
        text@ == number@ + "°"@,
{
    let mut text: String = number.to_owned();
    text.append("°");
    text
}

fn format_minutes(minutes: u16) -> (text: String)
    ensures
        text@ == decimal_text(minutes as int) + " min"@,
{
    let mut text: String = decimal(minutes as u32);
    text.append(" min");
    text
}

fn general_items(settings: &Settings) -> (lines: Vec<Vec<Span>>)
    ensures
        lines_view(lines@) == general_lines(settings@),
{
    let mode: &str = if settings.automatic {
        "AUTOMATIC"
    } else {
        "MANUAL"
    };
    let filter: &str = if settings.enabled {
        "ON"
    } else {
        "OFF"
    };
    let lines: Vec<Vec<Span>> = vec![
        group_item("GENERAL", true),
        value_item("Mode", mode, true, true, false),
        value_item("Filter", filter, true, settings.enabled, false),
    ];
    proof {
        assert(lines_view(lines@) =~= general_lines(settings@));
    }
    lines
}

fn manual_items(settings: &Settings) -> (lines: Vec<Vec<Span>>)
    ensures
        lines_view(lines@) == manual_lines(settings@),
{
    let manual: bool = settings.enabled && !settings.automatic;
    let warmth: String = format_warmth(settings.manual.warmth);
    let brightness: String = format_percent(settings.manual.brightness);
    let lines: Vec<Vec<Span>> = vec![
        group_item("MANUAL OVERRIDE", manual),
        value_item("Warmth", warmth.as_str(), manual, false, true),
        value_item("Brightness", brightness.as_str(), manual, false, true),
    ];
    proof {
        assert(lines_view(lines@) =~= manual_lines(settings@));
    }
    lines
}

fn schedule_items(settings: &Settings, latitude: &str, longitude: &str) -> (lines: Vec<Vec<Span>>)
    ensures
        lines_view(lines@) == schedule_lines(settings@, latitude@, longitude@),
{
    let schedule: &Schedule = &settings.schedule;
    let scheduled: bool = settings.enabled && settings.automatic;
    let located: bool = scheduled && schedule.timing == ScheduleTiming::Location;
    let clocked: bool = scheduled && schedule.timing == ScheduleTiming::Fixed;
    let timing: &str = match schedule.timing {
        ScheduleTiming::Fixed => "FIXED",
        ScheduleTiming::Location => "LOCATION",
    };
    let day_warmth: String = format_warmth(schedule.day.warmth);
    let day_brightness: String = format_percent(schedule.day.brightness);
    let night_warmth: String = format_warmth(schedule.night.warmth);
    let night_brightness: String = format_percent(schedule.night.brightness);
    let north: String = with_degrees(latitude);
    let east: String = with_degrees(longitude);
    let fade: String = format_minutes(schedule.transition_minutes);
    let lines: Vec<Vec<Span>> = vec![
        group_item("SCHEDULE", scheduled),
        value_item("Timing", timing, scheduled, true, false),
        value_item("Day warmth", day_warmth.as_str(), scheduled, false, true),
        value_item("Day brightness", day_brightness.as_str(), scheduled, false, true),
        value_item("Night warmth", night_warmth.as_str(), scheduled, false, true),
        value_item("Night brightness", night_brightness.as_str(), scheduled, false, true),
        value_item("Night begins", schedule.night_start.as_str(), scheduled, false, clocked),
        value_item("Day begins", schedule.day_start.as_str(), scheduled, false, clocked),
        value_item("Latitude", north.as_str(), located, false, located),
        value_item("Longitude", east.as_str(), located, false, located),
        value_item("Fade duration", fade.as_str(), scheduled, false, true),
    ];
    proof {
        assert(lines_view(lines@) =~= schedule_lines(settings@, latitude@, longitude@));
    }
    lines
}

fn add_lines(lines: &mut Vec<Vec<Span>>, more: Vec<Vec<Span>>)
    ensures
        lines_view(final(lines)@) == lines_view(old(lines)@) + lines_view(more@),
{
    let ghost before = lines@;
    let mut more: Vec<Vec<Span>> = more;
    let ghost added = more@;
    lines.append(&mut more);
    proof {
        assert(lines_view(lines@) =~= lines_view(before) + lines_view(added));
    }
}

fn blank_items(spacious: bool) -> (lines: Vec<Vec<Span>>)
    ensures
        lines_view(lines@) == blank_line(spacious),
{
    let mut lines: Vec<Vec<Span>> = Vec::new();
    if spacious {
        let blank: Vec<Span> = Vec::new();
        proof {
            assert(line_view(blank@) =~= Seq::<SpanView>::empty());
        }
        lines.push(blank);
    }
    proof {
        assert(lines_view(lines@) =~= blank_line(spacious));
    }
    lines
}

/// The settings as they are listed, given the coordinates with two decimals.
pub fn settings_items(settings: &Settings, spacious: bool, latitude: &str, longitude: &str) -> (lines: Vec<
    Vec<Span>,
>)
    ensures
        lines_view(lines@) == settings_lines(settings@, spacious, latitude@, longitude@),
{
    let mut lines: Vec<Vec<Span>> = general_items(settings);
    add_lines(&mut lines, blank_items(spacious));
    add_lines(&mut lines, manual_items(settings));
    add_lines(&mut lines, blank_items(spacious));
    add_lines(&mut lines, schedule_items(settings, latitude, longitude));
    lines
}

/// Draws the list of settings, given the coordinates with two decimals.
pub fn render_settings(
    area: Area,
    settings: &Settings,
    selected: Field,
    latitude: &str,
    longitude: &str,
) -> (drawings: Vec<Drawing>)
    ensures
        drawing_views(drawings@) == settings_drawings(
            area,
            settings@,
            selected,
            latitude@,
            longitude@,
        ),
{
    let inner: Area = area.framed();
    let spacious: bool = inner.height >= 19;
    let lines: Vec<Vec<Span>> = settings_items(settings, spacious, latitude, longitude);
    let drawings: Vec<Drawing> = vec![
        panel(area, " CONTROLS "),
        Drawing::Rows { area: inner, lines, selected: Some(selected.row_index(spacious)) },
    ];
    proof {
        assert(drawing_views(drawings@) =~= settings_drawings(
            area,
            settings@,
            selected,
            latitude@,
            longitude@,
        ));
    }
    drawings
}

// ── notice and footer ────────────────────────────────────────────────────────

/// The message of the interface. Room is kept for the mark before it, which is three bytes long for
/// a failure and four otherwise.
pub open spec fn notice_drawing(area: Area, message: Seq<char>, error: bool) -> DrawingView {
    text_at(
        area,
        if error {
            seq![
                piece(" ! "@, in_bold(ACCENT)),
                piece(
                    truncated(message, floored_difference(area.width as int, 3)),
                    in_color(ACCENT),
                ),
            ]
        } else {
            seq![
                piece(" · "@, in_bold(MUTED)),
                piece(truncated(message, floored_difference(area.width as int, 4)), in_color(TEXT)),
            ]
        },
        Align::Left,
    )
}

/// Draws the message of the interface.
pub fn render_notice(area: Area, message: &str, error: bool) -> (drawing: Drawing)
    ensures
        drawing@ == notice_drawing(area, message@, error),
{
    let ghost wanted = notice_drawing(area, message@, error)->Text_line;
    let line: Vec<Span> = if error {
        vec![
            span(" ! ", bold(ACCENT)),
            owned_span(truncate_with_ellipsis(message, room(area.width, 3)), colored(ACCENT)),
        ]
    } else {
        vec![
            span(" · ", bold(MUTED)),
            owned_span(truncate_with_ellipsis(message, room(area.width, 4)), colored(TEXT)),
        ]
    };
    proof {
        assert(line_view(line@) =~= wanted);
    }
    text_line(area, line, Align::Left)
}

/// The keys that a field is changed with.
pub open spec fn footer_line(selected: Field) -> Seq<SpanView> {
    if switches(selected) {
        seq![
            key_piece("↑/↓"@),
            piece(" Navigate  "@, in_color(MUTED)),
            key_piece("←/→"@),
            piece(" Set  "@, in_color(MUTED)),
            key_piece("Enter"@),
            piece(" Toggle  "@, in_color(MUTED)),
            key_piece("q"@),
            piece(" Quit"@, in_color(MUTED)),
        ]
    } else {
        seq![
            key_piece("↑/↓"@),
            piece(" Navigate  "@, in_color(MUTED)),
            key_piece("←/→"@),
            piece(" Adjust  "@, in_color(MUTED)),
            key_piece("Shift+←/→"@),
            piece(" Fine  "@, in_color(MUTED)),
            key_piece("q"@),
            piece(" Quit"@, in_color(MUTED)),
        ]
    }
}

/// Draws the keys that a field is changed with.
pub fn render_footer(area: Area, selected: Field) -> (drawing: Drawing)
    ensures
        drawing@ == text_at(area, footer_line(selected), Align::Center),
{
    let line: Vec<Span> = if selected.is_toggle() {
        vec![
            key_chip("↑/↓"),
            muted(" Navigate  "),
            key_chip("←/→"),
            muted(" Set  "),
            key_chip("Enter"),
            muted(" Toggle  "),
            key_chip("q"),
            muted(" Quit"),
        ]
    } else {
        vec![
            key_chip("↑/↓"),
            muted(" Navigate  "),
            key_chip("←/→"),
            muted(" Adjust  "),
            key_chip("Shift+←/→"),
            muted(" Fine  "),
            key_chip("q"),
            muted(" Quit"),
        ]
    };
    proof {
        assert(line_view(line@) =~= footer_line(selected));
    }
    text_line(area, line, Align::Center)
}

// ── the screen ───────────────────────────────────────────────────────────────

/// Where everything is.
#[derive(Clone, Copy, Debug, PartialEq, Eq)]
pub struct ScreenParts {
    pub areas: ScreenAreas,
    pub header: HeaderParts,
    pub warmth: MetricParts,
    pub brightness: MetricParts,
    pub timeline: TimelineParts,
}

/// The part of a terminal within the margin.
pub open spec fn content_area(area: Area) -> Area {
    within_margin(
        area,
        if area.width >= 100 {
            2
        } else {
            1
        },
        0,
    )
}

/// The columns of the metrics.
pub open spec fn metric_columns() -> Seq<Limit> {
    seq![Limit::Percentage(50), Limit::Percentage(50)]
}

/// Whether parts are those that a terminal is divided into.
pub open spec fn parts_fit(parts: ScreenParts, area: Area) -> bool {
    let compact = parts.areas.compact;
    &&& areas_fit(parts.areas, content_area(area))
    &&& header_fits(parts.header, parts.areas.header)
    &&& exists|gauges: Seq<Area>| #[trigger]
        division(parts.areas.metrics, false, metric_columns(), 2, gauges) && metric_fits(
            parts.warmth,
            gauges[0],
            compact,
        ) && metric_fits(parts.brightness, gauges[1], compact)
    &&& timeline_fits(parts.timeline, parts.areas.timeline, compact)
}

/// Divides a terminal.
pub fn screen_parts(area: Area) -> (parts: ScreenParts)
    ensures
        parts_fit(parts, area),
        has_room(area) ==> parts == placed_parts(area),
{
    let margin: u16 = if area.width >= 100 {
        2
    } else {
        1
    };
    let areas: ScreenAreas = screen_areas(area.inner(margin, 0));
    let limits: Vec<Limit> = vec![Limit::Percentage(50), Limit::Percentage(50)];
    let gauges: Vec<Area> = split(areas.metrics, false, limits.as_slice(), 2);
    proof {
        assert(limits@ =~= metric_columns());
        assert(division(areas.metrics, false, metric_columns(), 2, gauges@));
    }
    let parts: ScreenParts = ScreenParts {
        areas,
        header: header_parts(areas.header),
        warmth: metric_parts(gauges[0], areas.compact),
        brightness: metric_parts(gauges[1], areas.compact),
        timeline: timeline_parts(areas.timeline, areas.compact),
    };
    proof {
        if has_room(area) {
            everything_has_its_place(area, parts);
        }
    }
    parts
}

/// What a terminal has to have room for.
pub open spec fn fits_terminal(area: Area) -> bool {
    area.width >= 80 && area.height >= 24
}

/// Whether the schedule is in force.
pub open spec fn schedule_runs(settings: SettingsView) -> bool {
    settings.enabled && settings.automatic
}

/// The help of the interface, where there is room for it.
pub open spec fn help_drawings(areas: ScreenAreas, selected: Field) -> Seq<DrawingView> {
    match areas.help {
        Some(area) => help_box(
            area,
            help_of(shared_field(selected)).0,
            help_of(shared_field(selected)).1,
        ),
        None => Seq::empty(),
    }
}

/// The screen of the interface, given where everything is, the day that it is, the bar of that day,
/// and the coordinates with two decimals.
pub open spec fn screen_drawings(
    app: AppView,
    area: Area,
    parts: ScreenParts,
    view: Option<TimelineView>,
    bar: Seq<SpanView>,
    latitude: Seq<char>,
    longitude: Seq<char>,
) -> Seq<DrawingView> {
    let settings = app.state.settings;
    seq![DrawingView::Base { area, color: TEXT }] + header_drawings(app, parts.header)
        + metrics_drawings(app.state, parts.warmth, parts.brightness) + timeline_drawings(
        parts.timeline,
        view,
        schedule_runs(settings),
        bar,
    ) + settings_drawings(parts.areas.settings, settings, app.selected, latitude, longitude)
        + help_drawings(parts.areas, app.selected) + seq![
        notice_drawing(parts.areas.notice, shown_notice(app).0, shown_notice(app).1),
        text_at(parts.areas.footer, footer_line(app.selected), Align::Center),
    ]
}

/// Draws the interface, given where everything is.
pub fn render_parts(
    app: &App,
    area: Area,
    parts: ScreenParts,
    view: &Option<TimelineView>,
    latitude: &str,
    longitude: &str,
) -> (drawings: Vec<Drawing>)
    ensures
        exists|bar: Seq<SpanView>| #[trigger]
            is_bar(
                bar,
                parts.timeline,
                *view,
                schedule_runs(app@.state.settings),
            ) && drawing_views(drawings@) == screen_drawings(
                app@,
                area,
                parts,
                *view,
                bar,
                latitude@,
                longitude@,
            ),
{
    let active: bool = app.state.settings.enabled && app.state.settings.automatic;
    let mut drawings: Vec<Drawing> = vec![Drawing::Base { area, color: TEXT }];
    proof {
        assert(drawing_views(drawings@) =~= seq![DrawingView::Base { area, color: TEXT }]);
    }
    draw_all(&mut drawings, render_header(app, parts.header));
    draw_all(&mut drawings, render_metrics(app, parts.warmth, parts.brightness));
    let timeline: Vec<Drawing> = render_timeline(parts.timeline, view, active);
    let ghost bar = choose|bar: Seq<SpanView>| #[trigger]
        is_bar(bar, parts.timeline, *view, active) && drawing_views(timeline@)
            == timeline_drawings(parts.timeline, *view, active, bar);
    draw_all(&mut drawings, timeline);
    draw_all(
        &mut drawings,
        render_settings(
            parts.areas.settings,
            &app.state.settings,
            app.selected,
            latitude,
            longitude,
        ),
    );
    if let Some(help_area) = parts.areas.help {
        let (title, help): (&str, &str) = selected_help(app.selected);
        draw_all(&mut drawings, render_help(help_area, title, help));
    }
    let (message, error): (&str, bool) = app.notice_text();
    let ghost before = drawing_views(drawings@);
    let bottom: Vec<Drawing> = vec![
        render_notice(parts.areas.notice, message, error),
        render_footer(parts.areas.footer, app.selected),
    ];
    proof {
        assert(drawing_views(bottom@) =~= seq![
            notice_drawing(parts.areas.notice, shown_notice(app@).0, shown_notice(app@).1),
            text_at(parts.areas.footer, footer_line(app@.selected), Align::Center),
        ]);
    }
    draw_all(&mut drawings, bottom);
    proof {
        assert(drawing_views(drawings@) =~= screen_drawings(
            app@,
            area,
            parts,
            *view,
            bar,
            latitude@,
            longitude@,
        ));
        assert(is_bar(bar, parts.timeline, *view, active));
    }
    drawings
}

/// Draws the interface at a time of day, given the coordinates with two decimals.
pub fn render(
    app: &App,
    area: Area,
    now: LocalTime,
    sky: Sky,
    latitude: &str,
    longitude: &str,
) -> (drawings: Vec<Drawing>)
    requires
        now.valid(),
        sky.valid(),
    ensures
        !fits_terminal(area) ==> drawing_views(drawings@) == too_small(
            area,
            "Waywarm needs a terminal of at least 80 × 24"@,
        ),
        fits_terminal(area) ==> exists|
            parts: ScreenParts,
            view: Option<TimelineView>,
            bar: Seq<SpanView>,
        |
            #![trigger screen_drawings(app@, area, parts, view, bar, latitude@, longitude@)]
            parts_fit(parts, area) && (has_room(area) ==> parts == placed_parts(area)) && is_day(
                view,
                app@.state.settings,
                now,
                sky,
            ) && is_bar(
                bar,
                parts.timeline,
                view,
                schedule_runs(app@.state.settings),
            ) && drawing_views(drawings@) == screen_drawings(
                app@,
                area,
                parts,
                view,
                bar,
                latitude@,
                longitude@,
            ),
{
    if area.width < 80 || area.height < 24 {
        return render_too_small(area, "Waywarm needs a terminal of at least 80 × 24");
    }
    let parts: ScreenParts = screen_parts(area);
    let view: Option<TimelineView> = match TimelineView::from_schedule(
        &app.state.settings.schedule,
        now,
        sky,
    ) {
        Ok(view) => Some(view),
        Err(_) => None,
    };
    let drawings: Vec<Drawing> = render_parts(app, area, parts, &view, latitude, longitude);
    proof {
        let active = schedule_runs(app@.state.settings);
        let bar = choose|bar: Seq<SpanView>| #[trigger]
            is_bar(bar, parts.timeline, view, active) && drawing_views(drawings@)
                == screen_drawings(app@, area, parts, view, bar, latitude@, longitude@);
        assert(is_day(view, app@.state.settings, now, sky));
        assert(drawing_views(drawings@) == screen_drawings(
            app@,
            area,
            parts,
            view,
            bar,
            latitude@,
            longitude@,
        ));
    }
    drawings
}

/// Whether a timeline is that of the day: there is one if the schedule has valid times.
pub open spec fn is_day(
    view: Option<TimelineView>,
    settings: SettingsView,
    now: LocalTime,
    sky: Sky,
) -> bool {
    match view {
        Some(view) => resolved(settings.schedule, sky) matches Ok(times) && view.shows(times)
            && view.now_minute == (now.whole_minutes() + if now.second >= 30 {
            1int
        } else {
            0
        }) % 1440,
        None => resolved(settings.schedule, sky) is Err,
    }
}

// ── what holds of every screen ───────────────────────────────────────────────

/// The row that is marked as selected is that of the selected field: it starts with the title under
/// which the field is listed.
pub proof fn selected_row_is_the_field(
    settings: SettingsView,
    selected: Field,
    spacious: bool,
    latitude: Seq<char>,
    longitude: Seq<char>,
)
    ensures
        ({
            let lines = settings_lines(settings, spacious, latitude, longitude);
            let row = field_row(selected, spacious);
            &&& 0 <= row < lines.len()
            &&& lines[row].len() == 2
            &&& lines[row][0].content == padded(listed_title(selected), 22)
        }),
{
    let lines = settings_lines(settings, spacious, latitude, longitude);
    assert(blank_line(spacious).len() == (if spacious {
        1int
    } else {
        0
    }));
}

/// The title under which a field is listed.
pub open spec fn listed_title(field: Field) -> Seq<char> {
    match field {
        Field::Mode => "Mode"@,
        Field::Filter => "Filter"@,
        Field::ManualWarmth => "Warmth"@,
        Field::ManualBrightness => "Brightness"@,
        Field::Timing => "Timing"@,
        Field::DayWarmth => "Day warmth"@,
        Field::DayBrightness => "Day brightness"@,
        Field::NightWarmth => "Night warmth"@,
        Field::NightBrightness => "Night brightness"@,
        Field::NightStart => "Night begins"@,
        Field::DayStart => "Day begins"@,
        Field::Latitude => "Latitude"@,
        Field::Longitude => "Longitude"@,
        Field::Transition => "Fade duration"@,
    }
}

/// A bar has as many columns as it is wide, and exactly one of them, within the bar, marks the
/// present time.
pub proof fn bar_marks_the_present_once(view: TimelineView, active: bool, width: int)
    requires
        width > 0,
    ensures
        bar_cells(view, active, width).len() == width,
        0 <= minute_column(view.now_minute as int, width) < width,
        forall|column: int|
            0 <= column < width ==> ((#[trigger] bar_cells(
                view,
                active,
                width,
            )[column]).style.bg is Some <==> column == minute_column(
                view.now_minute as int,
                width,
            )),
{
    assert(view.now_minute * width / 1440 >= 0) by (nonlinear_arith)
        requires
            view.now_minute >= 0,
            width > 0,
    ;
}

/// The rows of a screen that has room for them.
pub open spec fn placed_areas(area: Area) -> ScreenAreas {
    let h = area.height as int;
    if area.height < 34 {
        ScreenAreas {
            header: part_at(area, true, 0, 2),
            metrics: part_at(area, true, 2, 3),
            timeline: part_at(area, true, 5, 3),
            settings: part_at(area, true, 8, h - 10),
            help: None,
            notice: part_at(area, true, h - 2, 1),
            footer: part_at(area, true, h - 1, 1),
            compact: true,
        }
    } else {
        ScreenAreas {
            header: part_at(area, true, 0, 3),
            metrics: part_at(area, true, 4, 6),
            timeline: part_at(area, true, 11, 5),
            settings: part_at(area, true, 17, h - 23),
            help: Some(part_at(area, true, h - 5, 3)),
            notice: part_at(area, true, h - 2, 1),
            footer: part_at(area, true, h - 1, 1),
            compact: false,
        }
    }
}

/// Where everything is on a terminal that has room for it.
pub open spec fn placed_parts(area: Area) -> ScreenParts {
    let content = content_area(area);
    let compact = content.height < 34;
    let areas = placed_areas(content);
    let gauges = halved(areas.metrics, false, 2);
    ScreenParts {
        areas,
        header: placed_header(areas.header),
        warmth: placed_metric(gauges[0], compact),
        brightness: placed_metric(gauges[1], compact),
        timeline: placed_timeline(areas.timeline, compact),
    }
}

/// Where the parts of a header are that has room for them.
pub open spec fn placed_header(area: Area) -> HeaderParts {
    let inner = above_rule(area);
    if inner.height <= 1 {
        let cells = stacked(inner, false, header_columns());
        HeaderParts { area, main: cells[0], keys: cells[1], status: None }
    } else {
        let rows = stacked(inner, true, single_rows(2));
        let cells = stacked(rows[0], false, header_columns());
        HeaderParts { area, main: cells[0], keys: cells[1], status: Some(rows[1]) }
    }
}

/// Where the parts of a metric are that has room for them.
pub open spec fn placed_metric(area: Area, compact: bool) -> MetricParts {
    let inner = within_frame(area);
    let content = within_margin(inner, 2, 0);
    if compact {
        MetricParts { area, rows: MetricRows::One { bar: inner } }
    } else {
        let rows = stacked(content, true, single_rows(4));
        MetricParts {
            area,
            rows: MetricRows::Four {
                value: rows[0],
                bar: rows[2],
                scale: rows[3],
                width: content.width,
            },
        }
    }
}

/// Where the parts of a timeline are that has room for them.
pub open spec fn placed_timeline(area: Area, compact: bool) -> TimelineParts {
    let inner = within_frame(area);
    if compact {
        TimelineParts { area, inner, compact, rows: TimelineRows::One { bar: inner } }
    } else {
        let rows = stacked(inner, true, single_rows(3));
        TimelineParts {
            area,
            inner,
            compact,
            rows: TimelineRows::Three { heading: rows[0], bar: rows[1], legend: rows[2] },
        }
    }
}

/// Whether a terminal has room for everything. With thirty-four rows it has one too few: the rows
/// of a high screen are wanted, and come to thirty-five.
pub open spec fn has_room(area: Area) -> bool {
    &&& fits_terminal(area)
    &&& area.height != 34
    &&& area.x + area.width <= 65535
    &&& area.y + area.height <= 65535
}

proof fn lemma_low_rows(spare: int)
    ensures
        is_stack(screen_limits(true)),
        taken_before(screen_limits(true), 0, spare) == 0,
        taken_before(screen_limits(true), 1, spare) == 2,
        taken_before(screen_limits(true), 2, spare) == 5,
        taken_before(screen_limits(true), 3, spare) == 8,
        taken_before(screen_limits(true), 4, spare) == 22 + spare,
        taken_before(screen_limits(true), 5, spare) == 23 + spare,
        taken_before(screen_limits(true), 6, spare) == 24 + spare,
{
    reveal_with_fuel(taken_before, 7);
}

proof fn lemma_high_rows(spare: int)
    ensures
        is_stack(screen_limits(false)),
        taken_before(screen_limits(false), 0, spare) == 0,
        taken_before(screen_limits(false), 2, spare) == 4,
        taken_before(screen_limits(false), 4, spare) == 11,
        taken_before(screen_limits(false), 6, spare) == 17,
        taken_before(screen_limits(false), 8, spare) == 30 + spare,
        taken_before(screen_limits(false), 9, spare) == 33 + spare,
        taken_before(screen_limits(false), 10, spare) == 34 + spare,
        taken_before(screen_limits(false), 11, spare) == 35 + spare,
{
    reveal_with_fuel(taken_before, 12);
}

proof fn lemma_areas(area: Area, areas: ScreenAreas)
    requires
        24 <= area.height,
        area.height != 34,
        area.y + area.height <= 65535,
        areas_fit(areas, area),
    ensures
        areas == placed_areas(area),
{
    let compact = area.height < 34;
    let rows = choose|rows: Seq<Area>| #[trigger]
        division(area, true, screen_limits(compact), 0, rows) && areas == assigned_areas(
            rows,
            compact,
        );
    if compact {
        lemma_low_rows(0);
        lemma_low_rows(area.height - 24);
    } else {
        lemma_high_rows(0);
        lemma_high_rows(area.height - 35);
    }
    assert(rows == stacked(area, true, screen_limits(compact)));
}

proof fn lemma_header(area: Area, parts: HeaderParts)
    requires
        13 <= area.width,
        area.x + area.width <= 65535,
        area.y + area.height <= 65535,
        header_fits(parts, area),
    ensures
        parts == placed_header(area),
{
    let inner = above_rule(area);
    if inner.height <= 1 {
        let cells = choose|cells: Seq<Area>| #[trigger]
            division(inner, false, header_columns(), 0, cells) && parts == (HeaderParts {
                area,
                main: cells[0],
                keys: cells[1],
                status: None,
            });
        lemma_columns(inner, cells);
    } else {
        let (rows, cells) = choose|rows: Seq<Area>, cells: Seq<Area>|
            #![trigger division(inner, true, single_rows(2), 0, rows), division(rows[0], false, header_columns(), 0, cells)]
            division(inner, true, single_rows(2), 0, rows) && division(
                rows[0],
                false,
                header_columns(),
                0,
                cells,
            ) && parts == (HeaderParts {
                area,
                main: cells[0],
                keys: cells[1],
                status: Some(rows[1]),
            });
        lemma_single_rows(2, 2, 0);
        assert(rows == stacked(inner, true, single_rows(2)));
        assert(across(rows[0], inner, true));
        lemma_columns(rows[0], cells);
    }
}

proof fn lemma_metric(area: Area, compact: bool, parts: MetricParts)
    requires
        6 <= area.width,
        area.y + area.height <= 65535,
        area.height == (if compact {
            3int
        } else {
            6
        }),
        metric_fits(parts, area, compact),
    ensures
        parts == placed_metric(area, compact),
{
    lemma_single_rows(4, 4, 0);
}

proof fn lemma_timeline(area: Area, compact: bool, parts: TimelineParts)
    requires
        area.y + area.height <= 65535,
        area.height == (if compact {
            3int
        } else {
            5
        }),
        timeline_fits(parts, area, compact),
    ensures
        parts == placed_timeline(area, compact),
{
    lemma_single_rows(3, 3, 0);
}

/// On a terminal that has room for everything, everything has its place.
pub proof fn everything_has_its_place(area: Area, parts: ScreenParts)
    requires
        has_room(area),
        parts_fit(parts, area),
    ensures
        parts == placed_parts(area),
{
    let content = content_area(area);
    let compact = content.height < 34;
    lemma_areas(content, parts.areas);
    lemma_header(parts.areas.header, parts.header);
    let metrics = parts.areas.metrics;
    let gauges = choose|gauges: Seq<Area>| #[trigger]
        division(metrics, false, metric_columns(), 2, gauges) && metric_fits(
            parts.warmth,
            gauges[0],
            compact,
        ) && metric_fits(parts.brightness, gauges[1], compact);
    assert(gauges == halved(metrics, false, 2));
    lemma_metric(gauges[0], compact, parts.warmth);
    lemma_metric(gauges[1], compact, parts.brightness);
    lemma_timeline(parts.areas.timeline, compact, parts.timeline);
}

/// On a terminal that has room for everything, the parts lie in order from the first row to the
/// last, none runs into the next, and the settings get all rows that the others leave.
pub proof fn parts_lie_in_order(area: Area)
    requires
        has_room(area),
    ensures
        ({
            let areas = placed_parts(area).areas;
            &&& areas.header.y == area.y
            &&& areas.header.y + areas.header.height <= areas.metrics.y
            &&& areas.metrics.y + areas.metrics.height <= areas.timeline.y
            &&& areas.timeline.y + areas.timeline.height <= areas.settings.y
            &&& areas.settings.height == area.height - (if area.height < 34 {
                10int
            } else {
                23
            })
            &&& match areas.help {
                None => areas.settings.y + areas.settings.height == areas.notice.y,
                Some(help) => areas.settings.y + areas.settings.height < help.y && help.y
                    + help.height == areas.notice.y,
            }
            &&& areas.notice.height == 1 && areas.notice.y + 1 == areas.footer.y
            &&& areas.footer.height == 1 && areas.footer.y + 1 == area.y + area.height
        }),
{
}

/// On every terminal that is drawn on, also on one that has a row too few, the parts lie in order
/// from the first row, none runs into the next, and all lie within the terminal.
pub proof fn no_part_runs_into_another(area: Area, parts: ScreenParts)
    requires
        fits_terminal(area),
        area.x + area.width <= 65535,
        area.y + area.height <= 65535,
        parts_fit(parts, area),
    ensures
        ({
            let areas = parts.areas;
            &&& areas.header.y == area.y
            &&& areas.header.y + areas.header.height <= areas.metrics.y
            &&& areas.metrics.y + areas.metrics.height <= areas.timeline.y
            &&& areas.timeline.y + areas.timeline.height <= areas.settings.y
            &&& match areas.help {
                None => areas.settings.y + areas.settings.height <= areas.notice.y,
                Some(help) => areas.settings.y + areas.settings.height <= help.y && help.y
                    + help.height <= areas.notice.y && lies_within(help, area),
            }
            &&& areas.notice.y + areas.notice.height <= areas.footer.y
            &&& lies_within(areas.header, area)
            &&& lies_within(areas.metrics, area)
            &&& lies_within(areas.timeline, area)
            &&& lies_within(areas.settings, area)
            &&& lies_within(areas.notice, area)
            &&& lies_within(areas.footer, area)
        }),
{
    let content = content_area(area);
    let compact = content.height < 34;
    let rows = choose|rows: Seq<Area>| #[trigger]
        division(content, true, screen_limits(compact), 0, rows) && parts.areas
            == assigned_areas(rows, compact);
    if compact {
        lemma_low_rows(0);
    } else {
        lemma_high_rows(0);
    }
    assert(in_a_row(rows, content, true));
    lemma_in_order(rows, content, 0, 1);
    lemma_in_order(rows, content, 1, 2);
    lemma_in_order(rows, content, 2, 3);
    lemma_in_order(rows, content, 3, 4);
    lemma_in_order(rows, content, 4, 5);
    if !compact {
        lemma_in_order(rows, content, 0, 2);
        lemma_in_order(rows, content, 2, 4);
        lemma_in_order(rows, content, 4, 6);
        lemma_in_order(rows, content, 6, 8);
        lemma_in_order(rows, content, 8, 9);
        lemma_in_order(rows, content, 9, 10);
    }
    assert forall|i: int| 0 <= i < rows.len() implies lies_within(#[trigger] rows[i], area) by {
        assert(across(rows[i], content, true) && along(rows[i], content, true));
    }
}

// ── what the screen tells ────────────────────────────────────────────────────

/// The value that a field is listed with, given the coordinates with two decimals.
pub open spec fn listed_value(
    settings: SettingsView,
    field: Field,
    latitude: Seq<char>,
    longitude: Seq<char>,
) -> Seq<char> {
    let warmth = |n: u8|
        decimal_text(n as int) + "%  ·  "@ + decimal_text(
            if n < 100 {
                6500 - 40 * n
            } else {
                2500
            },
        ) + " K"@;
    let percent = |n: u8| decimal_text(n as int) + "%"@;
    match field {
        Field::Mode => if settings.automatic {
            "AUTOMATIC"@
        } else {
            "MANUAL"@
        },
        Field::Filter => if settings.enabled {
            "ON"@
        } else {
            "OFF"@
        },
        Field::ManualWarmth => warmth(settings.manual.warmth),
        Field::ManualBrightness => percent(settings.manual.brightness),
        Field::Timing => if settings.schedule.timing == ScheduleTiming::Location {
            "LOCATION"@
        } else {
            "FIXED"@
        },
        Field::DayWarmth => warmth(settings.schedule.day.warmth),
        Field::DayBrightness => percent(settings.schedule.day.brightness),
        Field::NightWarmth => warmth(settings.schedule.night.warmth),
        Field::NightBrightness => percent(settings.schedule.night.brightness),
        Field::NightStart => settings.schedule.night_start,
        Field::DayStart => settings.schedule.day_start,
        Field::Latitude => latitude + "°"@,
        Field::Longitude => longitude + "°"@,
        Field::Transition => decimal_text(settings.schedule.transition_minutes as int) + " min"@,
    }
}

/// The row of a field shows the setting that the field is called after. Values that are switched
/// stand in brackets, and those that can be moved between arrows: levels and the transition always,
/// clock times and coordinates where a running schedule goes by them.
pub proof fn rows_show_the_setting_of_their_field(
    settings: SettingsView,
    field: Field,
    spacious: bool,
    latitude: Seq<char>,
    longitude: Seq<char>,
)
    ensures
        ({
            let line = settings_lines(settings, spacious, latitude, longitude)[field_row(
                field,
                spacious,
            )];
            let value = listed_value(settings, field, latitude, longitude);
            let runs = settings.enabled && settings.automatic;
            let located = settings.schedule.timing == ScheduleTiming::Location;
            let moves = match field {
                Field::Mode | Field::Filter | Field::Timing => false,
                Field::NightStart | Field::DayStart => runs && !located,
                Field::Latitude | Field::Longitude => runs && located,
                _ => true,
            };
            line.len() == 2 && line[1].content == (if moves {
                "‹ "@ + value + " ›"@
            } else {
                "[ "@ + value + " ]"@
            })
        }),
{
    assert(blank_line(spacious).len() == (if spacious {
        1int
    } else {
        0
    }));
}

/// The metrics show the levels in force: the first the warmth and the second the brightness, each
/// with a gauge filled to its percentage.
pub proof fn metrics_show_the_levels_in_force(
    state: RuntimeView,
    warmth: MetricParts,
    brightness: MetricParts,
    bar: Area,
    second_bar: Area,
)
    requires
        warmth.rows == (MetricRows::One { bar }),
        brightness.rows == (MetricRows::One { bar: second_bar }),
    ensures
        ({
            let drawings = metrics_drawings(state, warmth, brightness);
            &&& drawings.len() == 4
            &&& drawings[1] matches DrawingView::Gauge { area, percent, label, .. } && area == bar
                && percent == state.active_warmth && label == warmth_text(state.active_warmth)
            &&& drawings[3] matches DrawingView::Gauge { area, percent, label, .. } && area
                == second_bar && percent == state.active_brightness && label == percent_text(
                state.active_brightness,
            )
        }),
{
}

/// A roomy metric shows its level in words and in a gauge.
pub proof fn roomy_metrics_show_their_level(
    parts: MetricParts,
    title: Seq<char>,
    value: Seq<char>,
    percent: u8,
    color: Color,
    row: Area,
    bar: Area,
    scale: Area,
    width: u16,
)
    requires
        parts.rows == (MetricRows::Four { value: row, bar, scale, width }),
    ensures
        ({
            let drawings = metric_drawings(parts, title, value, percent, color);
            &&& drawings.len() == 4
            &&& drawings[2] matches DrawingView::Gauge { area, percent: filled, .. } && area == bar
                && filled == percent
            &&& drawings[1] == text_at(
                row,
                seq![piece("CURRENT  "@, in_color(MUTED)), piece(value, in_bold(TEXT))],
                Align::Left,
            )
        }),
{
}

/// The columns of a bar share the day evenly: each shows the phase of the minute where its share
/// starts.
pub proof fn columns_share_the_day(
    view: TimelineView,
    times: ResolvedTimes,
    active: bool,
    column: int,
    width: int,
)
    requires
        view.shows(times),
        0 <= column < width,
    ensures
        ({
            let minute = column * 1440 / width;
            let cell = bar_cells(view, active, width)[column];
            let phase = shown_phase(view.segments@, minute);
            &&& 0 <= minute < 1440
            &&& cell.symbol == (if phase == TimelinePhase::Day || phase == TimelinePhase::Night {
                '█'
            } else {
                '▒'
            })
            &&& cell.style.bg is None ==> cell.style.fg == Some(
                if !active {
                    MUTED
                } else if phase == TimelinePhase::Day {
                    COOL
                } else if phase == TimelinePhase::Night {
                    WARM
                } else {
                    ACCENT
                },
            )
        }),
{
    reveal_strlit("█");
    reveal_strlit("▒");
    let n = column * 1440;
    vstd::arithmetic::div_mod::lemma_fundamental_div_mod(n, width);
    assert(0 <= n / width < 1440) by (nonlinear_arith)
        requires
            n == width * (n / width) + n % width,
            0 <= n % width < width,
            0 <= n < width * 1440,
            width > 0,
    ;
}

/// The present time is marked in the column of a bar whose share of the day holds it.
pub proof fn the_present_is_marked_in_its_share(minute: int, width: int)
    requires
        0 <= minute < 1440,
        width > 0,
    ensures
        ({
            let column = minute_column(minute, width);
            &&& 0 <= column < width
            &&& column * 1440 <= minute * width < (column + 1) * 1440
        }),
{
    let n = minute * width;
    assert(0 <= n < 1440 * width) by (nonlinear_arith)
        requires
            n == minute * width,
            0 <= minute < 1440,
            width > 0,
    ;
    vstd::arithmetic::div_mod::lemma_fundamental_div_mod(n, 1440);
}

/// Outputs are shown by their names in a row.
pub proof fn outputs_are_shown_by_name(outputs: Seq<Seq<char>>)
    ensures
        outputs.len() == 0 ==> outputs_text(outputs) == "No displays detected"@,
        outputs.len() > 0 ==> outputs_text(outputs) == joined(outputs, "  ·  "@),
{
}

/// The short legend tells when the day and the night start, how long the change takes and what time
/// it is.
pub proof fn short_legends_tell_the_times(view: TimelineView)
    requires
        view.day_start < 1440,
        view.night_start < 1440,
        view.now_minute < 1440,
    ensures
        short_legend(view) == " day "@ + clock_text(view.day_start as int) + " · night "@
            + clock_text(view.night_start as int) + " · fade "@ + decimal_text(
            view.transition_minutes as int,
        ) + "m · now "@ + clock_text(view.now_minute as int),
{
    lemma_times_of(view);
}

/// The long legend tells the same in full words.
pub proof fn long_legends_tell_the_times(view: TimelineView)
    requires
        view.day_start < 1440,
        view.night_start < 1440,
        view.now_minute < 1440,
    ensures
        long_legend(view) == "  Day begins "@ + clock_text(view.day_start as int)
            + "   Night begins "@ + clock_text(view.night_start as int) + "   Fade "@ + decimal_text(
            view.transition_minutes as int,
        ) + " min   Now "@ + clock_text(view.now_minute as int),
{
    lemma_times_of(view);
}

/// Where there is no room for a legend, the title tells when the day and the night start. A schedule
/// that is not in force is said to be so.
pub proof fn titles_tell_the_starts(view: TimelineView, compact: bool)
    requires
        view.day_start < 1440,
        view.night_start < 1440,
        view.now_minute < 1440,
    ensures
        timeline_title(Some(view), true, true) == " TODAY · day "@ + clock_text(
            view.day_start as int,
        ) + " · night "@ + clock_text(view.night_start as int) + " "@,
        timeline_title(Some(view), false, compact) == " TODAY · inactive "@,
        timeline_title(Some(view), true, false) == " TODAY "@,
{
    lemma_times_of(view);
}

proof fn lemma_times_of(view: TimelineView)
    requires
        view.day_start < 1440,
        view.night_start < 1440,
        view.now_minute < 1440,
    ensures
        view.day_start as int % 1440 == view.day_start,
        view.night_start as int % 1440 == view.night_start,
        view.now_minute as int % 1440 == view.now_minute,
{
}

/// Whether drawings are among others, one behind the other.
pub open spec fn are_among(some: Seq<DrawingView>, all: Seq<DrawingView>) -> bool {
    exists|i: int|
        0 <= i <= all.len() - some.len() && #[trigger] all.subrange(i, i + some.len()) == some
}

proof fn lemma_among(before: Seq<DrawingView>, some: Seq<DrawingView>, behind: Seq<DrawingView>)
    ensures
        are_among(some, before + some + behind),
{
    let all = before + some + behind;
    let at = before.len() as int;
    assert(all.subrange(at, at + some.len()) =~= some);
}

/// The screen shows its header, both metrics, the timeline, the list of settings with the selected
/// field marked, the help for it where there is room, the message and the keys.
pub proof fn the_screen_shows_all_its_parts(
    app: AppView,
    area: Area,
    parts: ScreenParts,
    view: Option<TimelineView>,
    bar: Seq<SpanView>,
    latitude: Seq<char>,
    longitude: Seq<char>,
)
    ensures
        ({
            let all = screen_drawings(app, area, parts, view, bar, latitude, longitude);
            let settings = app.state.settings;
            let inner = within_frame(parts.areas.settings);
            let spacious = inner.height >= 19;
            &&& are_among(header_drawings(app, parts.header), all)
            &&& are_among(metrics_drawings(app.state, parts.warmth, parts.brightness), all)
            &&& are_among(
                timeline_drawings(
                    parts.timeline,
                    view,
                    settings.enabled && settings.automatic,
                    bar,
                ),
                all,
            )
            &&& are_among(
                seq![
                    DrawingView::Rows {
                        area: inner,
                        lines: settings_lines(settings, spacious, latitude, longitude),
                        selected: Some(field_row(app.selected, spacious) as usize),
                    },
                ],
                all,
            )
            &&& parts.areas.help matches Some(help) ==> are_among(
                help_box(
                    help,
                    help_of(shared_field(app.selected)).0,
                    help_of(shared_field(app.selected)).1,
                ),
                all,
            )
            &&& are_among(
                seq![notice_drawing(parts.areas.notice, shown_notice(app).0, shown_notice(app).1)],
                all,
            )
            &&& are_among(
                seq![text_at(parts.areas.footer, footer_line(app.selected), Align::Center)],
                all,
            )
        }),
{
    let settings = app.state.settings;
    let list = settings_drawings(
        parts.areas.settings,
        settings,
        app.selected,
        latitude,
        longitude,
    );
    let notice = notice_drawing(parts.areas.notice, shown_notice(app).0, shown_notice(app).1);
    let footer = text_at(parts.areas.footer, footer_line(app.selected), Align::Center);
    lemma_all_among(
        seq![DrawingView::Base { area, color: TEXT }],
        header_drawings(app, parts.header),
        metrics_drawings(app.state, parts.warmth, parts.brightness),
        timeline_drawings(parts.timeline, view, schedule_runs(settings), bar),
        list[0],
        list[1],
        help_drawings(parts.areas, app.selected),
        notice,
        footer,
    );
    assert(list =~= seq![list[0], list[1]]);
}

proof fn lemma_all_among(
    base: Seq<DrawingView>,
    header: Seq<DrawingView>,
    metrics: Seq<DrawingView>,
    timeline: Seq<DrawingView>,
    frame: DrawingView,
    rows: DrawingView,
    help: Seq<DrawingView>,
    notice: DrawingView,
    footer: DrawingView,
)
    ensures
        ({
            let all = base + header + metrics + timeline + seq![frame, rows] + help + seq![
                notice,
                footer,
            ];
            &&& are_among(header, all)
            &&& are_among(metrics, all)
            &&& are_among(timeline, all)
            &&& are_among(seq![rows], all)
            &&& are_among(help, all)
            &&& are_among(seq![notice], all)
            &&& are_among(seq![footer], all)
        }),
{
    let end = seq![notice, footer];
    let list = seq![frame, rows];
    let all = base + header + metrics + timeline + list + help + end;
    assert(all =~= base + header + (metrics + timeline + list + help + end));
    lemma_among(base, header, metrics + timeline + list + help + end);
    assert(all =~= (base + header) + metrics + (timeline + list + help + end));
    lemma_among(base + header, metrics, timeline + list + help + end);
    assert(all =~= (base + header + metrics) + timeline + (list + help + end));
    lemma_among(base + header + metrics, timeline, list + help + end);
    let front = base + header + metrics + timeline;
    assert(all =~= front.push(frame) + seq![rows] + (help + end));
    lemma_among(front.push(frame), seq![rows], help + end);
    assert(all =~= (front + list) + help + end);
    lemma_among(front + list, help, end);
    let upper = front + list + help;
    assert(all =~= upper + seq![notice] + seq![footer]);
    lemma_among(upper, seq![notice], seq![footer]);
    assert(all =~= upper.push(notice) + seq![footer] + Seq::empty());
    lemma_among(upper.push(notice), seq![footer], Seq::empty());
}

/// A message is shown in the room that there is, with a mark for a failure.
pub proof fn messages_are_shown_with_their_mark(area: Area, message: Seq<char>, error: bool)
    requires
        area.width >= 4,
    ensures
        notice_drawing(area, message, error) matches DrawingView::Text { area: place, line, .. }
            && place == area && line.len() == 2 && line[0].content == (if error {
            " ! "@
        } else {
            " · "@
        }) && line[1].content == truncated(
            message,
            area.width - (if error {
                3
            } else {
                4int
            }),
        ),
{
}

/// The fields of the terminal are those that the interfaces share, by their names.
pub proof fn fields_are_shared_by_name(field: Field)
    ensures
        field != Field::ManualWarmth && field != Field::ManualBrightness ==> help_of(
            shared_field(field),
        ).0 == listed_title(field),
        help_of(shared_field(Field::ManualWarmth)).0 == "Manual warmth"@,
        help_of(shared_field(Field::ManualBrightness)).0 == "Manual brightness"@,
{
}

/// The header tells of the backend and of the outputs: on its first row where it is low, and on a
/// row of its own otherwise. Outputs are cut to the room that is left.
pub proof fn headers_tell_of_backend_and_outputs(app: AppView, parts: HeaderParts)
    ensures
        ({
            let drawings = header_drawings(app, parts);
            let chip = " "@ + backend_text(app.transient, app.backend_available) + " "@;
            let outputs = outputs_text(app.state.outputs);
            &&& parts.status is None ==> drawings.len() == 3 && (
            drawings[1] matches DrawingView::Text { area, line, .. } && area == parts.main
                && line.len() == 4 && line[1].content == chip && line[3].content == truncated(
                outputs,
                floored_difference(area.width as int, 9int + chip.len() + 1),
            ))
            &&& parts.status matches Some(status) ==> drawings.len() == 4 && (
            drawings[3] matches DrawingView::Text { area, line, .. } && area == status && line.len()
                == 4 && line[1].content == chip && line[3].content == truncated(
                outputs,
                floored_difference(area.width as int, 8int + chip.len() + 10),
            ))
        }),
{
}

/// The timeline shows its bar where it has a row for it, and a legend where it has room for one;
/// without valid times it says so.
pub proof fn timelines_show_their_bar(
    parts: TimelineParts,
    view: TimelineView,
    active: bool,
    bar: Seq<SpanView>,
)
    ensures
        ({
            let drawings = timeline_drawings(parts, Some(view), active, bar);
            &&& drawings[0] matches DrawingView::Panel { area, title } && area == parts.area
                && title.content == timeline_title(Some(view), active, parts.compact)
            &&& parts.rows matches TimelineRows::One { bar: row } ==> drawings.len() == 2
                && drawings[1] == text_at(row, bar, Align::Left)
            &&& parts.rows matches TimelineRows::Two { bar: row, legend } ==> drawings.len() == 3
                && drawings[1] == text_at(row, bar, Align::Left) && (
            drawings[2] matches DrawingView::Text { area, line, .. } && area == legend && line.len()
                == 1 && line[0].content == short_legend(view))
            &&& parts.rows matches TimelineRows::Three { bar: row, legend, .. } ==> drawings.len()
                == 4 && drawings[2] == text_at(row, bar, Align::Left) && (
            drawings[3] matches DrawingView::Text { area, line, .. } && area == legend && line.len()
                == 1 && line[0].content == long_legend(view))
        }),
        timeline_drawings(parts, None, active, bar)[1] matches DrawingView::Text { line, .. }
            && line[0].content == "Schedule times are invalid"@,
{
}

/// The keys at the foot of the screen are those for the selected field: what is switched is toggled
/// with Enter, and what is moved is moved finely with Shift.
pub proof fn the_foot_names_the_keys(selected: Field)
    ensures
        ({
            let line = footer_line(selected);
            let switched = selected == Field::Mode || selected == Field::Filter || selected
                == Field::Timing;
            &&& line.len() == 8
            &&& line[1].content == " Navigate  "@
            &&& switched ==> line[4].content == " "@ + "Enter"@ + " "@ && line[5].content
                == " Toggle  "@
            &&& !switched ==> line[3].content == " Adjust  "@ && line[4].content == " "@
                + "Shift+←/→"@ + " "@ && line[5].content == " Fine  "@
            &&& line[7].content == " Quit"@
        }),
{
}

/// A metric on two rows shows its level in words above its gauge.
pub proof fn metrics_on_two_rows_show_their_level(
    parts: MetricParts,
    title: Seq<char>,
    value: Seq<char>,
    percent: u8,
    color: Color,
    row: Area,
    bar: Area,
)
    requires
        parts.rows == (MetricRows::Two { value: row, bar }),
    ensures
        ({
            let drawings = metric_drawings(parts, title, value, percent, color);
            &&& drawings.len() == 3
            &&& drawings[1] == text_at(row, seq![piece(value, in_bold(TEXT))], Align::Center)
            &&& drawings[2] matches DrawingView::Gauge { area, percent: filled, .. } && area == bar
                && filled == percent
        }),
{
}

/// A warmth is written with its colour temperature and a brightness as it is; the colours of a
/// timeline tell day, night and the changes between them apart.
pub proof fn levels_are_written_in_percent(n: u8)
    ensures
        percent_text(n) == decimal_text(n as int) + "%"@,
        n <= 100 ==> warmth_text(n) == decimal_text(n as int) + "%  ·  "@ + decimal_text(
            6500 - 40 * n,
        ) + " K"@,
        phase_color(TimelinePhase::Day, true) == COOL,
        phase_color(TimelinePhase::Night, true) == WARM,
        phase_color(TimelinePhase::MorningFade, true) == ACCENT,
        phase_color(TimelinePhase::EveningFade, true) == ACCENT,
{
}

/// The day that is shown is the one of the schedule in force: it goes by the times of the schedule,
/// and the present is the nearest minute. No day is shown exactly if the schedule has no times.
pub proof fn the_day_shown_is_that_of_the_schedule(
    view: Option<TimelineView>,
    settings: SettingsView,
    now: LocalTime,
    sky: Sky,
)
    requires
        now.valid(),
        is_day(view, settings, now, sky),
    ensures
        view is None <==> resolved(settings.schedule, sky) is Err,
        view matches Some(day) ==> (resolved(settings.schedule, sky) matches Ok(times)
            && day.day_start == times.day_start && day.night_start == times.night_start
            && day.transition_minutes == times.transition_minutes && day.shows(times)),
        view matches Some(day) ==> ({
            let second = now.hour * 3600 + now.minute * 60 + now.second;
            day.now_minute == (second + 30) / 60 % 1440
        }),
{
    let second = now.hour * 3600 + now.minute * 60 + now.second;
    assert((second + 30) / 60 == now.whole_minutes() + (if now.second >= 30 {
        1int
    } else {
        0
    }));
}

/// A bar that is drawn has the columns of its day, as many as its row is wide.
pub proof fn bars_have_the_columns_of_their_day(
    bar: Seq<SpanView>,
    parts: TimelineParts,
    view: TimelineView,
    active: bool,
)
    requires
        is_bar(bar, parts, Some(view), active),
    ensures
        parts.rows matches TimelineRows::One { bar: row } ==> cells(bar) == bar_cells(
            view,
            active,
            row.width as int,
        ),
        parts.rows matches TimelineRows::Two { bar: row, .. } ==> cells(bar) == bar_cells(
            view,
            active,
            row.width as int,
        ),
        parts.rows matches TimelineRows::Three { bar: row, .. } ==> cells(bar) == bar_cells(
            view,
            active,
            row.width as int,
        ),
{
}

/// The heading of a timeline names its phases in their colours.
pub proof fn phases_are_named_in_their_colours(active: bool)
    ensures
        phase_piece(TimelinePhase::Day, active).content == " day "@,
        phase_piece(TimelinePhase::Night, active).content == " night "@,
        phase_piece(TimelinePhase::EveningFade, active).content == " fade "@,
        phase_piece(TimelinePhase::Day, active).style.bg == Some(
            phase_color(TimelinePhase::Day, active),
        ),
        phase_piece(TimelinePhase::Night, active).style.bg == Some(
            phase_color(TimelinePhase::Night, active),
        ),
{
}

}
