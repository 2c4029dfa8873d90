use ratatui::layout::{Margin, Rect};
use waywarm::dashboard::{self, HeaderParts, MetricParts, MetricRows, TimelineRows};
use waywarm::screen::Area;
use waywarm::service_tui;

fn area(x: u16, y: u16, width: u16, height: u16) -> Area {
    Area { x, y, width, height }
}

/// The metric in a frame, as its first and its last column tell.
fn metric(frame: Area, compact: bool) -> MetricParts {
    let row = |n: u16| area(frame.x + 3, frame.y + 1 + n, frame.width - 6, 1);
    MetricParts {
        area: frame,
        rows: if compact {
            MetricRows::One { bar: area(frame.x + 1, frame.y + 1, frame.width - 2, 1) }
        } else {
            MetricRows::Four {
                value: row(0),
                bar: row(2),
                scale: row(3),
                width: frame.width - 6,
            }
        },
    }
}

#[test]
fn the_parts_of_the_settings_have_their_places() {
    for (left, top) in [(0, 0), (3, 5)] {
        for width in [80, 81, 98, 99, 100, 101, 120, 121, 1000, 20_001] {
            for height in [24, 25, 32, 33, 35, 36, 40, 999] {
                let parts = dashboard::screen_parts(area(left, top, width, height));
                let margin = if width >= 100 { 2 } else { 1 };
                let (x, w) = (left + margin, width - 2 * margin);
                let row = |from: u16, rows: u16| area(x, top + from, w, rows);
                let compact = height < 34;
                assert_eq!(parts.areas.compact, compact);
                assert_eq!(parts.areas.notice, row(height - 2, 1));
                assert_eq!(parts.areas.footer, row(height - 1, 1));
                let metrics = if compact { row(2, 3) } else { row(4, 6) };
                assert_eq!(parts.areas.metrics, metrics);
                let first = (w - 1) / 2;
                let warmth = Area { width: first, ..metrics };
                let brightness = Area { x: x + first + 2, width: w - first - 2, ..metrics };
                assert_eq!(parts.warmth, metric(warmth, compact));
                assert_eq!(parts.brightness, metric(brightness, compact));
                let title = area(x, top, w - 12, 1);
                let keys = area(x + w - 12, top, 12, 1);
                if compact {
                    assert_eq!(parts.areas.header, row(0, 2));
                    assert_eq!(parts.areas.timeline, row(5, 3));
                    assert_eq!(parts.areas.settings, row(8, height - 10));
                    assert_eq!(parts.areas.help, None);
                    assert_eq!(
                        parts.header,
                        HeaderParts { area: row(0, 2), main: title, keys, status: None }
                    );
                    assert_eq!(
                        parts.timeline.rows,
                        TimelineRows::One { bar: area(x + 1, top + 6, w - 2, 1) }
                    );
                } else {
                    assert_eq!(parts.areas.header, row(0, 3));
                    assert_eq!(parts.areas.timeline, row(11, 5));
                    assert_eq!(parts.areas.settings, row(17, height - 23));
                    assert_eq!(parts.areas.help, Some(row(height - 5, 3)));
                    assert_eq!(
                        parts.header,
                        HeaderParts {
                            area: row(0, 3),
                            main: title,
                            keys,
                            status: Some(row(1, 1)),
                        }
                    );
                    let inside = |n: u16| area(x + 1, top + 12 + n, w - 2, 1);
                    assert_eq!(
                        parts.timeline.rows,
                        TimelineRows::Three {
                            heading: inside(0),
                            bar: inside(1),
                            legend: inside(2),
                        }
                    );
                }
            }
        }
    }
}

#[test]
fn the_parts_of_the_service_have_their_places() {
    for (left, top) in [(0, 0), (3, 5)] {
        for width in [60, 61, 73, 74, 75, 76, 77, 89, 90, 91, 120, 121, 20_001] {
            for height in [21, 22, 23, 24, 39, 40, 999] {
                let parts = service_tui::screen_parts(area(left, top, width, height));
                let margin = if width >= 90 { 2 } else { 1 };
                let w = (width - 2 * margin).min(72);
                let h = height.min(22);
                let x = left + margin + (width - 2 * margin - w + 1) / 2;
                let y = top + (height - h + 1) / 2;
                let row = |from: u16, rows: u16| area(x, y + from, w, rows);
                assert_eq!(parts.header, row(0, 3));
                assert_eq!(parts.title, area(x, y, w - 12, 2));
                assert_eq!(parts.keys, area(x + w - 12, y, 12, 2));
                assert_eq!(parts.status, row(3, 5));
                let inside = |n: u16| area(x + 2, y + 4 + n, w - 4, 1);
                assert_eq!(
                    (parts.state, parts.binary, parts.unit),
                    (inside(0), inside(1), inside(2))
                );
                assert_eq!(parts.actions, row(8, h - 13));
                assert_eq!(parts.help, row(h - 5, 3));
                assert_eq!(parts.notice, row(h - 2, 1));
                assert_eq!(parts.footer, row(h - 1, 1));
            }
        }
    }
}

#[test]
fn areas_are_centred() {
    for size in (0..60).step_by(7) {
        for room in (0..60).step_by(3) {
            let whole = area(7, 9, room, 2 * room + 1);
            let middle = service_tui::centered_area(whole, size, size);
            let (w, h) = (size.min(room), size.min(2 * room + 1));
            assert_eq!(
                middle,
                area(7 + (room - w + 1) / 2, 9 + (2 * room + 1 - h + 1) / 2, w, h)
            );
        }
    }
}

fn lies_within(part: Area, whole: Area) -> bool {
    whole.x <= part.x
        && whole.y <= part.y
        && part.x + part.width <= whole.x + whole.width
        && part.y + part.height <= whole.y + whole.height
}

#[test]
fn no_part_runs_into_another() {
    for width in [80, 99, 100, 121] {
        for height in 24..=40 {
            let whole = area(3, 5, width, height);
            let parts = dashboard::screen_parts(whole);
            let areas = parts.areas;
            let mut rows = vec![areas.header, areas.metrics, areas.timeline, areas.settings];
            rows.extend(areas.help);
            rows.extend([areas.notice, areas.footer]);
            assert!(rows.iter().all(|row| lies_within(*row, whole)));
            for i in 1..rows.len() {
                assert!(rows[i - 1].y + rows[i - 1].height <= rows[i].y, "{height}: {rows:?}");
            }
            assert!(parts.warmth.area.x + parts.warmth.area.width <= parts.brightness.area.x);
        }
    }
    for width in [60, 89, 90, 121] {
        for height in 18..=30 {
            let whole = area(3, 5, width, height);
            let parts = service_tui::screen_parts(whole);
            let rows = [
                parts.header,
                parts.status,
                parts.actions,
                parts.help,
                parts.notice,
                parts.footer,
            ];
            assert!(rows.iter().all(|row| lies_within(*row, whole)));
            for i in 1..rows.len() {
                assert!(rows[i - 1].y + rows[i - 1].height <= rows[i].y, "{height}: {rows:?}");
            }
            assert!(parts.title.x + parts.title.width <= parts.keys.x);
        }
    }
}

#[test]
fn margins_leave_the_inside() {
    let sizes = [0, 1, 2, 3, 7, 80, 32_767, 32_768, 65_534, 65_535];
    for width in sizes {
        for height in sizes {
            for horizontal in sizes {
                for vertical in sizes {
                    let outer = Rect { x: 0, y: 0, width, height };
                    let inner = outer.inner(Margin { horizontal, vertical });
                    assert_eq!(
                        area(0, 0, width, height).inner(horizontal, vertical),
                        area(inner.x, inner.y, inner.width, inner.height)
                    );
                }
            }
        }
    }
}

#[test]
fn cramped_areas_are_divided_across() {
    for height in 0..24 {
        let areas = dashboard::screen_areas(area(2, 3, 9, height));
        for part in [areas.header, areas.metrics, areas.timeline, areas.settings, areas.footer] {
            assert_eq!((part.x, part.width), (2, 9));
        }
    }
    let parts = dashboard::header_parts(area(2, 3, 5, 2));
    assert_eq!((parts.main.y, parts.main.height, parts.keys.height), (3, 1, 1));
    let parts = dashboard::metric_parts(area(0, 0, 20, 4), true);
    assert_eq!(
        parts.rows,
        MetricRows::Two { value: area(1, 1, 18, 1), bar: area(1, 2, 18, 1) }
    );
    let parts = dashboard::timeline_parts(area(0, 0, 20, 4), true);
    assert_eq!(
        parts.rows,
        TimelineRows::Two { bar: area(1, 1, 18, 1), legend: area(1, 2, 18, 1) }
    );
}
