//! Colours, plots, layouts and the texts of the screens.
use countercow::app::{App, ProfilePhase, Reading, Status, SECOND};
use countercow::counters::catalog;
use countercow::counters::sample::{CounterKind, CounterSample};
use countercow::ipc::commands::ProcessInfo;
use countercow::ipc::discovery::{Discovery, DotnetProcess};
use countercow::nettrace::payload::Number;
use countercow::rates::Seconds;
use countercow::runtime::events::{AllocationKind, GcReason, GcType};
use countercow::runtime::state::Collection;
use countercow::ui::chart::span_label;
use countercow::ui::dashboard::{self, Details};
use countercow::ui::gradient::{Depth, Gradient, Rgb};
use countercow::ui::graph::{meter, vertical_bar, Graph, Plot};
use countercow::ui::investigate::{self, Body};
use countercow::ui::keys::{KeyCode, KeyEvent};
use countercow::ui::lines::{too_small, Part, Tone};
use countercow::ui::panels::{self, Area};
use countercow::ui::picker::{Entry, Picker, Skipped, Step};
use countercow::ui::profile;
use countercow::ui::theme::{Color, Theme};

// Gradients

#[test]
fn truecolor_is_taken_from_colorterm() {
    assert_eq!(Depth::from_env(Some("truecolor"), None), Depth::True);
    assert_eq!(Depth::from_env(Some("24bit"), None), Depth::True);
    assert_eq!(Depth::from_env(Some("TrueColor"), None), Depth::True);
}

#[test]
fn anything_unproven_falls_back_to_256_colours() {
    assert_eq!(Depth::from_env(None, Some("xterm-256color")), Depth::Ansi256);
    assert_eq!(Depth::from_env(Some(""), Some("screen")), Depth::Ansi256);
    assert_eq!(Depth::from_env(None, None), Depth::Ansi256);
}

#[test]
fn a_direct_colour_terminfo_entry_counts_as_truecolor() {
    assert_eq!(Depth::from_env(None, Some("xterm-direct")), Depth::True);
}

#[test]
fn truecolor_renders_the_exact_channel_values() {
    assert_eq!(Rgb(1, 2, 3).to_color(Depth::True), Color::Rgb(1, 2, 3));
    assert_eq!(Rgb(255, 0, 0).to_color(Depth::Ansi256), Color::Indexed(196));
}

#[test]
fn palette_indices_stay_inside_the_cube_and_grey_ramp() {
    for r in 0..=255u8 {
        let index = Rgb(r, 255 - r, r / 2).to_ansi256();
        assert!((16..=255).contains(&index), "{r} produced {index}");
    }
}

#[test]
fn pure_colours_quantise_to_their_own_cube_corner() {
    // 16 is the cube's black corner, 231 its white one.
    assert_eq!(Rgb(0, 0, 0).to_ansi256(), 16);
    assert_eq!(Rgb(255, 255, 255).to_ansi256(), 231);
    assert_eq!(Rgb(255, 0, 0).to_ansi256(), 196);
}

#[test]
fn near_neutral_colours_use_the_grey_ramp_rather_than_the_cube() {
    // The cube would round this to 0 or 95 and shift it visibly.
    assert!((232..=255).contains(&Rgb(58, 58, 58).to_ansi256()));
}

/// The colour of a palette entry.
fn entry_colour(entry: i32) -> Rgb {
    let levels = [0u8, 95, 135, 175, 215, 255];
    if entry >= 232 {
        let v = (8 + 10 * (entry - 232)) as u8;
        Rgb(v, v, v)
    } else {
        let e = (entry - 16) as usize;
        Rgb(levels[e / 36], levels[e / 6 % 6], levels[e % 6])
    }
}

#[test]
fn no_palette_entry_is_closer_than_the_one_shown() {
    for r in (0..=255u8).step_by(17) {
        for g in (0..=255u8).step_by(15) {
            for b in (0..=255u8).step_by(51) {
                let colour = Rgb(r, g, b);
                let shown = entry_colour(i32::from(colour.to_ansi256())).distance(colour);
                for entry in 16..=255 {
                    assert!(shown <= entry_colour(entry).distance(colour), "{colour:?} {entry}");
                }
            }
        }
    }
}

#[test]
fn a_ramp_around_a_colour_scales_every_channel() {
    for v in 0..=255u8 {
        let ramp = Gradient::around(Rgb(v, 0, 255));
        let dimmed = (f64::from(v) * 0.45).round() as u8;
        let t = 1.35 - 1.0;
        let lightened = (f64::from(v) + (255.0 - f64::from(v)) * t).round() as u8;
        assert_eq!((ramp.low.0, ramp.mid.0, ramp.high.0), (dimmed, v, lightened), "{v}");
    }
}

#[test]
fn a_ramp_around_a_colour_keeps_it_in_the_middle() {
    let base = Rgb(0x22, 0xd3, 0xee);
    assert_eq!(Gradient::around(base).mid, base);
}

// Themes

#[test]
fn the_plot_family_cycles_and_returns_to_braille() {
    let mut theme = Theme::new(Depth::True);
    assert_eq!(theme.plot_name(), "braille");
    theme.cycle_plot();
    assert_eq!(theme.plot_name(), "block");
    theme.cycle_plot();
    assert_eq!(theme.plot_name(), "octant");
    theme.cycle_plot();
    assert_eq!(theme.plot_name(), "braille");
}

#[test]
fn background_is_left_to_the_terminal() {
    assert_eq!(Theme::new(Depth::True).fg, Color::Reset);
}

#[test]
fn every_generation_keeps_its_own_hue_in_the_middle_of_its_ramp() {
    let theme = Theme::new(Depth::True);
    for index in 0..5 {
        assert_eq!(theme.generation_gradient(index).mid, theme.generations[index]);
    }
    assert_eq!(theme.generation_gradient(7).mid, theme.generations[2]);
}

#[test]
fn generation_ramps_run_dark_to_light() {
    let ramp = Theme::new(Depth::True).generation_gradient(0);
    assert!(ramp.low.1 < ramp.mid.1 && ramp.mid.1 < ramp.high.1, "{ramp:?}");
}

#[test]
fn the_chart_ramps_are_distinguishable_from_one_another() {
    let theme = Theme::new(Depth::True);
    assert_ne!(theme.cpu, theme.heap);
    assert_ne!(theme.cpu, theme.rate);
    assert_ne!(theme.heap, theme.rate);
}

#[test]
fn tones_have_their_colours() {
    let theme = Theme::new(Depth::Ansi256);
    assert_eq!(theme.ink(Tone::Plain), theme.fg);
    assert_eq!(theme.ink(Tone::Strong), theme.accent);
    assert_eq!(theme.ink(Tone::Bad), Color::Red);
    assert_eq!(theme.depth, Depth::Ansi256);
}

// Graphs

/// The height of a value in sub-rows. Anything positive draws something.
fn sub_rows_for(value: f64, max: f64, sub_rows: usize) -> usize {
    if max <= 0.0 || !value.is_finite() || value <= 0.0 {
        return 0;
    }
    let scaled = (value / max * sub_rows as f64).round();
    (scaled.clamp(0.0, sub_rows as f64) as usize).max(1)
}

/// Render and return lines of text.
fn draw(values: &[f64], max: f64, plot: Plot, width: u16, height: u16) -> Vec<String> {
    let sub_rows = height as usize * plot.rows_per_cell();
    let heights: Vec<usize> = values.iter().map(|v| sub_rows_for(*v, max, sub_rows)).collect();
    Graph { heights: &heights, plot, width, height }
        .render()
        .iter()
        .map(|row| row.iter().map(|cell| cell.unwrap_or(' ')).collect())
        .collect()
}

#[test]
fn braille_packs_two_samples_into_every_cell() {
    assert_eq!(Graph::capacity(Plot::Braille, 40), 80);
    assert_eq!(Graph::capacity(Plot::Octant, 40), 80);
    assert_eq!(Graph::capacity(Plot::Block, 40), 40);
    assert_eq!(Plot::Octant.samples_per_cell(), 2);
}

#[test]
fn a_full_value_fills_the_column_to_the_top() {
    let lines = draw(&[100.0; 8], 100.0, Plot::Block, 8, 4);
    assert!(lines.iter().all(|line| line == "████████"), "{lines:?}");
}

#[test]
fn an_empty_series_draws_nothing() {
    let lines = draw(&[], 100.0, Plot::Braille, 8, 3);
    assert!(lines.iter().all(|line| line.trim().is_empty()), "{lines:?}");
}

#[test]
fn zeroes_draw_nothing_but_the_smallest_positive_value_still_shows() {
    let zeroes = draw(&[0.0; 8], 100.0, Plot::Block, 8, 4);
    assert!(zeroes.iter().all(|line| line.trim().is_empty()), "{zeroes:?}");

    // Well under a single eighth of one cell, and still visible.
    let tiny = draw(&[0.0001; 8], 100.0, Plot::Block, 8, 4);
    assert_eq!(tiny[3], "▁▁▁▁▁▁▁▁", "a live counter must never look dead");
}

#[test]
fn history_is_anchored_to_the_right_edge() {
    // Two samples in an eight-wide block graph: they belong at the right, not stretched.
    let lines = draw(&[100.0, 100.0], 100.0, Plot::Block, 8, 2);
    assert_eq!(lines[0], "      ██", "{lines:?}");
}

#[test]
fn older_samples_scroll_off_the_left() {
    // Ten samples, room for four: the last four win.
    let values = [0.0, 0.0, 0.0, 0.0, 0.0, 0.0, 100.0, 100.0, 100.0, 100.0];
    let lines = draw(&values, 100.0, Plot::Block, 4, 2);
    assert_eq!(lines[0], "████", "{lines:?}");
}

#[test]
fn a_half_height_value_fills_the_bottom_half_only() {
    let lines = draw(&[50.0; 4], 100.0, Plot::Block, 4, 2);
    assert!(lines[0].trim().is_empty(), "top row should be clear: {lines:?}");
    assert_eq!(lines[1], "████");
}

#[test]
fn values_above_the_scale_are_clamped_rather_than_overflowing() {
    let lines = draw(&[400.0; 4], 100.0, Plot::Block, 4, 2);
    assert!(lines.iter().all(|line| line == "████"), "{lines:?}");
}

#[test]
fn negative_and_non_finite_values_are_treated_as_empty() {
    let lines = draw(&[-5.0, f64::NAN, f64::INFINITY, -0.0], 100.0, Plot::Block, 4, 2);
    assert!(lines.iter().all(|line| line.trim().is_empty()), "{lines:?}");
}

#[test]
fn braille_and_octant_draw_their_own_glyph_families() {
    let braille = draw(&[100.0; 16], 100.0, Plot::Braille, 8, 2);
    assert!(braille[0].chars().all(|c| c == '⣿'), "{braille:?}");

    let octant = draw(&[100.0; 16], 100.0, Plot::Octant, 8, 2);
    assert!(octant[0].chars().all(|c| c == '█'), "{octant:?}");
}

#[test]
fn partial_cells_show_exactly_their_dots() {
    // One cell, four sub-rows: the left column half full, the right one three quarters.
    let heights = [2usize, 3];
    let cell = |plot| Graph { heights: &heights, plot, width: 1, height: 1 }.symbol(0, 0);
    assert_eq!(cell(Plot::Braille), Some('⣴'));
    assert_eq!(cell(Plot::Octant), ratatui::symbols::pixel::OCTANTS.get(0b1111_1000).copied());
    assert_eq!(
        Graph { heights: &[3], plot: Plot::Block, width: 1, height: 1 }.symbol(0, 0),
        Some('▃')
    );
}

#[test]
fn every_pattern_has_the_glyph_of_its_dots() {
    let braille = ratatui::symbols::braille::BRAILLE;
    for left in 0..=4usize {
        for right in 0..=4usize {
            let mut pattern = 0usize;
            for row in 0..4 {
                if left >= 4 - row {
                    pattern |= 1 << (2 * row);
                }
                if right >= 4 - row {
                    pattern |= 1 << (2 * row + 1);
                }
            }
            let heights = [left, right];
            let graph = Graph { heights: &heights, plot: Plot::Braille, width: 1, height: 1 };
            let expected = if pattern == 0 { None } else { Some(braille[pattern]) };
            assert_eq!(graph.symbol(0, 0), expected);
        }
    }
}

#[test]
fn a_braille_blank_is_left_as_a_space_not_a_dotless_cell() {
    // BRAILLE[0] is U+2800, which is not a space and would overwrite anything beneath it.
    let lines = draw(&[0.0; 16], 100.0, Plot::Braille, 8, 2);
    assert!(!lines.concat().contains('\u{2800}'), "{lines:?}");
}

#[test]
fn a_zero_scale_draws_nothing_rather_than_dividing_by_it() {
    let lines = draw(&[5.0; 4], 0.0, Plot::Block, 4, 2);
    assert!(lines.iter().all(|line| line.trim().is_empty()), "{lines:?}");
}

#[test]
fn a_degenerate_area_is_survivable() {
    let heights = [1usize];
    let none = Graph { heights: &heights, plot: Plot::Braille, width: 0, height: 5 }.render();
    assert!(none.iter().all(|row| row.is_empty()));
    assert!(Graph { heights: &heights, plot: Plot::Braille, width: 5, height: 0 }
        .render()
        .is_empty());
}

#[test]
fn a_bar_fills_from_the_bottom_over_its_track() {
    // Half of four rows.
    let filled = (0.5f64 * 32.0).round() as usize;
    assert_eq!(vertical_bar(filled, 4, 0), ('░', false), "the unfilled half shows the track");
    assert_eq!(vertical_bar(filled, 4, 2), ('█', true));
    assert_eq!(vertical_bar(filled, 4, 3), ('█', true));
}

#[test]
fn a_bar_of_almost_nothing_still_shows_a_sliver() {
    let filled = ((0.0001f64 * 32.0).round() as usize).max(1);
    assert_eq!(vertical_bar(filled, 4, 3), ('▁', true));
}

#[test]
fn an_empty_bar_is_all_track() {
    assert_eq!(vertical_bar(0, 2, 1), ('░', false));
}

#[test]
fn a_meter_fills_left_to_right_and_marks_the_rest_as_empty() {
    let filled = (0.4f64 * 10.0).round() as usize;
    let row: String = (0..10).map(|x| meter(filled, x).0).collect();
    assert_eq!(row, "████░░░░░░");
}

#[test]
fn a_meter_clamps_instead_of_running_past_its_area() {
    let filled = (5.0f64.clamp(0.0, 1.0) * 4.0).round() as usize;
    let row: String = (0..4).map(|x| meter(filled, x).0).collect();
    assert_eq!(row, "████");
}

#[test]
fn the_plot_mode_cycles_through_every_family_and_back() {
    let mut plot = Plot::default();
    let mut seen = Vec::new();
    for _ in 0..3 {
        seen.push(plot.name());
        plot = plot.next();
    }
    assert_eq!(seen, ["braille", "block", "octant"]);
    assert_eq!(plot, Plot::Braille, "cycling must return to the start");
}

// Charts

/// Readings a second apart, oldest first.
fn readings(values: &[f64]) -> Vec<Reading> {
    values
        .iter()
        .enumerate()
        .map(|(i, v)| Reading { at: i as u64 * SECOND, value: Number::Double(v.to_bits()) })
        .collect()
}

#[test]
fn the_span_is_measured_from_the_readings_not_the_sample_count() {
    // Ten readings a second apart span nine seconds, whatever rate is in force now.
    let ten = readings(&[1.0; 10]);
    assert_eq!(span_label(&ten, Plot::Braille, 40), Some("-9s".into()));
}

#[test]
fn a_span_covers_only_the_readings_that_fit_on_screen() {
    // Sixty readings into a graph four cells wide: eight fit, so seven seconds are drawn.
    let many = readings(&[1.0; 60]);
    assert_eq!(span_label(&many, Plot::Braille, 4), Some("-7s".into()));
}

#[test]
fn a_single_reading_has_no_span_to_report() {
    assert_eq!(span_label(&readings(&[1.0]), Plot::Braille, 40), None);
}

#[test]
fn spans_are_rounded_as_seconds_are_printed() {
    for nanos in [0u64, 1, 499_999_999, 500_000_000, 1_500_000_000, 2_500_000_000, 2_500_000_001] {
        let pair = [
            Reading { at: 0, value: Number::Int(0) },
            Reading { at: nanos, value: Number::Int(0) },
        ];
        let expected = format!("-{:.0}s", std::time::Duration::from_nanos(nanos).as_secs_f64());
        assert_eq!(span_label(&pair, Plot::Block, 9), Some(expected));
    }
}

#[test]
fn long_spans_are_rounded_as_floating_point_seconds() {
    let mut cases = vec![(16_777_217u64, 499_999_999u64), (16_777_216, 500_000_001)];
    for power in 20..35 {
        for seconds in [1u64 << power, (1 << power) + 1, (2 << power) - 1] {
            for off in [0u64, 1, 2, 3, 4, 7, 8, 59, 60, 953, 954, 1907, 1908] {
                cases.push((seconds, 500_000_000 - off));
                cases.push((seconds, 500_000_000 + off));
            }
        }
    }
    for (seconds, rest) in cases {
        let Some(nanos) = seconds.checked_mul(SECOND).and_then(|n| n.checked_add(rest)) else {
            continue;
        };
        let pair = [
            Reading { at: 0, value: Number::Int(0) },
            Reading { at: nanos, value: Number::Int(0) },
        ];
        let expected = format!("-{:.0}s", std::time::Duration::from_nanos(nanos).as_secs_f64());
        assert_eq!(span_label(&pair, Plot::Block, 9), Some(expected), "{seconds} {rest}");
    }
    let pair = [
        Reading { at: 0, value: Number::Int(0) },
        Reading { at: 16_777_217 * SECOND + 499_999_999, value: Number::Int(0) },
    ];
    assert_eq!(span_label(&pair, Plot::Block, 9).as_deref(), Some("-16777218s"));
}

// The picker

fn process(pid: u32, name: &str) -> DotnetProcess {
    DotnetProcess {
        pid,
        socket: b"/tmp/s".to_vec(),
        name: name.into(),
        command: "cmd".into(),
        start_key_verified: true,
    }
}

fn entry(pid: u32, name: &str, assembly: Option<&str>) -> Entry {
    Entry {
        process: process(pid, name),
        info: assembly.map(|a| ProcessInfo {
            assembly_name: Some(a.into()),
            clr_version: Some("9.0.7".into()),
            ..Default::default()
        }),
    }
}

fn picker(entries: Vec<Entry>) -> Picker {
    Picker::new(Discovery::default(), entries)
}

#[test]
fn prefers_the_entry_assembly_when_the_process_is_just_dotnet() {
    let entry = entry(1, "dotnet", Some("CrimeRate.Front"));
    assert_eq!(entry.display_name(), "CrimeRate.Front");
    assert_eq!(entry.runtime(), "net9.0");
}

#[test]
fn keeps_a_real_executable_name_over_the_assembly_name() {
    let entry = entry(1, "Rider.Backend", Some("Rider.Backend"));
    assert_eq!(entry.display_name(), "Rider.Backend");
}

#[test]
fn falls_back_when_identity_is_unavailable() {
    let entry = entry(1, "dotnet", None);
    assert_eq!(entry.display_name(), "dotnet");
    assert_eq!(entry.runtime(), "—");
}

#[test]
fn selection_starts_at_the_first_entry_and_clamps() {
    let mut picker = picker(vec![entry(1, "a", None), entry(2, "b", None)]);
    assert_eq!(picker.selected().unwrap().process.pid, 1);

    picker.move_by(1);
    assert_eq!(picker.selected().unwrap().process.pid, 2);
    picker.move_by(5);
    assert_eq!(picker.selected().unwrap().process.pid, 2, "clamped at the end");
    picker.move_by(-99);
    assert_eq!(picker.selected().unwrap().process.pid, 1, "clamped at the start");
}

#[test]
fn jumping_to_ends_works() {
    let mut picker = picker(vec![entry(1, "a", None), entry(2, "b", None), entry(3, "c", None)]);
    picker.select_last();
    assert_eq!(picker.selected().unwrap().process.pid, 3);
    picker.select_first();
    assert_eq!(picker.selected().unwrap().process.pid, 1);
}

#[test]
fn an_empty_list_has_no_selection_and_does_not_panic() {
    let mut picker = picker(Vec::new());
    assert!(picker.selected().is_none());
    picker.move_by(1);
    picker.select_last();
    assert!(picker.selected().is_none());
}

#[test]
fn skipped_sockets_are_described_for_the_user() {
    let discovery = Discovery { stale: 81, foreign: 2, ..Default::default() };
    let picker = Picker::new(discovery, Vec::new());
    let text = picker.skipped.describe();
    assert!(text.starts_with("83 sockets skipped"));
    assert!(text.contains("81 stale"));
    assert!(text.contains("2 other users"));
    assert_eq!(text, "83 sockets skipped (81 stale, 2 other users)");
    assert_eq!(
        picker.skipped.report().unwrap(),
        "Skipped 83 sockets: 81 stale, 2 owned by another user."
    );
    let none = Skipped { stale: 0, mismatched: 0, foreign: 0, too_long: 0 };
    assert_eq!((none.total(), none.report()), (0, None));
}

#[test]
fn keys_move_choose_and_cancel() {
    let key = |code| KeyEvent::new(code, false);
    let mut list = picker(vec![entry(1, "a", None), entry(2, "b", None), entry(3, "c", None)]);
    assert_eq!(list.press(key(KeyCode::Char('j'))), Step::Stay);
    assert_eq!(list.selection, Some(1));
    assert_eq!(list.press(key(KeyCode::PageDown)), Step::Stay);
    assert_eq!(list.selection, Some(2));
    assert_eq!(list.press(key(KeyCode::Home)), Step::Stay);
    assert_eq!(list.selection, Some(0));
    assert_eq!(list.press(key(KeyCode::Enter)), Step::Chosen);
    assert!(!list.cancelled);
    assert_eq!(list.press(key(KeyCode::Char('c'))), Step::Stay);
    assert_eq!(list.press(KeyEvent::new(KeyCode::Char('c'), true)), Step::Cancelled);
    assert!(list.cancelled);
    assert_eq!(picker(Vec::new()).press(key(KeyCode::Enter)), Step::Stay);
    let released = KeyEvent { code: KeyCode::Esc, control: false, pressed: false };
    assert_eq!(picker(Vec::new()).press(released), Step::Stay);
}

// The dashboard

fn app() -> App {
    let interval = Seconds { bits: 1.0f64.to_bits() };
    App::new(process(77686, "CrimeRate.VectorTileApi"), ProcessInfo::default(), interval, 0)
}

fn details() -> Details {
    Details {
        framework: Some("net9.0".into()),
        aspnet: true,
        os: "macOS".into(),
        arch: "arm64".into(),
        uptime: 75,
    }
}

fn line(parts: &[Part]) -> String {
    parts.iter().map(|p| p.text.as_str()).collect()
}

#[test]
fn a_wide_header_shows_everything() {
    let parts = dashboard::header("CrimeRate.VectorTileApi", 77686, &details(), 118);
    assert_eq!(
        line(&parts),
        "CrimeRate.VectorTileApi  pid 77686  net9.0  ASP.NET Core  macOS arm64  1m15s"
    );
    assert_eq!(parts[0].tone, Tone::Strong);
}

#[test]
fn a_narrow_header_drops_details_whole() {
    for width in 0..120u16 {
        let text = line(&dashboard::header("CrimeRate.VectorTileApi", 77686, &details(), width));
        assert!(text.starts_with("CrimeRate.VectorTileApi  pid 77686"), "identity is never dropped");
        let shown = text.chars().count();
        assert!(shown <= usize::from(width) || shown == 34, "{width}: {text}");
        for piece in text.split("  ").skip(2) {
            assert!(["net9.0", "ASP.NET Core", "macOS arm64", "1m15s"].contains(&piece), "{piece}");
        }
    }
}

#[test]
fn an_unknown_platform_is_left_out() {
    let mut unknown = Details { os: String::new(), arch: String::new(), ..details() };
    unknown.framework = None;
    unknown.aspnet = false;
    assert_eq!(line(&dashboard::header("a", 1, &unknown, 80)), "a  pid 1  .NET  1m15s");
    unknown.arch = "x64".into();
    assert_eq!(line(&dashboard::header("a", 1, &unknown, 80)), "a  pid 1  .NET  x64  1m15s");
}

#[test]
fn the_footer_drops_whole_hints_from_the_right() {
    assert_eq!(
        line(&dashboard::footer(Plot::Braille, 100)),
        " q quit  ? help  i investigate  c cpu  d detach  p pause  m braille "
    );
    assert_eq!(line(&dashboard::footer(Plot::Braille, 40)), " q quit  ? help  i investigate  c cpu ");
    assert_eq!(line(&dashboard::footer(Plot::Block, 7)), "");
    for width in 0..80 {
        assert!(line(&dashboard::footer(Plot::Octant, width)).chars().count() <= width as usize);
    }
}

#[test]
fn the_status_names_what_ails_a_session() {
    let mut app = app();
    assert_eq!(dashboard::status(&app, false).text, "connecting…");
    app.status = Status::Live;
    assert_eq!(dashboard::status(&app, false).text, "0 counters");
    assert_eq!(dashboard::status(&app, true).text, "stalled");
    app.paused = true;
    assert_eq!(dashboard::status(&app, true).text, "paused");
    app.status = Status::Ended;
    assert_eq!(dashboard::status(&app, false).text, "process exited");
    app.status = Status::Failed("boom".into());
    let failed = dashboard::status(&app, false);
    assert_eq!((failed.text.as_str(), failed.tone), ("boom", Tone::Bad));
}

#[test]
fn below_the_minimum_says_so_rather_than_rendering_mush() {
    let output = too_small(dashboard::MIN_WIDTH, dashboard::MIN_HEIGHT, 50, 14).unwrap();
    assert!(output.contains("Terminal too small"));
    assert!(output.contains("64x20"), "should state what is needed");
}

#[test]
fn investigate_below_the_minimum_says_so() {
    let output = too_small(investigate::MIN_WIDTH, investigate::MIN_HEIGHT, 40, 10).unwrap();
    assert!(output.contains("Terminal too small"));
}

#[test]
fn profile_below_the_minimum_says_so() {
    let output = too_small(profile::MIN_WIDTH, profile::MIN_HEIGHT, 40, 8).unwrap();
    assert!(output.contains("Terminal too small"));
}

#[test]
fn header_degrades_instead_of_truncating_mid_word() {
    let header = |width| line(&dashboard::header("CrimeRate.VectorTileApi", 77686, &details(), width));
    // Two columns of a terminal are taken up by the border.
    assert!(header(118).contains("macOS arm64"), "wide terminal shows the platform");

    let narrow = header(68);
    assert!(narrow.contains("CrimeRate.VectorTileApi"), "identity is never dropped");
    assert!(!narrow.ends_with("macOS arm6"), "no mid-word truncation");
}

#[test]
fn a_narrow_footer_drops_whole_hints_rather_than_half_a_word() {
    // A terminal 64 columns wide leaves 40 for the hints.
    let footer = line(&dashboard::footer(Plot::Braille, 40));
    assert!(footer.contains("q quit"), "the first hint always survives: {footer:?}");
    assert!(footer.contains("? help"), "help must survive, it reveals the other keys");
    assert!(footer.chars().count() <= 40, "footer overflowed: {footer:?}");
    for partial in ["investigat ", "detac ", "paus "] {
        assert!(!footer.contains(partial), "hint cut mid-word: {footer:?}");
    }
}

#[test]
fn small_terminals_are_told_so() {
    assert_eq!(
        too_small(64, 20, 50, 14).as_deref(),
        Some("Terminal too small\nneed 64x20, have 50x14")
    );
    assert_eq!(too_small(64, 20, 64, 20), None);
    assert!(too_small(64, 20, 64, 19).is_some());
}

#[test]
fn short_terminals_drop_the_bars_and_the_gauge() {
    assert!(!dashboard::shows_bars(14) && dashboard::shows_bars(15));
    assert!(!dashboard::shows_gauge(8) && dashboard::shows_gauge(9));
    assert_eq!((dashboard::stats_width(60), dashboard::stats_width(120)), (20, 30));
    assert_eq!((investigate::collections_width(60), investigate::collections_width(120)), (20, 34));
}

// Panels

#[test]
fn value_columns_are_as_wide_as_their_content() {
    let texts = |list: &[&str]| list.iter().map(|s| s.to_string()).collect::<Vec<String>>();
    assert_eq!(panels::value_width(&texts(&[])), 6);
    assert_eq!(panels::value_width(&texts(&["1", "22"])), 4);
    assert_eq!(panels::value_width(&texts(&["1", "12345678", "22"])), 8);
    assert_eq!(panels::value_width(&texts(&["12345678901234567890"])), 14);
    assert_eq!(panels::value_width(&texts(&["…………………"])), 6);
}

#[test]
fn the_slots_divide_the_whole_panel() {
    let area = |width, height| Area { x: 3, y: 2, width, height };
    assert!(panels::generation_slots(area(4, 9)).is_none());
    assert!(panels::generation_slots(area(50, 2)).is_none());
    for width in 5..200u16 {
        let slots = panels::generation_slots(area(width, 9)).unwrap();
        assert_eq!(slots.len(), 5);
        let mut x = 3;
        for slot in &slots {
            assert_eq!(slot.x, x);
            x += slot.width;
            assert!(slot.width == width / 5 || slot.width == width / 5 + 1);
            assert_eq!((slot.bar.y, slot.bar.height), (2, 7));
            assert_eq!((slot.value_y, slot.label_y), (9, 10));
            let padding = u16::from(slot.width >= 5);
            assert_eq!((slot.bar.x, slot.bar.width), (slot.x + padding, slot.width - 2 * padding));
        }
        assert_eq!(x, 3 + width);
    }
}

#[test]
fn shares_are_shown_by_all_slots_or_none() {
    assert!(panels::shows_shares(65, true) && !panels::shows_shares(64, true));
    assert!(!panels::shows_shares(65, false), "nothing to share");
    assert_eq!(panels::centred(10, 8, 4), Some(12));
    assert_eq!(panels::centred(10, 8, 5), Some(11));
    assert_eq!(panels::centred(10, 8, 9), None);
}

#[test]
fn gauges_keep_their_label_inside() {
    let gauge = panels::gauge(30, 6);
    assert_eq!((gauge.meter_width, gauge.label_width), (23, 6));
    let squeezed = panels::gauge(5, 20);
    assert_eq!((squeezed.meter_width, squeezed.label_width), (0, 4));
    let none = panels::gauge(0, 3);
    assert_eq!((none.meter_width, none.label_width), (0, 0));
}

#[test]
fn the_help_stands_in_the_middle() {
    let screen = Area { x: 0, y: 0, width: 120, height: 40 };
    assert_eq!(panels::popup(screen, 19), Area { x: 34, y: 9, width: 52, height: 21 });
    let small = Area { x: 0, y: 0, width: 40, height: 10 };
    assert_eq!(panels::popup(small, 19), Area { x: 2, y: 1, width: 36, height: 8 });
    let tiny = Area { x: 5, y: 5, width: 2, height: 1 };
    assert_eq!(panels::popup(tiny, 19), Area { x: 6, y: 5, width: 0, height: 0 });
}

#[test]
fn panels_list_their_counters() {
    let rows = panels::memory_rows();
    assert_eq!((rows[0].label, rows[0].counter), ("Working set", "working-set"));
    assert!(rows.iter().all(|r| r.provider == catalog::SYSTEM_RUNTIME));
    assert_eq!(panels::gc_activity_rows().len(), 6);
    assert_eq!(panels::runtime_rows().len(), 6);
    assert_eq!(panels::jit_rows().len(), 4);
    assert!(panels::request_rows().iter().all(|r| r.provider == catalog::ASPNET_HOSTING));
    assert!(panels::connection_rows().iter().all(|r| r.provider == catalog::KESTREL));
}

// The other screens

#[test]
fn an_investigation_shows_failures_first_and_silence_as_such() {
    let mut app = app();
    assert_eq!(investigate::body(&app), Body::Waiting);
    app.runtime.record_allocation("T".into(), 10, AllocationKind::Small);
    assert_eq!(investigate::body(&app), Body::Findings);
    app.runtime_error = Some("gone".into());
    assert_eq!(investigate::body(&app), Body::Error);
}

#[test]
fn an_investigation_is_headed_by_its_findings() {
    let mut app = app();
    app.toggle_investigate(0);
    let text = line(&investigate::header(&app, "Api", "0 B", None, 75 * SECOND));
    assert_eq!(text, "Investigating Api  pid 77686   sampling 1m15s");
    app.runtime.record_allocation("T".into(), 10, AllocationKind::Small);
    let text = line(&investigate::header(&app, "Api", "10 B", Some("2.5"), 75 * SECOND));
    assert_eq!(
        text,
        "Investigating Api  pid 77686   10 B allocated  0 GCs  2.5 ms paused   sampling 1m15s"
    );
}

#[test]
fn collections_are_listed_by_what_they_cost() {
    let gc = Collection {
        count: 7,
        generation: 2,
        reason: GcReason::LowMemory,
        gc_type: GcType::Blocking,
        pause: None,
        promoted_bytes: None,
    };
    let row = investigate::collection_row(&gc);
    assert_eq!((row[0].text.as_str(), row[1].text.as_str()), ("#7", "gen2"));
    assert_eq!((row[1].tone, row[2].tone), (Tone::Warn, Tone::Bad));
    assert_eq!(row[2].text, GcReason::LowMemory.label());
    let routine = Collection { generation: 0, reason: GcReason::AllocSmall, ..gc };
    let row = investigate::collection_row(&routine);
    assert_eq!((row[1].tone, row[2].tone), (Tone::Good, Tone::Dim));
}

#[test]
fn a_profile_that_is_over_can_be_run_again() {
    let mut app = app();
    assert_eq!(line(&profile::footer(&app)), " c / Esc back  q quit");
    app.profile_phase = ProfilePhase::Done;
    assert_eq!(line(&profile::footer(&app)), " c / Esc back  r again  w show parked  q quit");
    app.profile_show_waiting = true;
    app.profile_phase = ProfilePhase::Failed("x".into());
    assert_eq!(line(&profile::footer(&app)), " c / Esc back  r again  w hide parked  q quit");
    assert_eq!(profile::title(&app), "Hot methods (including parked threads)");
    assert_eq!(profile::listed_rows(50, 10), 9);
    assert_eq!(profile::listed_rows(5, 10), 5);
    assert_eq!(profile::listed_rows(5, 0), 0);
}

#[test]
fn recorded_counters_are_counted_in_the_footer() {
    let mut app = app();
    let sample = CounterSample {
        provider: "P".into(),
        name: "c".into(),
        display_name: String::new(),
        display_units: String::new(),
        value: Number::Int(1),
        kind: CounterKind::Mean,
        interval_sec: Number::Int(1),
        rate_time_scale: None,
        timestamp: 0,
    };
    app.record(sample, 0);
    assert_eq!(dashboard::status(&app, false).text, "1 counters");
}
