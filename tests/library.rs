use dustr::aggregate::{round_up_kb, EntryKind, Mode, Tally, POLL_EVERY};
use dustr::collect::{listing_error, ChildOutcome, ChildTotal, Collector, DuError};
use dustr::format::{format_percent, format_size, format_with_grouping, histogram_marks};
use dustr::order::{row_le_exec, sort_rows};
use dustr::progress::{progress_bar, redraw_due_exec};
use dustr::report::{display_name, render_report, type_suffix, MAX_MARKS};

fn row(name: &str, value: u64) -> ChildTotal {
    ChildTotal { name: name.to_string(), value }
}

fn done(value: u64) -> ChildOutcome {
    ChildOutcome { value, interrupted: false, unreadable: false }
}

fn tally_of(mode: Mode, items: &[(EntryKind, u64)]) -> u64 {
    let mut t = Tally::new(mode);
    for &(kind, bytes) in items {
        t.visit(kind, bytes);
    }
    t.total()
}

#[test]
fn round_up_kb_examples() {
    assert_eq!(round_up_kb(0), 0);
    assert_eq!(round_up_kb(1), 1);
    assert_eq!(round_up_kb(1024), 1);
    assert_eq!(round_up_kb(1025), 2);
    assert_eq!(round_up_kb(2048), 2);
    assert_eq!(round_up_kb(u64::MAX), u64::MAX / 1024 + 1);
}

#[test]
fn format_size_examples() {
    assert_eq!(format_size(500), "0.5 Kb");
    assert_eq!(format_size(1500), "1.5 Mb");
    assert_eq!(format_size(1_500_000), "1.5 Gb");
    assert_eq!(format_size(1_500_000_000), "1.5 Tb");
}

#[test]
fn format_size_rounding_and_edges() {
    assert_eq!(format_size(0), "0.0 Kb");
    assert_eq!(format_size(49), "0.0 Kb");
    assert_eq!(format_size(50), "0.1 Kb");
    assert_eq!(format_size(999), "1.0 Kb");
    assert_eq!(format_size(1000), "1.0 Mb");
    assert_eq!(format_size(1249), "1.2 Mb");
    assert_eq!(format_size(1250), "1.3 Mb");
    assert_eq!(format_size(999_999), "1000.0 Mb");
    assert_eq!(format_size(u64::MAX), "18446744073.7 Tb");
}

#[test]
fn grouping_examples() {
    assert_eq!(format_with_grouping(0), "0");
    assert_eq!(format_with_grouping(999), "999");
    assert_eq!(format_with_grouping(1000), "1'000");
    assert_eq!(format_with_grouping(1_234_567), "1'234'567");
    assert_eq!(format_with_grouping(100_000_005), "100'000'005");
    assert_eq!(format_with_grouping(u64::MAX), "18'446'744'073'709'551'615");
}

#[test]
fn percentages_of_full_and_empty_child() {
    let big = round_up_kb(2048);
    let empty = round_up_kb(0);
    let total = big + empty;
    assert_eq!(format_percent(big, total), "100.00");
    assert_eq!(format_percent(empty, total), "0.00");
}

#[test]
fn percentage_rounding_and_zero_total() {
    assert_eq!(format_percent(1, 3), "33.33");
    assert_eq!(format_percent(2, 3), "66.67");
    assert_eq!(format_percent(1, 8), "12.50");
    assert_eq!(format_percent(0, 0), "100.00");
    assert_eq!(format_percent(u64::MAX, u64::MAX), "100.00");
}

#[test]
fn histogram_marks_extremes() {
    assert_eq!(histogram_marks(7, 7, MAX_MARKS), 20);
    assert_eq!(histogram_marks(0, 7, MAX_MARKS), 1);
    assert_eq!(histogram_marks(0, 0, MAX_MARKS), 20);
    assert_eq!(histogram_marks(1, 2, MAX_MARKS), 10);
    assert_eq!(histogram_marks(u64::MAX, u64::MAX, MAX_MARKS), 20);
    assert_eq!(histogram_marks(3, 3, 1), 1);
}

#[test]
fn missing_directory_is_not_found() {
    assert_eq!(listing_error(false, false), DuError::NotFound);
    assert_eq!(listing_error(false, true), DuError::NotFound);
    assert_eq!(listing_error(true, true), DuError::PermissionDenied);
    assert_eq!(listing_error(true, false), DuError::OsError);
}

#[test]
fn size_mode_counts_files_only() {
    let items = [
        (EntryKind::Dir, 4096),
        (EntryKind::File, 2048),
        (EntryKind::File, 0),
        (EntryKind::File, 1),
        (EntryKind::Symlink, 9999),
        (EntryKind::Other, 5000),
    ];
    assert_eq!(tally_of(Mode::Size, &items), 3);
    assert_eq!(tally_of(Mode::Inodes, &items), 6);
    assert_eq!(tally_of(Mode::Size, &[]), 0);
    assert_eq!(tally_of(Mode::Inodes, &[(EntryKind::File, 10)]), 1);
}

#[test]
fn size_total_saturates() {
    let items = [(EntryKind::File, u64::MAX); 1100];
    assert_eq!(tally_of(Mode::Size, &items), u64::MAX);
}

#[test]
fn poll_is_due_once_per_interval() {
    let mut t = Tally::new(Mode::Inodes);
    let mut polls = Vec::new();
    for i in 1..=(2 * POLL_EVERY + 5) {
        if t.visit(EntryKind::File, 1) {
            polls.push(i);
        }
    }
    assert_eq!(polls, vec![POLL_EVERY, 2 * POLL_EVERY]);
}

#[test]
fn walk_outcome_reports_flags() {
    let mut t = Tally::new(Mode::Size);
    t.visit(EntryKind::File, 3000);
    t.skip_unreadable();
    let o = t.outcome(true);
    assert_eq!(o, ChildOutcome { value: 3, interrupted: true, unreadable: true });
    let fresh = Tally::new(Mode::Size).outcome(false);
    assert_eq!(fresh, done(0));
}

#[test]
fn separate_walks_add_up_to_one_walk() {
    let parts: [&[(EntryKind, u64)]; 3] = [
        &[(EntryKind::Dir, 0), (EntryKind::File, 5000), (EntryKind::File, 1)],
        &[(EntryKind::File, 1024)],
        &[(EntryKind::Dir, 0), (EntryKind::Symlink, 0), (EntryKind::File, 1025)],
    ];
    for mode in [Mode::Size, Mode::Inodes] {
        let separate: u64 = parts.iter().map(|p| tally_of(mode, p)).sum();
        let whole: Vec<(EntryKind, u64)> = parts.iter().flat_map(|p| p.iter().copied()).collect();
        assert_eq!(separate, tally_of(mode, &whole));
    }
    assert_eq!(tally_of(Mode::Size, &parts.concat()), 9);
    assert_eq!(tally_of(Mode::Inodes, &parts.concat()), 7);
}

#[test]
fn collector_gives_one_row_per_child_in_listing_order() {
    let names = vec!["a".to_string(), "b".to_string(), "c".to_string()];
    let mut c = Collector::new(names);
    assert_eq!(c.child_count(), 3);
    assert!(!c.is_complete());
    c.record(2, done(30));
    c.record(0, done(10));
    assert!(c.is_recorded(0));
    assert!(!c.is_recorded(1));
    assert_eq!(c.completed_count(), 2);
    let redraw = c.record(1, done(20));
    assert!(redraw);
    assert!(c.is_complete());
    assert!(!c.saw_unreadable());
    let rows = c.finish(false).unwrap();
    assert_eq!(rows, vec![row("a", 10), row("b", 20), row("c", 30)]);
}

#[test]
fn collector_empty_directory() {
    let c = Collector::new(Vec::new());
    assert!(c.is_complete());
    assert_eq!(c.finish(false).unwrap(), Vec::<ChildTotal>::new());
}

#[test]
fn collector_cancelled() {
    let mut c = Collector::new(vec!["x".to_string(), "y".to_string()]);
    c.record(0, done(1));
    c.record(1, ChildOutcome { value: 2, interrupted: true, unreadable: true });
    assert!(c.saw_unreadable());
    assert_eq!(c.finish(false), Err(DuError::Cancelled));

    let mut c = Collector::new(vec!["x".to_string()]);
    c.record(0, done(1));
    assert_eq!(c.finish(true), Err(DuError::Cancelled));
}

#[test]
fn progress_redraw_throttle() {
    assert!(redraw_due_exec(10, 25));
    assert!(redraw_due_exec(20, 25));
    assert!(redraw_due_exec(25, 25));
    assert!(!redraw_due_exec(11, 25));
    assert!(!redraw_due_exec(24, 25));
}

#[test]
fn progress_bar_text() {
    assert_eq!(progress_bar(0, 0), format!("[{}] 0/0", "-".repeat(40)));
    assert_eq!(progress_bar(1, 4), format!("[{}{}] 1/4", ">".repeat(10), "-".repeat(30)));
    assert_eq!(progress_bar(3, 3), format!("[{}] 3/3", ">".repeat(40)));
    assert_eq!(progress_bar(1, 3), format!("[{}{}] 1/3", ">".repeat(13), "-".repeat(27)));
}

#[test]
fn collector_progress_bar() {
    let mut c = Collector::new(vec!["a".to_string(), "b".to_string()]);
    assert!(!c.record(0, done(1)));
    assert_eq!(c.progress_bar(), format!("[{}{}] 1/2", ">".repeat(20), "-".repeat(20)));
}

#[test]
fn type_suffixes() {
    assert_eq!(type_suffix(EntryKind::Symlink), "@");
    assert_eq!(type_suffix(EntryKind::Dir), "/");
    assert_eq!(type_suffix(EntryKind::File), "");
    assert_eq!(type_suffix(EntryKind::Other), "");
    assert_eq!(display_name("docs", EntryKind::Dir, true), "docs/");
    assert_eq!(display_name("docs", EntryKind::Dir, false), "docs");
    assert_eq!(display_name("link", EntryKind::Symlink, true), "link@");
}

#[test]
fn sort_by_value_then_name() {
    let rows = vec![row("b", 5), row("a", 5), row("z", 1), row("ab", 5), row("m", 9)];
    let sorted = sort_rows(rows);
    assert_eq!(
        sorted,
        vec![row("z", 1), row("a", 5), row("ab", 5), row("b", 5), row("m", 9)]
    );
    assert!(row_le_exec(&row("a", 1), &row("a", 1)));
    assert!(!row_le_exec(&row("b", 1), &row("a", 1)));
    assert!(row_le_exec(&row("b", 1), &row("a", 2)));
}

fn line(mag: &str, pct: &str, marks: usize, name: &str) -> String {
    format!("{:<14} {:<6} {:<20} {:<10}\n", mag, pct, "#".repeat(marks), name)
}

#[test]
fn report_in_size_mode() {
    let rows = vec![row("big/", round_up_kb(2048)), row("empty", round_up_kb(0))];
    let text = render_report("d", Mode::Size, true, rows, false);
    let expected = format!(
        "\n\nStatistics of directory \"d\" :\n\n{:<14} {:<6} {:<20} {:<10}\n{}{}\nTotal directory size: 0.0 Kb\n\n",
        "Size",
        "In %",
        "Histogram",
        "Name",
        line("0.0 Kb", "0.00", 1, "empty"),
        line("0.0 Kb", "100.00", 20, "big/"),
    );
    assert_eq!(text, expected);
}

#[test]
fn report_in_inode_mode_with_unreadable_entries() {
    let rows = vec![row("x", 1500), row("y", 500), row("w", 1500)];
    let text = render_report("/tmp", Mode::Inodes, true, rows, true);
    let expected = format!(
        "\n\nStatistics of directory \"/tmp\" :\n\n{:<14} {:<6} {:<20} {:<10}\n{:<42} {:<10}\n{}{}{}\nTotal directory size: 3'500\n\n",
        "inodes",
        "In %",
        "Histogram",
        "Name",
        "Permission denied",
        "<root>",
        line("500", "14.29", 7, "y"),
        line("1'500", "42.86", 20, "w"),
        line("1'500", "42.86", 20, "x"),
    );
    assert_eq!(text, expected);
    let plain = render_report("/tmp", Mode::Inodes, false, vec![row("x", 1500)], false);
    assert!(plain.contains("1500 "));
    assert!(plain.ends_with("\nTotal directory size: 1500\n\n"));
}

#[test]
fn report_of_empty_directory() {
    let text = render_report("e", Mode::Size, true, Vec::new(), false);
    let expected = format!(
        "\n\nStatistics of directory \"e\" :\n\n{:<14} {:<6} {:<20} {:<10}\n\nTotal directory size: 0.0 Kb\n\n",
        "Size", "In %", "Histogram", "Name",
    );
    assert_eq!(text, expected);
}

#[test]
fn report_all_zero_values_get_full_bars() {
    let text = render_report("z", Mode::Inodes, true, vec![row("a", 0), row("b", 0)], false);
    assert!(text.contains(&line("0", "100.00", 20, "a")));
    assert!(text.contains(&line("0", "100.00", 20, "b")));
}

#[test]
fn error_messages() {
    assert_eq!(DuError::NotFound.message(), "Directory not found");
    assert_eq!(DuError::Cancelled.message(), "Interrupted");
}
