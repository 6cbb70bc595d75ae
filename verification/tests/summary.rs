use noseyparker::datastore::{FindingSummary, FindingSummaryEntry};
use noseyparker::startup::{level_filter, raised_limits, try_main, Action, Command, LevelFilter};
use noseyparker::summarize::{
    format_table, printable_name, summary_table, FindingSummaryReporter,
};

fn entry(name: &str, distinct: usize, total: usize) -> FindingSummaryEntry {
    FindingSummaryEntry {
        rule_name: name.to_string(),
        distinct_count: distinct,
        total_count: total,
        accept_count: 1,
        reject_count: 2,
        mixed_count: 3,
        unlabeled_count: 4,
    }
}

fn cells(row: &prettytable::Row) -> Vec<String> {
    row.iter().map(|c| c.get_content()).collect()
}

#[test]
fn summary_table_has_a_row_for_each_rule() {
    let summary = FindingSummary(vec![entry("AWS key", 12, 1234567), entry("Password", 1, 1)]);
    let table = summary_table(&summary);
    assert_eq!(table.len(), 2);
    assert_eq!(
        cells(table.get_row(0).expect("row")),
        vec!["AWS key", "12", "1,234,567", "1", "2", "3", "4"]
    );
    assert_eq!(cells(table.get_row(1).expect("row")), vec!["Password", "1", "1", "1", "2", "3", "4"]);
}

#[test]
fn names_are_shown_without_escape_characters() {
    assert_eq!(printable_name(""), "");
    assert_eq!(printable_name("AWS key"), "AWS key");
    assert_eq!(printable_name("caf\u{e9}\n\u{644}\u{627}"), "caf\u{e9}\n\u{644}\u{627}");
    assert_eq!(printable_name("\u{1b}[31mred\u{1b}[0m"), "\u{241b}[31mred\u{241b}[0m");
    assert_eq!(printable_name("\u{1b}"), "\u{241b}");
}

#[test]
fn summary_table_takes_a_name_with_an_escape_sequence() {
    let name = "\u{1b}[\u{644}\u{627}\u{644}\u{627}";
    let summary = FindingSummary(vec![entry(name, 1, 2)]);
    let table = summary_table(&summary);
    assert_eq!(
        cells(table.get_row(0).expect("row"))[0],
        "\u{241b}[\u{644}\u{627}\u{644}\u{627}"
    );
    let text = FindingSummaryReporter(summary).human_format();
    assert!(text.contains("\u{241b}[\u{644}\u{627}\u{644}\u{627}"));
    assert!(!text.contains('\u{1b}'));
    assert_eq!(text.lines().count(), 4);
}

#[test]
fn counts_are_written_with_commas_between_groups_of_three() {
    let cases: [(usize, &str); 8] = [
        (0, "0"),
        (7, "7"),
        (999, "999"),
        (1000, "1,000"),
        (12345, "12,345"),
        (123456, "123,456"),
        (1234567, "1,234,567"),
        (1000000000, "1,000,000,000"),
    ];
    for (count, text) in cases {
        let table = summary_table(&FindingSummary(vec![entry("r", count, 1)]));
        assert_eq!(cells(table.get_row(0).expect("row"))[1], text);
    }
}

#[test]
fn summary_table_has_a_line_under_the_titles_only() {
    let table = summary_table(&FindingSummary(vec![entry("a", 1, 1), entry("b", 2, 2)]));
    let expected = prettytable::format::FormatBuilder::new()
        .column_separator(' ')
        .separators(
            &[prettytable::format::LinePosition::Title],
            prettytable::format::LineSeparator::new('\u{2500}', '\u{2500}', '\u{2500}', '\u{2500}'),
        )
        .padding(1, 1)
        .build();
    let mut same = prettytable::Table::new();
    same.set_format(expected);
    let mut titles = prettytable::Row::new(vec![prettytable::Cell::new("Rule").style_spec("lb")]);
    for title in ["Findings", "Matches", "Accepted", "Rejected", "Mixed", "Unlabeled"] {
        titles.add_cell(prettytable::Cell::new(title).style_spec("cb"));
    }
    same.set_titles(titles);
    for name in ["a", "b"] {
        same.add_row(table.get_row(if name == "a" { 0 } else { 1 }).expect("row").clone());
    }
    assert_eq!(table, same);
    assert_eq!(format_table(&table).lines().count(), 5);
}

#[test]
fn summary_table_aligns_names_left_and_counts_right() {
    let summary = FindingSummary(vec![entry("AWS key", 12, 1234567)]);
    let table = summary_table(&summary);
    let row = table.get_row(0).expect("row");
    let mut expected = prettytable::Row::new(vec![prettytable::Cell::new("AWS key").style_spec("l")]);
    for text in ["12", "1,234,567", "1", "2", "3", "4"] {
        expected.add_cell(prettytable::Cell::new(text).style_spec("r"));
    }
    assert_eq!(row, &expected);
}

#[test]
fn summary_text_for_a_reader() {
    let summary = FindingSummary(vec![entry("AWS key", 12, 1234567), entry("Password", 1, 1)]);
    let text = FindingSummaryReporter(summary).human_format();
    assert!(text.starts_with('\n'));
    let lines: Vec<&str> = text.lines().collect();
    assert_eq!(lines.len(), 5);
    assert_eq!(lines[0], "");
    let titles: Vec<&str> = lines[1].split_whitespace().collect();
    assert_eq!(
        titles,
        vec!["Rule", "Findings", "Matches", "Accepted", "Rejected", "Mixed", "Unlabeled"]
    );
    assert!(lines[2].chars().all(|c| c == '\u{2500}'));
    assert!(!lines[2].is_empty());
    let first: Vec<&str> = lines[3].split_whitespace().collect();
    assert_eq!(first, vec!["AWS", "key", "12", "1,234,567", "1", "2", "3", "4"]);
    let second: Vec<&str> = lines[4].split_whitespace().collect();
    assert_eq!(second, vec!["Password", "1", "1", "1", "2", "3", "4"]);
}

#[test]
fn summary_text_is_the_table_after_an_empty_line() {
    let summary = FindingSummary(vec![entry("AWS key", 12, 1234567)]);
    let table = summary_table(&summary);
    assert_eq!(format_table(&table), format!("\n{}", table));
    let text = FindingSummaryReporter(summary).human_format();
    assert_eq!(text, format!("\n{}", table));
}

#[test]
fn summary_text_of_an_empty_summary() {
    let table = summary_table(&FindingSummary(vec![]));
    assert_eq!(table.len(), 0);
    let text = FindingSummaryReporter(FindingSummary(vec![])).human_format();
    let lines: Vec<&str> = text.lines().collect();
    assert_eq!(lines.len(), 3);
    assert_eq!(lines[0], "");
}

#[test]
fn run_of_a_summarize_command() {
    let c = Command::Summarize;
    let mut steps = vec![];
    let mut last = None;
    loop {
        let next = try_main(c, last, true);
        steps.push(next);
        if let Action::Finish { .. } = next {
            break;
        }
        last = Some(next);
    }
    assert_eq!(
        steps,
        vec![
            Action::ConfigureBacktraces,
            Action::ConfigureColor,
            Action::ConfigureTracing,
            Action::ConfigureRlimits,
            Action::OpenDatastore,
            Action::RunSummarize,
            Action::Finish { failed: false },
        ]
    );
}

#[test]
fn run_of_each_command() {
    let open = Some(Action::OpenDatastore);
    assert_eq!(try_main(Command::Scan, open, true), Action::RunScan);
    assert_eq!(try_main(Command::Summarize, open, true), Action::RunSummarize);
    assert_eq!(try_main(Command::Report, open, true), Action::RunReport);
    assert_eq!(try_main(Command::Generate, open, true), Action::RunGenerate);
    assert_eq!(try_main(Command::Datastore, open, true), Action::RunDatastore);
    for c in [Command::Scan, Command::Summarize, Command::Report] {
        assert_eq!(try_main(c, open, false), Action::Finish { failed: true });
    }
}

#[test]
fn scan_is_followed_by_a_report() {
    let c = Command::Scan;
    assert_eq!(try_main(c, Some(Action::RunScan), true), Action::RunReportAfterScan);
    assert_eq!(try_main(c, Some(Action::RunScan), false), Action::Finish { failed: true });
    assert_eq!(try_main(c, Some(Action::RunReportAfterScan), true), Action::Finish { failed: false });
    assert_eq!(try_main(c, Some(Action::RunReportAfterScan), false), Action::Finish { failed: true });
}

#[test]
fn run_ends_where_logging_fails_but_not_where_limits_fail() {
    let c = Command::Report;
    assert_eq!(try_main(c, Some(Action::ConfigureTracing), false), Action::Finish { failed: true });
    assert_eq!(try_main(c, Some(Action::ConfigureRlimits), false), Action::OpenDatastore);
    assert_eq!(try_main(c, Some(Action::ConfigureBacktraces), false), Action::ConfigureColor);
    assert_eq!(try_main(c, Some(Action::ConfigureColor), false), Action::ConfigureTracing);
    assert_eq!(try_main(c, Some(Action::RunReport), false), Action::Finish { failed: true });
    assert_eq!(try_main(c, Some(Action::RunReport), true), Action::Finish { failed: false });
    assert_eq!(
        try_main(c, Some(Action::Finish { failed: true }), true),
        Action::Finish { failed: true }
    );
}

#[test]
fn logging_level_follows_the_flags() {
    assert_eq!(level_filter(true, 0), LevelFilter::Error);
    assert_eq!(level_filter(true, 3), LevelFilter::Error);
    assert_eq!(level_filter(false, 0), LevelFilter::Warn);
    assert_eq!(level_filter(false, 1), LevelFilter::Info);
    assert_eq!(level_filter(false, 2), LevelFilter::Debug);
    assert_eq!(level_filter(false, 3), LevelFilter::Trace);
    assert_eq!(level_filter(false, 255), LevelFilter::Trace);
}

#[test]
fn limits_are_raised_never_lowered() {
    assert_eq!(raised_limits(1024, 4096, 16384), (16384, 16384));
    assert_eq!(raised_limits(1024, 65536, 16384), (16384, 65536));
    assert_eq!(raised_limits(32768, 65536, 16384), (32768, 65536));
    assert_eq!(raised_limits(0, 0, 0), (0, 0));
}
