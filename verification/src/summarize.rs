//! The summary of findings as a table for a reader.

use prettytable::format::TableFormat;
use prettytable::{Cell, Row, Table};
use vstd::prelude::*;
use vstd::string::*;

use crate::datastore::finding_summary::{FindingSummary, FindingSummaryEntry, SummaryEntryModel};
use crate::text::decimal_text;

verus! {

#[verifier::external_type_specification]
#[verifier::external_body]
pub struct ExTable(prettytable::Table);

#[verifier::external_type_specification]
#[verifier::external_body]
pub struct ExRow(prettytable::Row);

#[verifier::external_type_specification]
#[verifier::external_body]
pub struct ExCell(prettytable::Cell);

#[verifier::external_type_specification]
#[verifier::external_body]
pub struct ExTableFormat(prettytable::format::TableFormat);

/// The cell that is made of a text and a style.
pub uninterp spec fn styled_cell(text: Seq<char>, style: Seq<char>) -> Cell;

/// The format with the given column separator, a line of the given
/// character under the titles, and the given padding on both sides of a cell.
pub uninterp spec fn rule_format(separator: char, line: char, padding: usize) -> TableFormat;

/// The cells of a row, first cell first.
pub uninterp spec fn row_cells(row: Row) -> Seq<Cell>;

/// The rows of a table below its titles, first row first, each as its cells.
pub uninterp spec fn table_rows(table: Table) -> Seq<Seq<Cell>>;

/// The cells of the title row of a table, if it has one.
pub uninterp spec fn table_titles(table: Table) -> Option<Seq<Cell>>;

/// The format of a table.
pub uninterp spec fn table_format(table: Table) -> TableFormat;

/// The text that a table is printed as.
pub uninterp spec fn table_text(table: Table) -> Seq<char>;

/// Digits with a comma before every group of three, counted from the end.
pub open spec fn grouped_digits(digits: Seq<char>) -> Seq<char>
    decreases digits.len(),
{
    if digits.len() <= 3 {
        digits
    } else {
        grouped_digits(digits.take(digits.len() - 3)) + seq![','] + digits.skip(digits.len() - 3)
    }
}

/// The text of a count for a reader: its decimal digits with a comma before
/// every group of three.
pub open spec fn human_count_text(count: u64) -> Seq<char> {
    grouped_digits(decimal_text(count as nat))
}

/// Whether a text holds no escape character.
pub open spec fn escape_free(text: Seq<char>) -> bool {
    forall|i: int| 0 <= i < text.len() ==> #[trigger] text[i] != '\u{1b}'
}

/// Whether none of the first `n` characters of a text is an escape character.
pub open spec fn escape_free_before(text: Seq<char>, n: int) -> bool
    decreases n,
{
    n <= 0 || (text[n - 1] != '\u{1b}' && escape_free_before(text, n - 1))
}

/// What `escape_free_before` says of each of the first `n` characters.
pub proof fn lemma_escape_free_before(text: Seq<char>, n: int)
    requires
        n <= text.len(),
        escape_free_before(text, n),
    ensures
        forall|i: int| 0 <= i < n ==> #[trigger] text[i] != '\u{1b}',
    decreases n,
{
    if n > 0 {
        lemma_escape_free_before(text, n - 1);
    }
}

/// A character as the table shows it: the sign for an escape in place of an
/// escape character, and any other character as it is.
pub open spec fn shown_char(c: char) -> char {
    if c == '\u{1b}' {
        '\u{241b}'
    } else {
        c
    }
}

/// The property of showing a character.
pub open spec fn shows() -> spec_fn(char) -> char {
    |c: char| shown_char(c)
}

/// A rule's name as the table shows it: the sign for an escape in place of
/// every escape character.
pub open spec fn shown_name(name: Seq<char>) -> Seq<char> {
    name.map_values(shows())
}

/// A name without an escape character is shown as it is.
pub proof fn lemma_shown_name_of_plain_name(name: Seq<char>)
    requires
        escape_free(name),
    ensures
        shown_name(name) == name,
{
    assert(shown_name(name) =~= name);
}

/// The decimal digits of a number hold no escape character.
pub proof fn lemma_decimal_text_is_escape_free(n: nat)
    ensures
        escape_free(decimal_text(n)),
    decreases n,
{
    if n >= 10 {
        lemma_decimal_text_is_escape_free(n / 10);
    }
}

/// Digits in groups hold no escape character where the digits hold none.
pub proof fn lemma_grouped_digits_are_escape_free(digits: Seq<char>)
    requires
        escape_free(digits),
    ensures
        escape_free(grouped_digits(digits)),
    decreases digits.len(),
{
    if digits.len() > 3 {
        let front = digits.take(digits.len() - 3);
        let back = digits.skip(digits.len() - 3);
        assert forall|i: int| 0 <= i < front.len() implies #[trigger] front[i] != '\u{1b}' by {
            assert(front[i] == digits[i]);
        }
        lemma_grouped_digits_are_escape_free(front);
        let head = grouped_digits(front) + seq![','];
        let text = head + back;
        assert forall|i: int| 0 <= i < text.len() implies #[trigger] text[i] != '\u{1b}' by {
            if i < grouped_digits(front).len() {
                assert(text[i] == grouped_digits(front)[i]);
            } else if i < head.len() {
                assert(text[i] == ',');
            } else {
                assert(text[i] == back[i - head.len()]);
                assert(back[i - head.len()] == digits[i - head.len() + digits.len() - 3]);
            }
        }
    }
}

/// Calls `prettytable::Cell::new` and, on the cell it gives,
/// `Cell::style_spec`; the outcome has the name `styled_cell`. A text with an
/// escape character is left out, as `Cell::new` measures the text and fails
/// on some texts with escape sequences; a style with the letter `H` is left
/// out, as `style_spec` reads a number after it.
#[verifier::external_body]
fn cell_new(text: &str, style: &str) -> (cell: Cell)
    requires
        escape_free(text@),
        !style@.contains('H'),
    ensures
        cell == styled_cell(text@, style@),
{
    Cell::new(text).style_spec(style)
}

/// Calls `prettytable::Row::new` with no cells.
#[verifier::external_body]
fn row_new() -> (row: Row)
    ensures
        row_cells(row) == Seq::<Cell>::empty(),
{
    Row::new(Vec::new())
}

/// Calls `prettytable::Row::add_cell`: the cell is appended to the row.
#[verifier::external_body]
fn row_add_cell(row: &mut Row, cell: Cell)
    ensures
        row_cells(*final(row)) == row_cells(*old(row)).push(cell),
{
    row.add_cell(cell)
}

/// Calls `prettytable::Table::new`: a table without rows and without titles.
#[verifier::external_body]
fn table_new() -> (table: Table)
    ensures
        table_rows(table) == Seq::<Seq<Cell>>::empty(),
        table_titles(table) is None,
{
    Table::new()
}

/// Calls `prettytable::Table::add_row`: the row is appended; the titles
/// and the format stay.
#[verifier::external_body]
fn table_add_row(table: &mut Table, row: Row)
    ensures
        table_rows(*final(table)) == table_rows(*old(table)).push(row_cells(row)),
        table_titles(*final(table)) == table_titles(*old(table)),
        table_format(*final(table)) == table_format(*old(table)),
{
    table.add_row(row);
}

/// Calls `prettytable::Table::set_titles`: the row becomes the title row;
/// the rows and the format stay.
#[verifier::external_body]
fn table_set_titles(table: &mut Table, titles: Row)
    ensures
        table_titles(*final(table)) == Some(row_cells(titles)),
        table_rows(*final(table)) == table_rows(*old(table)),
        table_format(*final(table)) == table_format(*old(table)),
{
    table.set_titles(titles)
}

/// Calls `prettytable::Table::set_format`: the format becomes the table's
/// format; rows and titles stay.
#[verifier::external_body]
fn table_set_format(table: &mut Table, format: TableFormat)
    ensures
        table_format(*final(table)) == format,
        table_rows(*final(table)) == table_rows(*old(table)),
        table_titles(*final(table)) == table_titles(*old(table)),
{
    table.set_format(format)
}

/// Builds a format with `prettytable::format::FormatBuilder`: the given
/// column separator, a line of the given character under the titles, and the
/// given padding on both sides of a cell. The outcome has the name
/// `rule_format`.
#[verifier::external_body]
fn title_rule_format(separator: char, line: char, padding: usize) -> (format: TableFormat)
    ensures
        format == rule_format(separator, line, padding),
{
    prettytable::format::FormatBuilder::new()
        .column_separator(separator)
        .separators(
            &[prettytable::format::LinePosition::Title],
            prettytable::format::LineSeparator::new(line, line, line, line),
        )
        .padding(padding, padding)
        .build()
}

/// Formats a table with its `Display`; the outcome has the name `table_text`.
#[verifier::external_body]
fn table_to_string(table: &Table) -> (text: String)
    ensures
        text@ == table_text(*table),
{
    format!("{}", table)
}

/// Formats `indicatif::HumanCount`, which writes the decimal digits of the
/// count and a comma after every digit that is followed by a positive
/// multiple of three digits.
#[verifier::external_body]
fn human_count(count: u64) -> (text: String)
    ensures
        text@ == human_count_text(count),
{
    format!("{}", indicatif::HumanCount(count))
}

/// A count as a `u64`, the largest one where it is more.
pub open spec fn count_value(count: nat) -> u64 {
    if count <= u64::MAX {
        count as u64
    } else {
        u64::MAX
    }
}

/// The cells of the table row of a summary entry: the rule's name as it
/// is shown, aligned to the left, and the six counts aligned to the right.
pub open spec fn summary_row(entry: SummaryEntryModel) -> Seq<Cell> {
    seq![
        styled_cell(shown_name(entry.rule_name), "l"@),
        styled_cell(human_count_text(count_value(entry.distinct_count)), "r"@),
        styled_cell(human_count_text(count_value(entry.total_count)), "r"@),
        styled_cell(human_count_text(count_value(entry.accept_count)), "r"@),
        styled_cell(human_count_text(count_value(entry.reject_count)), "r"@),
        styled_cell(human_count_text(count_value(entry.mixed_count)), "r"@),
        styled_cell(human_count_text(count_value(entry.unlabeled_count)), "r"@),
    ]
}

/// The cells of the title row: the first title aligned to the left, the
/// others centred, all of them bold.
pub open spec fn summary_titles() -> Seq<Cell> {
    seq![
        styled_cell("Rule"@, "lb"@),
        styled_cell("Findings"@, "cb"@),
        styled_cell("Matches"@, "cb"@),
        styled_cell("Accepted"@, "cb"@),
        styled_cell("Rejected"@, "cb"@),
        styled_cell("Mixed"@, "cb"@),
        styled_cell("Unlabeled"@, "cb"@),
    ]
}

/// The property of giving a summary entry its table row.
pub open spec fn tabulates() -> spec_fn(SummaryEntryModel) -> Seq<Cell> {
    |entry: SummaryEntryModel| summary_row(entry)
}

/// The format of the summary's table: a blank between columns, a line
/// under the titles, and one blank of padding on both sides of a cell.
pub open spec fn summary_format() -> TableFormat {
    rule_format(' ', '\u{2500}', 1)
}

/// Whether `table` is the table of `summary`: the titles, one row for each
/// entry in the order of the entries, and the summary's format.
pub open spec fn is_summary_table(table: Table, summary: Seq<SummaryEntryModel>) -> bool {
    &&& table_titles(table) == Some(summary_titles())
    &&& table_rows(table) == summary.map_values(tabulates())
    &&& table_format(table) == summary_format()
}

fn add_count_cell(row: &mut Row, count: usize)
    ensures
        row_cells(*final(row)) == row_cells(*old(row)).push(
            styled_cell(human_count_text(count_value(count as nat)), "r"@),
        ),
{
    let value: u64 = if count as u128 <= u64::MAX as u128 {
        count as u64
    } else {
        u64::MAX
    };
    proof {
        reveal_strlit("r");
        lemma_decimal_text_is_escape_free(value as nat);
        lemma_grouped_digits_are_escape_free(decimal_text(value as nat));
    }
    row_add_cell(row, cell_new(human_count(value).as_str(), "r"));
}

/// A rule's name as the table shows it: the sign for an escape in place of
/// every escape character, so that no text with an escape sequence reaches
/// the table.
pub fn printable_name(name: &str) -> (shown: String)
    ensures
        shown@ == shown_name(name@),
        escape_free(shown@),
        escape_free(name@) ==> shown@ == name@,
{
    proof {
        reveal_strlit("\u{241b}");
    }
    let n = name.unicode_len();
    let mut shown = String::new();
    let mut i: usize = 0;
    while i < n
        invariant
            i <= n,
            n == name@.len(),
            shown@ == shown_name(name@.take(i as int)),
        decreases n - i,
    {
        let ghost before = shown@;
        if name.get_char(i) == '\u{1b}' {
            shown.append("\u{241b}");
        } else {
            shown.append(name.substring_char(i, i + 1));
        }
        i += 1;
        proof {
            reveal_strlit("\u{241b}");
            assert(shown@ =~= before.push(shown_char(name@[i - 1])));
            assert(shown_name(name@.take(i as int)) =~= before.push(shown_char(name@[i - 1])));
        }
    }
    proof {
        assert(name@.take(i as int) =~= name@);
        if escape_free(name@) {
            lemma_shown_name_of_plain_name(name@);
        }
    }
    shown
}

fn entry_row(entry: &FindingSummaryEntry) -> (row: Row)
    ensures
        row_cells(row) == summary_row(entry@),
{
    proof {
        reveal_strlit("l");
    }
    let mut row = row_new();
    row_add_cell(&mut row, cell_new(printable_name(entry.rule_name.as_str()).as_str(), "l"));
    add_count_cell(&mut row, entry.distinct_count);
    add_count_cell(&mut row, entry.total_count);
    add_count_cell(&mut row, entry.accept_count);
    add_count_cell(&mut row, entry.reject_count);
    add_count_cell(&mut row, entry.mixed_count);
    add_count_cell(&mut row, entry.unlabeled_count);
    assert(row_cells(row) =~= summary_row(entry@));
    row
}

fn title_row() -> (row: Row)
    ensures
        row_cells(row) == summary_titles(),
{
    proof {
        reveal_strlit("lb");
        reveal_strlit("cb");
        reveal_strlit("Rule");
        reveal_strlit("Findings");
        reveal_strlit("Matches");
        reveal_strlit("Accepted");
        reveal_strlit("Rejected");
        reveal_strlit("Mixed");
        reveal_strlit("Unlabeled");
        reveal_with_fuel(escape_free_before, 10);
        lemma_escape_free_before("Rule"@, 4);
        lemma_escape_free_before("Findings"@, 8);
        lemma_escape_free_before("Matches"@, 7);
        lemma_escape_free_before("Accepted"@, 8);
        lemma_escape_free_before("Rejected"@, 8);
        lemma_escape_free_before("Mixed"@, 5);
        lemma_escape_free_before("Unlabeled"@, 9);
    }
    let mut row = row_new();
    row_add_cell(&mut row, cell_new("Rule", "lb"));
    row_add_cell(&mut row, cell_new("Findings", "cb"));
    row_add_cell(&mut row, cell_new("Matches", "cb"));
    row_add_cell(&mut row, cell_new("Accepted", "cb"));
    row_add_cell(&mut row, cell_new("Rejected", "cb"));
    row_add_cell(&mut row, cell_new("Mixed", "cb"));
    row_add_cell(&mut row, cell_new("Unlabeled", "cb"));
    assert(row_cells(row) =~= summary_titles());
    row
}

/// The summary as a table: a title row, a line under it, and one row for
/// each rule with its name and its counts. A name is shown with the sign for
/// an escape in place of every escape character, and as it is where it
/// holds none.
pub fn summary_table(summary: &FindingSummary) -> (table: Table)
    ensures
        is_summary_table(table, summary@),
{
    let mut table = table_new();
    let mut i: usize = 0;
    while i < summary.0.len()
        invariant
            i <= summary.0.len(),
            table_titles(table) is None,
            table_rows(table) == summary@.take(i as int).map_values(tabulates()),
        decreases summary.0.len() - i,
    {
        let ghost before = table_rows(table);
        table_add_row(&mut table, entry_row(&summary.0[i]));
        i += 1;
        assert(summary@.take(i as int).map_values(tabulates()) =~= before.push(
            summary_row(summary@[i - 1]),
        ));
    }
    assert(summary@.take(i as int) =~= summary@);
    table_set_format(&mut table, title_rule_format(' ', '\u{2500}', 1));
    table_set_titles(&mut table, title_row());
    table
}

/// The text of a table after an empty line.
pub fn format_table(table: &Table) -> (text: String)
    ensures
        text@ == seq!['\n'] + table_text(*table),
{
    proof {
        reveal_strlit("\n");
    }
    let mut text: String = "\n".to_owned();
    text.append(table_to_string(table).as_str());
    assert(text@ =~= seq!['\n'] + table_text(*table));
    text
}

/// A summary that is to be shown.
#[derive(Debug)]
pub struct FindingSummaryReporter(pub FindingSummary);

impl FindingSummaryReporter {
    /// The summary for a reader: an empty line, and then the summary's table.
    pub fn human_format(&self) -> (text: String)
        ensures
            exists|table: Table|
                #![trigger table_text(table)]
                is_summary_table(table, self.0@) && text@ == seq!['\n'] + table_text(table),
    {
        let table = summary_table(&self.0);
        format_table(&table)
    }
}

} // verus!
