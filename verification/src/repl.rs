//! The session: lines of commands come in, and what they write goes out.
//!
//! Each line is trimmed. A line that starts with a dot is a meta-command; any
//! other line is a statement, which is read and executed. A session writes the
//! prompt before each line it takes, and ends at the meta-command `.exit` or
//! when the lines run out.

use crate::layout::MAX_ROWS;
use crate::number::parse_u32;
use crate::render::{row_text, rows_text};
use crate::row::{lemma_row_of, RowView};
use crate::statement::{
    do_meta_command, execute_statement, exit_command, insert_row, is_insert, prepare_result,
    prepare_statement, print_prompt, prompt_text, unrecognized_command_text, MetaCommandResult,
    PrepareResult, Statement, StatementType,
};
use crate::table::{rows_after_insert, ExecuteResult, Table, TableView};
use crate::text::{chars_of, fields, line_end, lines, trim, trim_bounds};
use vstd::prelude::*;
use vstd::utf8::encode_utf8;

verus! {

/// `input` is a meta-command: it starts with a dot.
pub open spec fn is_meta(input: Seq<char>) -> bool {
    input.len() > 0 && input[0] == '.'
}

/// What is written for a row that a full table did not take.
pub open spec fn table_full_text(row: RowView) -> Seq<char> {
    "Row not inserted, table full '"@ + row_text(row) + "'\n"@
}

/// What is written for an insert line that is not well-formed.
pub open spec fn syntax_error_text(input: Seq<char>) -> Seq<char> {
    "Syntax Error in '"@ + input + "'\n"@
}

/// What is written for a line that starts with no known keyword.
pub open spec fn unrecognized_keyword_text(input: Seq<char>) -> Seq<char> {
    "Unrecognized keyword at start of '"@ + input + "'\n"@
}

/// The line asks for the end of the session.
pub open spec fn line_exits(line: Seq<char>) -> bool {
    is_meta(trim(line)) && trim(line) == exit_command()
}

/// The table after `line` was run on it: a well-formed insert line inserts
/// its row, a select line reads all rows, any other line changes nothing.
pub open spec fn line_table(table: TableView, line: Seq<char>) -> TableView {
    let input = trim(line);
    if is_meta(input) {
        table
    } else {
        match prepare_result(input) {
            PrepareResult::Success => {
                if is_insert(input) {
                    table.insert(insert_row(input).unwrap())
                } else {
                    table.select()
                }
            },
            _ => table,
        }
    }
}

/// What running `line` on a table of `rows` writes.
pub open spec fn line_output(rows: Seq<RowView>, line: Seq<char>) -> Seq<char> {
    let input = trim(line);
    if is_meta(input) {
        if input == exit_command() {
            Seq::empty()
        } else {
            unrecognized_command_text(input)
        }
    } else {
        match prepare_result(input) {
            PrepareResult::Success => {
                if !is_insert(input) {
                    rows_text(rows)
                } else if rows.len() < MAX_ROWS {
                    Seq::empty()
                } else {
                    table_full_text(insert_row(input).unwrap())
                }
            },
            PrepareResult::SyntaxError => syntax_error_text(input),
            PrepareResult::Unrecognized => unrecognized_keyword_text(input),
        }
    }
}

/// The table after a session over `lines`.
pub open spec fn session_table(table: TableView, lines: Seq<Seq<char>>) -> TableView
    decreases lines.len(),
{
    if lines.len() == 0 || line_exits(lines[0]) {
        table
    } else {
        session_table(line_table(table, lines[0]), lines.drop_first())
    }
}

/// What a session over `lines` on `table` writes: the prompt before each line
/// taken, then what the line writes; and the prompt once more where the lines
/// run out.
pub open spec fn session_output(table: TableView, lines: Seq<Seq<char>>) -> Seq<char>
    decreases lines.len(),
{
    if lines.len() == 0 || line_exits(lines[0]) {
        prompt_text()
    } else {
        prompt_text() + line_output(table.rows(), lines[0]) + session_output(
            line_table(table, lines[0]),
            lines.drop_first(),
        )
    }
}

/// Running a line keeps a table well-formed and within its capacity, and
/// changes the rows stored only by appending the row of a well-formed insert
/// line.
pub proof fn lemma_line_table(table: TableView, line: Seq<char>)
    requires
        table.wf(),
        table.num_rows <= MAX_ROWS,
    ensures
        line_table(table, line).wf(),
        line_table(table, line).num_rows <= MAX_ROWS,
        line_table(table, line).num_rows >= table.num_rows,
        line_table(table, line).rows() == if !is_meta(trim(line)) && is_insert(trim(line))
            && insert_row(trim(line)) is Some {
            rows_after_insert(table.rows(), insert_row(trim(line)).unwrap())
        } else {
            table.rows()
        },
{
    let input = trim(line);
    table.lemma_touch(table.num_rows);
    if !is_meta(input) && is_insert(input) && insert_row(input) is Some {
        lemma_row_of(
            parse_u32(fields(input)[1]).unwrap(),
            encode_utf8(fields(input)[2]),
            encode_utf8(fields(input)[3]),
        );
        table.lemma_insert(insert_row(input).unwrap());
    }
}

/// Runs one line of a session on `table` and writes what it has to say to
/// `writer`. Returns whether the line asks for the end of the session.
pub fn run_line(table: &mut Table, line: &str, writer: &mut String) -> (exit: bool)
    requires
        old(table).wf(),
        old(table).num_rows <= MAX_ROWS,
    ensures
        exit == line_exits(line@),
        final(writer)@ == old(writer)@ + line_output(old(table)@.rows(), line@),
        final(table).wf(),
        final(table)@ == line_table(old(table)@, line@),
        final(table).num_rows <= MAX_ROWS,
{
    proof {
        old(table).lemma_view_wf();
        lemma_line_table(old(table)@, line@);
    }
    let chars = chars_of(line);
    let (start, end) = trim_bounds(&chars);
    let input = line.substring_char(start, end);
    if start < end && chars[start] == '.' {
        return match do_meta_command(input, writer) {
            MetaCommandResult::Exit => true,
            _ => false,
        };
    }
    let mut statement = Statement { statement_type: StatementType::Insert, row_to_insert: None };
    match prepare_statement(input, &mut statement) {
        PrepareResult::Success => {
            match execute_statement(table, &statement, writer) {
                ExecuteResult::Success => {},
                ExecuteResult::TableFull => {
                    match &statement.row_to_insert {
                        Some(row) => {
                            writer.append("Row not inserted, table full '");
                            let text = row.to_string();
                            writer.append(text.as_str());
                            writer.append("'\n");
                        },
                        None => {},
                    }
                },
            }
        },
        PrepareResult::SyntaxError => {
            writer.append("Syntax Error in '");
            writer.append(input);
            writer.append("'\n");
        },
        PrepareResult::Unrecognized => {
            writer.append("Unrecognized keyword at start of '");
            writer.append(input);
            writer.append("'\n");
        },
    }
    false
}

/// Runs a session on `table`: takes the lines of `input` one after another,
/// writes the prompt before each and runs it, until a line asks for the end
/// or the input is used up; there the prompt is written once more.
pub fn run_repl(table: &mut Table, input: &str, writer: &mut String)
    requires
        old(table).wf(),
        old(table).num_rows <= MAX_ROWS,
    ensures
        final(writer)@ == old(writer)@ + session_output(old(table)@, lines(input@)),
        final(table).wf(),
        final(table)@ == session_table(old(table)@, lines(input@)),
        final(table).num_rows <= MAX_ROWS,
{
    let chars = chars_of(input);
    let len: usize = chars.len();
    let mut from: usize = 0;
    assert(chars@.skip(0) =~= chars@);
    while from < len
        invariant
            chars@ == input@,
            len == chars@.len(),
            from <= len,
            table.wf(),
            table.num_rows <= MAX_ROWS,
            session_table(old(table)@, lines(input@)) == session_table(
                table@,
                lines(chars@.skip(from as int)),
            ),
            old(writer)@ + session_output(old(table)@, lines(input@)) == writer@ + session_output(
                table@,
                lines(chars@.skip(from as int)),
            ),
        decreases len - from,
    {
        let ghost rest = chars@.skip(from as int);
        print_prompt(writer);
        let end: usize = line_end(&chars, from);
        let next: usize = if end < len {
            end + 1
        } else {
            len
        };
        let line = input.substring_char(from, next);
        proof {
            assert(rest.skip(next - from) =~= chars@.skip(next as int));
            assert(lines(rest)[0] == line@);
            assert(lines(rest).drop_first() =~= lines(chars@.skip(next as int)));
        }
        if run_line(table, line, writer) {
            return;
        }
        from = next;
    }
    print_prompt(writer);
}

} // verus!
