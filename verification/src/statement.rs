//! Statements: reading one from a line of text, and executing it on a table.
//!
//! A line that starts with `insert` asks for a row to be appended. It is
//! well-formed if its fields, as white space divides them, are at least four:
//! the keyword, an id that reads as an unsigned 32-bit number, a username of
//! at most 32 bytes and an email of at most 255 bytes. A line that starts with
//! `select` asks for all rows.

use crate::layout::{COLUMN_EMAIL_SIZE, COLUMN_USERNAME_SIZE, MAX_ROWS};
use crate::number::{parse_number, parse_u32};
use crate::render::rows_text;
use crate::row::{row_of, Row, RowView};
use crate::table::{
    insert_result, row_views, rows_after_insert, ExecuteResult, Table, TableView,
};
use crate::text::{chars_of, field_bounds, fields, same_text, starts_with};
use vstd::prelude::*;
use vstd::utf8::encode_utf8;

verus! {

/// How a meta-command ended.
#[derive(Debug, PartialEq, Eq, Clone, Copy)]
pub enum MetaCommandResult {
    Success,
    Exit,
    Unrecognized,
}

/// How reading a statement ended.
#[derive(Debug, PartialEq, Eq, Clone, Copy)]
pub enum PrepareResult {
    Success,
    SyntaxError,
    Unrecognized,
}

/// The kinds of statement.
#[derive(Debug, PartialEq, Eq, Clone, Copy)]
pub enum StatementType {
    Insert,
    Select,
}

/// A statement, ready to be executed.
#[derive(Debug)]
pub struct Statement {
    pub statement_type: StatementType,
    pub row_to_insert: Option<Row>,
}

impl Statement {
    /// The row that the statement carries, if it carries one.
    pub open spec fn row(&self) -> Option<RowView> {
        match self.row_to_insert {
            Some(row) => Some(row@),
            None => None,
        }
    }
}

/// The prompt.
pub open spec fn prompt_text() -> Seq<char> {
    "rsql > "@
}

/// The meta-command that ends a session.
pub open spec fn exit_command() -> Seq<char> {
    ".exit"@
}

/// What is written for a meta-command that is not known.
pub open spec fn unrecognized_command_text(command: Seq<char>) -> Seq<char> {
    "Unrecognized Command '"@ + command + "'.\n"@
}

/// `line` starts with the keyword `insert`.
pub open spec fn is_insert(line: Seq<char>) -> bool {
    "insert"@.is_prefix_of(line)
}

/// `line` starts with the keyword `select`.
pub open spec fn is_select(line: Seq<char>) -> bool {
    "select"@.is_prefix_of(line)
}

/// The row that an insert line asks for; `None` if the line is not
/// well-formed.
pub open spec fn insert_row(line: Seq<char>) -> Option<RowView> {
    let f = fields(line);
    if f.len() >= 4 && parse_u32(f[1]) is Some && encode_utf8(f[2]).len() <= COLUMN_USERNAME_SIZE
        && encode_utf8(f[3]).len() <= COLUMN_EMAIL_SIZE {
        Some(row_of(parse_u32(f[1]).unwrap(), encode_utf8(f[2]), encode_utf8(f[3])))
    } else {
        None
    }
}

/// How reading a statement from `line` ends.
pub open spec fn prepare_result(line: Seq<char>) -> PrepareResult {
    if is_insert(line) {
        if insert_row(line) is Some {
            PrepareResult::Success
        } else {
            PrepareResult::SyntaxError
        }
    } else if is_select(line) {
        PrepareResult::Success
    } else {
        PrepareResult::Unrecognized
    }
}

/// The rows of a table of `rows` after `statement` was executed on it.
pub open spec fn rows_after(rows: Seq<RowView>, statement: Statement) -> Seq<RowView> {
    match (statement.statement_type, statement.row()) {
        (StatementType::Insert, Some(row)) => rows_after_insert(rows, row),
        _ => rows,
    }
}

/// The table after `statement` was executed on it: an insert statement that
/// carries a row inserts it, a select statement reads all rows.
pub open spec fn table_after(table: TableView, statement: Statement) -> TableView {
    match (statement.statement_type, statement.row()) {
        (StatementType::Insert, Some(row)) => table.insert(row),
        (StatementType::Insert, None) => table,
        (StatementType::Select, _) => table.select(),
    }
}

/// What executing `statement` on a table of `rows` writes.
pub open spec fn output_of(rows: Seq<RowView>, statement: Statement) -> Seq<char> {
    match statement.statement_type {
        StatementType::Insert => Seq::empty(),
        StatementType::Select => rows_text(rows),
    }
}

/// How executing `statement` on a table of `rows` ends.
pub open spec fn result_of(rows: Seq<RowView>, statement: Statement) -> ExecuteResult {
    match (statement.statement_type, statement.row()) {
        (StatementType::Insert, Some(_)) => insert_result(rows),
        _ => ExecuteResult::Success,
    }
}

/// Appends the prompt to `writer`.
pub fn print_prompt(writer: &mut String)
    ensures
        final(writer)@ == old(writer)@ + prompt_text(),
{
    writer.append("rsql > ");
}

/// Runs the meta-command `buf`. `.exit` asks for the end of the session and
/// writes nothing; any other text is not known, which is written to `writer`.
pub fn do_meta_command(buf: &str, writer: &mut String) -> (result: MetaCommandResult)
    ensures
        buf@ == exit_command() ==> result is Exit && final(writer)@ == old(writer)@,
        buf@ != exit_command() ==> result is Unrecognized && final(writer)@ == old(writer)@
            + unrecognized_command_text(buf@),
{
    let chars = chars_of(buf);
    if same_text(&chars, ".exit") {
        return MetaCommandResult::Exit;
    }
    writer.append("Unrecognized Command '");
    writer.append(buf);
    writer.append("'.\n");
    MetaCommandResult::Unrecognized
}

/// Reads a statement from `buf` into `statement`.
///
/// An insert line sets the kind to `Insert` and, if it is well-formed, the
/// row; a line that is not well-formed ends in `SyntaxError` and leaves the
/// row as it was. A select line sets the kind to `Select`. Any other line ends
/// in `Unrecognized` and leaves the statement as it was.
pub fn prepare_statement(buf: &str, statement: &mut Statement) -> (result: PrepareResult)
    ensures
        result == prepare_result(buf@),
        final(statement).statement_type == if is_insert(buf@) {
            StatementType::Insert
        } else if is_select(buf@) {
            StatementType::Select
        } else {
            old(statement).statement_type
        },
        is_insert(buf@) && insert_row(buf@) is Some ==> final(statement).row() == insert_row(buf@),
        !(is_insert(buf@) && insert_row(buf@) is Some) ==> final(statement).row_to_insert == old(
            statement,
        ).row_to_insert,
{
    let chars = chars_of(buf);
    if starts_with(&chars, "insert") {
        statement.statement_type = StatementType::Insert;
        let bounds = field_bounds(&chars, 4);
        if bounds.len() < 4 {
            return PrepareResult::SyntaxError;
        }
        let id = match parse_number(&chars, bounds[1].0, bounds[1].1) {
            Some(id) => id,
            None => {
                return PrepareResult::SyntaxError;
            },
        };
        let username = buf.substring_char(bounds[2].0, bounds[2].1);
        let email = buf.substring_char(bounds[3].0, bounds[3].1);
        if username.as_bytes().len() > COLUMN_USERNAME_SIZE || email.as_bytes().len()
            > COLUMN_EMAIL_SIZE {
            return PrepareResult::SyntaxError;
        }
        let row = Row::new(id, username.to_owned(), email.to_owned());
        statement.row_to_insert = Some(row);
        return PrepareResult::Success;
    }
    if starts_with(&chars, "select") {
        statement.statement_type = StatementType::Select;
        return PrepareResult::Success;
    }
    PrepareResult::Unrecognized
}

/// Appends `row` to `table`, unless the table is full. A full table is left
/// as it is.
pub fn execute_insert(table: &mut Table, row: &Row) -> (result: ExecuteResult)
    requires
        old(table).wf(),
    ensures
        final(table).wf(),
        result == insert_result(old(table)@.rows()),
        final(table)@ == old(table)@.insert(row@),
        final(table)@.rows() == rows_after_insert(old(table)@.rows(), row@),
        result is TableFull ==> *final(table) == *old(table),
{
    table.insert(row)
}

/// Writes every row of `table` to `writer`, one line each, in the order of
/// insertion.
pub fn execute_select(table: &mut Table, writer: &mut String) -> (result: ExecuteResult)
    requires
        old(table).wf(),
        old(table).num_rows <= MAX_ROWS,
    ensures
        result is Success,
        final(writer)@ == old(writer)@ + rows_text(old(table)@.rows()),
        final(table).wf(),
        final(table)@ == old(table)@.select(),
        final(table)@.rows() == old(table)@.rows(),
{
    let rows = table.select_all();
    let ghost views = row_views(rows@);
    let mut i: usize = 0;
    while i < rows.len()
        invariant
            i <= rows@.len(),
            views == row_views(rows@),
            writer@ == old(writer)@ + rows_text(views.take(i as int)),
        decreases rows@.len() - i,
    {
        rows[i].write(writer);
        proof {
            let seen = views.take(i + 1);
            assert(seen.drop_last() =~= views.take(i as int));
        }
        i += 1;
    }
    assert(views.take(rows@.len() as int) =~= views);
    ExecuteResult::Success
}

/// Executes `statement` on `table`. An insert statement appends its row; one
/// that carries no row does nothing. A select statement writes all rows to
/// `writer`.
pub fn execute_statement(
    table: &mut Table,
    statement: &Statement,
    writer: &mut String,
) -> (result: ExecuteResult)
    requires
        old(table).wf(),
        statement.statement_type is Select ==> old(table).num_rows <= MAX_ROWS,
    ensures
        result == result_of(old(table)@.rows(), *statement),
        final(writer)@ == old(writer)@ + output_of(old(table)@.rows(), *statement),
        final(table).wf(),
        final(table)@ == table_after(old(table)@, *statement),
        final(table)@.rows() == rows_after(old(table)@.rows(), *statement),
        result is TableFull ==> *final(table) == *old(table),
{
    match statement.statement_type {
        StatementType::Insert => {
            match &statement.row_to_insert {
                Some(row) => execute_insert(table, row),
                None => ExecuteResult::Success,
            }
        },
        StatementType::Select => execute_select(table, writer),
    }
}

} // verus!
