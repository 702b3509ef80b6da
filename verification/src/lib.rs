//! A single-table record store held in memory: rows of a fixed schema,
//! encoded byte for byte into fixed-size pages that are allocated on first
//! use, and the small command language that fills and reads the table.

pub mod layout;
pub mod number;
pub mod render;
pub mod repl;
pub mod row;
pub mod statement;
pub mod table;
pub mod text;

pub use layout::{
    COLUMN_EMAIL_OFFSET, COLUMN_EMAIL_SIZE, COLUMN_ID_OFFSET, COLUMN_ID_SIZE,
    COLUMN_USERNAME_OFFSET, COLUMN_USERNAME_SIZE, MAX_PAGES, MAX_ROWS, PAGE_SIZE, ROWS_PER_PAGE,
    ROW_SIZE,
};
pub use repl::{run_line, run_repl};
pub use row::{deserialize, serialize, Row, RowView};
pub use statement::{
    do_meta_command, execute_insert, execute_select, execute_statement, prepare_statement,
    print_prompt, MetaCommandResult, PrepareResult, Statement, StatementType,
};
pub use table::{ExecuteResult, Table, TableView};
