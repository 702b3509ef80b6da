use rsql::{
    do_meta_command, execute_statement, prepare_statement, print_prompt, run_line, run_repl,
    ExecuteResult, MetaCommandResult, PrepareResult, Row, Statement, StatementType, Table,
    MAX_ROWS,
};

fn blank() -> Statement {
    Statement { statement_type: StatementType::Insert, row_to_insert: None }
}

fn prepare(line: &str) -> (PrepareResult, Statement) {
    let mut statement = Statement { statement_type: StatementType::Select, row_to_insert: None };
    let result = prepare_statement(line, &mut statement);
    (result, statement)
}

fn row(id: u32, username: &str, email: &str) -> Row {
    Row::new(id, username.to_string(), email.to_string())
}

#[test]
fn row_text_strips_the_padding() {
    assert_eq!(row(1, "testuser", "test@example.com").to_string(), "1 testuser test@example.com");
    assert_eq!(row(0, "", "").to_string(), "0  ");
    assert_eq!(row(4294967295, "a", "b").to_string(), "4294967295 a b");
    assert_eq!(row(1000, "a", "b").to_string(), "1000 a b");
    assert_eq!(row(10, "zoë", "ü@ö.de").to_string(), "10 zoë ü@ö.de");
}

#[test]
fn row_text_of_full_width_fields() {
    let username = "u".repeat(32);
    let email = "e".repeat(255);
    assert_eq!(row(2, &username, &email).to_string(), format!("2 {} {}", username, email));
}

#[test]
fn row_text_keeps_zeros_inside_a_field() {
    let mut r = row(3, "ab", "c");
    r.username[3] = b'd';
    assert_eq!(r.to_string(), "3 ab\0d c");
}

#[test]
fn row_text_marks_a_field_that_is_not_utf8() {
    let mut r = row(5, "name", "mail");
    r.username[0] = 0xFF;
    assert_eq!(r.to_string(), "5 Invalid UTF-8 mail");
    let mut r = row(6, "name", "mail");
    r.email[4] = 0xC3;
    assert_eq!(r.to_string(), "6 name Invalid UTF-8");
    let mut r = row(7, "", "");
    r.username[31] = 0xE2;
    r.email[0] = 0x80;
    assert_eq!(r.to_string(), "7 Invalid UTF-8 Invalid UTF-8");
}

#[test]
fn row_text_takes_utf8_as_std_does() {
    let cases: [&[u8]; 10] = [
        &[0xC0, 0x80],
        &[0xE0, 0x80, 0x80],
        &[0xED, 0xA0, 0x80],
        &[0xF4, 0x90, 0x80, 0x80],
        &[0xF8, 0x88, 0x80, 0x80, 0x80],
        &[0x80],
        &[0xC3],
        &[0xC3, 0xA9],
        &[0xED, 0x9F, 0xBF],
        &[0xF4, 0x8F, 0xBF, 0xBF],
    ];
    for bytes in cases.iter() {
        let mut r = row(1, "", "mail");
        r.username[..bytes.len()].copy_from_slice(bytes);
        let expected = match std::str::from_utf8(bytes) {
            Ok(text) => format!("1 {} mail", text),
            Err(_) => "1 Invalid UTF-8 mail".to_string(),
        };
        assert_eq!(r.to_string(), expected, "{:?}", bytes);
    }
}

#[test]
fn row_text_of_a_field_cut_inside_a_character() {
    let mut r = row(1, "", "mail");
    r.username = [b'a'; 32];
    r.username[31] = 0xC3;
    assert_eq!(r.to_string(), "1 Invalid UTF-8 mail");
    r.username[30] = 0xC3;
    r.username[31] = 0xA9;
    assert_eq!(r.to_string(), format!("1 {}é mail", "a".repeat(30)));
}

#[test]
fn row_write_appends_a_line() {
    let mut out = String::from(">");
    row(1, "a", "b").write(&mut out);
    row(2, "c", "d").write(&mut out);
    assert_eq!(out, ">1 a b\n2 c d\n");
}

#[test]
fn prompt_is_appended() {
    let mut out = String::from("x");
    print_prompt(&mut out);
    assert_eq!(out, "xrsql > ");
}

#[test]
fn meta_command_exit() {
    let mut out = String::from("x");
    assert_eq!(do_meta_command(".exit", &mut out), MetaCommandResult::Exit);
    assert_eq!(out, "x");
}

#[test]
fn meta_command_unknown() {
    let mut out = String::from("x");
    assert_eq!(do_meta_command(".tables", &mut out), MetaCommandResult::Unrecognized);
    assert_eq!(out, "xUnrecognized Command '.tables'.\n");
    let mut out = String::new();
    assert_eq!(do_meta_command(".exit ", &mut out), MetaCommandResult::Unrecognized);
    assert_eq!(out, "Unrecognized Command '.exit '.\n");
    let mut out = String::new();
    assert_eq!(do_meta_command("", &mut out), MetaCommandResult::Unrecognized);
    assert_eq!(out, "Unrecognized Command ''.\n");
}

#[test]
fn prepare_insert() {
    let (result, statement) = prepare("insert 1 testuser test@example.com");
    assert_eq!(result, PrepareResult::Success);
    assert_eq!(statement.statement_type, StatementType::Insert);
    assert_eq!(statement.row_to_insert, Some(row(1, "testuser", "test@example.com")));
}

#[test]
fn prepare_insert_ignores_further_fields() {
    let (result, statement) = prepare("insert 2 a b c d");
    assert_eq!(result, PrepareResult::Success);
    assert_eq!(statement.row_to_insert, Some(row(2, "a", "b")));
}

#[test]
fn prepare_insert_looks_at_the_start_of_the_keyword_only() {
    let (result, statement) = prepare("inserted 3 a b");
    assert_eq!(result, PrepareResult::Success);
    assert_eq!(statement.row_to_insert, Some(row(3, "a", "b")));
}

#[test]
fn prepare_insert_divides_at_every_white_space() {
    let (result, statement) = prepare("insert\t4\u{3000}a\u{a0}b");
    assert_eq!(result, PrepareResult::Success);
    assert_eq!(statement.row_to_insert, Some(row(4, "a", "b")));

    let (result, statement) = prepare("insert 5  b");
    assert_eq!(result, PrepareResult::Success);
    assert_eq!(statement.row_to_insert, Some(row(5, "", "b")));

    let (result, statement) = prepare("insert 6 a ");
    assert_eq!(result, PrepareResult::Success);
    assert_eq!(statement.row_to_insert, Some(row(6, "a", "")));

    let (result, statement) = prepare("insert  7 a b");
    assert_eq!(result, PrepareResult::SyntaxError);
    assert_eq!(statement.row_to_insert, None);
}

#[test]
fn prepare_insert_reads_the_id_as_u32() {
    assert_eq!(prepare("insert 0 a b").1.row_to_insert, Some(row(0, "a", "b")));
    assert_eq!(prepare("insert +12 a b").1.row_to_insert, Some(row(12, "a", "b")));
    assert_eq!(prepare("insert 007 a b").1.row_to_insert, Some(row(7, "a", "b")));
    assert_eq!(
        prepare("insert 4294967295 a b").1.row_to_insert,
        Some(row(4294967295, "a", "b"))
    );
    assert_eq!(
        prepare("insert 00000000004294967295 a b").1.row_to_insert,
        Some(row(4294967295, "a", "b"))
    );
    for bad in [
        "insert 4294967296 a b",
        "insert 99999999999999999999999999 a b",
        "insert -1 a b",
        "insert + a b",
        "insert ++1 a b",
        "insert 1x a b",
        "insert x a b",
        "insert 1.0 a b",
        "insert ١ a b",
    ] {
        let (result, statement) = prepare(bad);
        assert_eq!(result, PrepareResult::SyntaxError, "{}", bad);
        assert_eq!(statement.statement_type, StatementType::Insert);
        assert_eq!(statement.row_to_insert, None);
    }
}

#[test]
fn prepare_insert_wants_four_fields() {
    for bad in ["insert", "insert 1", "insert 1 a", "insert1 a b"] {
        let (result, statement) = prepare(bad);
        assert_eq!(result, PrepareResult::SyntaxError, "{}", bad);
        assert_eq!(statement.statement_type, StatementType::Insert);
        assert_eq!(statement.row_to_insert, None);
    }
}

#[test]
fn prepare_insert_refuses_texts_that_do_not_fit() {
    let fits = format!("insert 1 {} {}", "u".repeat(32), "e".repeat(255));
    let (result, statement) = prepare(&fits);
    assert_eq!(result, PrepareResult::Success);
    assert_eq!(statement.row_to_insert, Some(row(1, &"u".repeat(32), &"e".repeat(255))));

    let long_name = format!("insert 1 {} e", "u".repeat(33));
    assert_eq!(prepare(&long_name).0, PrepareResult::SyntaxError);
    assert_eq!(prepare(&long_name).1.row_to_insert, None);

    let long_mail = format!("insert 1 u {}", "e".repeat(256));
    assert_eq!(prepare(&long_mail).0, PrepareResult::SyntaxError);

    let long_in_bytes = format!("insert 1 {} e", "ö".repeat(17));
    assert_eq!(prepare(&long_in_bytes).0, PrepareResult::SyntaxError);
    let fits_in_bytes = format!("insert 1 {} e", "ö".repeat(16));
    assert_eq!(prepare(&fits_in_bytes).0, PrepareResult::Success);
}

#[test]
fn prepare_keeps_the_row_it_does_not_replace() {
    let mut statement =
        Statement { statement_type: StatementType::Select, row_to_insert: Some(row(9, "k", "l")) };
    assert_eq!(prepare_statement("insert nonsense", &mut statement), PrepareResult::SyntaxError);
    assert_eq!(statement.statement_type, StatementType::Insert);
    assert_eq!(statement.row_to_insert, Some(row(9, "k", "l")));

    assert_eq!(prepare_statement("select", &mut statement), PrepareResult::Success);
    assert_eq!(statement.statement_type, StatementType::Select);
    assert_eq!(statement.row_to_insert, Some(row(9, "k", "l")));

    assert_eq!(prepare_statement("update", &mut statement), PrepareResult::Unrecognized);
    assert_eq!(statement.statement_type, StatementType::Select);
    assert_eq!(statement.row_to_insert, Some(row(9, "k", "l")));
}

#[test]
fn prepare_select() {
    for line in ["select", "select *", "selection"] {
        let mut statement = blank();
        assert_eq!(prepare_statement(line, &mut statement), PrepareResult::Success);
        assert_eq!(statement.statement_type, StatementType::Select);
        assert_eq!(statement.row_to_insert, None);
    }
}

#[test]
fn prepare_unknown_keyword() {
    for line in ["", " insert 1 a b", "INSERT 1 a b", "inser", "delete", " select"] {
        let mut statement = blank();
        assert_eq!(prepare_statement(line, &mut statement), PrepareResult::Unrecognized);
        assert_eq!(statement.statement_type, StatementType::Insert);
        assert_eq!(statement.row_to_insert, None);
    }
}

#[test]
fn execute_insert_statement() {
    let mut table = Table::new();
    let mut out = String::new();
    let statement =
        Statement { statement_type: StatementType::Insert, row_to_insert: Some(row(1, "a", "b")) };
    assert_eq!(execute_statement(&mut table, &statement, &mut out), ExecuteResult::Success);
    assert_eq!(table.num_rows, 1);
    assert_eq!(out, "");
    assert_eq!(table.select_all(), vec![row(1, "a", "b")]);
}

#[test]
fn execute_insert_statement_without_a_row() {
    let mut table = Table::new();
    let mut out = String::new();
    assert_eq!(execute_statement(&mut table, &blank(), &mut out), ExecuteResult::Success);
    assert_eq!(table.num_rows, 0);
    assert_eq!(out, "");
}

#[test]
fn execute_insert_statement_on_a_full_table() {
    let mut table = Table::new();
    table.num_rows = MAX_ROWS;
    let mut out = String::new();
    let statement =
        Statement { statement_type: StatementType::Insert, row_to_insert: Some(row(1, "a", "b")) };
    assert_eq!(execute_statement(&mut table, &statement, &mut out), ExecuteResult::TableFull);
    assert_eq!(table.num_rows, MAX_ROWS);
    assert_eq!(out, "");
}

#[test]
fn execute_select_statement() {
    let mut table = Table::new();
    table.insert(&row(1, "a", "b"));
    let mut out = String::new();
    let statement =
        Statement { statement_type: StatementType::Select, row_to_insert: Some(row(2, "c", "d")) };
    assert_eq!(execute_statement(&mut table, &statement, &mut out), ExecuteResult::Success);
    assert_eq!(out, "1 a b\n");
    assert_eq!(table.num_rows, 1);
}

#[test]
fn line_is_trimmed_before_it_is_run() {
    let mut table = Table::new();
    let mut out = String::new();
    assert!(!run_line(&mut table, "  insert 1 a b \r\n", &mut out));
    assert_eq!(out, "");
    assert_eq!(table.select_all(), vec![row(1, "a", "b")]);
    assert!(!run_line(&mut table, "\tselect\n", &mut out));
    assert_eq!(out, "1 a b\n");
    assert!(run_line(&mut table, " .exit\r\n", &mut out));
    assert_eq!(out, "1 a b\n");
}

#[test]
fn line_messages() {
    let mut table = Table::new();
    let mut out = String::new();
    assert!(!run_line(&mut table, ".help\n", &mut out));
    assert_eq!(out, "Unrecognized Command '.help'.\n");

    let mut out = String::new();
    assert!(!run_line(&mut table, "insert one a b\n", &mut out));
    assert_eq!(out, "Syntax Error in 'insert one a b'\n");

    let mut out = String::new();
    assert!(!run_line(&mut table, "  drop everything  \n", &mut out));
    assert_eq!(out, "Unrecognized keyword at start of 'drop everything'\n");

    let mut out = String::new();
    assert!(!run_line(&mut table, "\n", &mut out));
    assert_eq!(out, "Unrecognized keyword at start of ''\n");

    let mut out = String::new();
    table.num_rows = MAX_ROWS;
    assert!(!run_line(&mut table, "insert 8 a b\n", &mut out));
    assert_eq!(out, "Row not inserted, table full '8 a b'\n");
    assert_eq!(table.num_rows, MAX_ROWS);
}

#[test]
fn session_ends_where_the_input_ends() {
    let mut table = Table::new();
    let mut out = String::new();
    run_repl(&mut table, "insert 1 a b\nselect", &mut out);
    assert_eq!(out, "rsql > rsql > 1 a b\nrsql > ");
    assert_eq!(table.num_rows, 1);

    let mut out = String::new();
    run_repl(&mut table, "", &mut out);
    assert_eq!(out, "rsql > ");

    let mut out = String::new();
    run_repl(&mut table, "select\n", &mut out);
    assert_eq!(out, "rsql > 1 a b\nrsql > ");
}

#[test]
fn session_stops_at_exit() {
    let mut table = Table::new();
    let mut out = String::new();
    run_repl(&mut table, "insert 1 a b\n.exit\ninsert 2 c d\nselect\n", &mut out);
    assert_eq!(out, "rsql > rsql > ");
    assert_eq!(table.select_all(), vec![row(1, "a", "b")]);
}

#[test]
fn session_goes_on_after_an_unknown_meta_command() {
    let mut table = Table::new();
    let mut out = String::from("log:");
    run_repl(&mut table, ".x\r\n\r\nselect\r\n.exit", &mut out);
    assert_eq!(
        out,
        "log:rsql > Unrecognized Command '.x'.\nrsql > Unrecognized keyword at start of ''\nrsql > rsql > "
    );
}
