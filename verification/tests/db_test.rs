use rsql::{deserialize, serialize, Row, Table, ROW_SIZE};

#[test]
fn db_test_test_row_creation() {
    let row = Row::new(1, "testuser".to_string(), "test@example.com".to_string());
    assert_eq!(row.id, 1);
    assert_eq!(&row.username[..8], b"testuser");
    assert_eq!(&row.email[..16], b"test@example.com");
}

#[test]
fn db_test_test_serialize_deserialize() {
    let original_row = Row::new(1, "testuser".to_string(), "test@example.com".to_string());
    let mut buffer = vec![0u8; ROW_SIZE];

    serialize(&original_row, &mut buffer);
    let deserialized_row = deserialize(&buffer);

    assert_eq!(deserialized_row, original_row);
}

#[test]
fn test_table_insertion() {
    let mut table = Table::new();
    let row = Row::new(1, "testuser".to_string(), "test@example.com".to_string());

    serialize(&row, table.row_slot(0));
    table.num_rows += 1;

    assert_eq!(table.num_rows, 1);
    let deserialized_row = deserialize(table.row_slot(0));
    assert_eq!(deserialized_row.id, 1);
    assert_eq!(&deserialized_row.username[..8], b"testuser");
}

#[test]
fn test_multiple_rows() {
    let mut table = Table::new();

    let row1 = Row::new(1, "user1".to_string(), "user1@example.com".to_string());
    let row2 = Row::new(2, "user2".to_string(), "user2@example.com".to_string());

    serialize(&row1, table.row_slot(0));
    table.num_rows += 1;
    serialize(&row2, table.row_slot(1));
    table.num_rows += 1;

    let deserialized_row1 = deserialize(table.row_slot(0));
    let deserialized_row2 = deserialize(table.row_slot(1));

    assert_eq!(table.num_rows, 2);
    assert_eq!(deserialized_row1.id, 1);
    assert_eq!(deserialized_row2.id, 2);
}
