use std::str::FromStr;
use uuid::Uuid;
use virtual_table::{
    Cell, ColumnDefinition, ColumnSpecification, DataType, IntoCell, Row, Table, TableValue,
    VirtualTableError,
};

fn create_demo_table() -> Table {
    Table::create(
        String::from("user"),
        vec![
            ColumnDefinition {
                identifier: String::from("first_name"),
                data_type: DataType::String,
                is_nullable: false,
            },
            ColumnDefinition {
                identifier: String::from("last_name"),
                data_type: DataType::String,
                is_nullable: false,
            },
            ColumnDefinition {
                identifier: String::from("age"),
                data_type: DataType::Integer,
                is_nullable: true,
            },
        ],
    )
}

fn demo_key() -> u128 {
    Uuid::from_str("797724d9-491c-46ac-981c-566d6d65b199").unwrap().as_u128()
}

fn full_row(table: &Table, pk: u128) -> Row {
    let mut row = Row::create(table, pk);
    row.set_cell(String::from("first_name"), "first".into_cell());
    row.set_cell(String::from("last_name"), "last".into_cell());
    row.set_cell(String::from("age"), 69.into_cell());
    row
}

fn value_of(table: &Table, pk: u128, column: &str) -> TableValue {
    let row = table.find_row(&pk, ColumnSpecification::All).expect("Expected a value here.");
    row.entry(&String::from(column))
        .expect("no entry")
        .as_ref()
        .expect("no cell")
        .value()
        .clone()
}

#[test]
fn lib_it_rejects_values_with_different_data_types_than_the_column_definition() {
    let mut table = create_demo_table();
    let mut empty_row = Row::create(&table, Uuid::new_v4().as_u128());

    // An integer for first_name, which expects strings
    empty_row.set_cell(String::from("first_name"), 64.into_cell());

    let result = table.create_row(empty_row);
    assert!(result.is_err());
    let errs = result.unwrap_err();
    assert!(errs.contains(&VirtualTableError::InvalidDataType(
        String::from("first_name"),
        DataType::String,
        DataType::Integer,
    )))
}

#[test]
fn test_it_rejects_values_with_different_data_types_than_the_column_definition() {
    let mut table = create_demo_table();
    let mut empty_row = Row::create(&table, Uuid::new_v4().as_u128());

    // An integer for first_name, which expects strings
    empty_row.set_cell(String::from("first_name"), 64.into_cell());

    let result = table.create_row(empty_row);
    assert!(result.is_err());
    let errs = result.unwrap_err();
    assert!(errs.contains(&VirtualTableError::InvalidDataType(
        String::from("first_name"),
        DataType::String,
        DataType::Integer,
    )))
}

#[test]
fn lib_it_rejects_nulled_values_that_are_defined_as_not_nullable_in_the_column() {
    let mut table = create_demo_table();
    let empty_row = Row::create(&table, Uuid::new_v4().as_u128());

    let result = table.create_row(empty_row);

    assert!(result.is_err());
    let errs = result.unwrap_err();
    assert!(errs.contains(&VirtualTableError::InvalidNullValue(String::from("first_name"))));
    assert!(errs.contains(&VirtualTableError::InvalidNullValue(String::from("last_name"))));
}

#[test]
fn test_it_rejects_nulled_values_that_are_defined_as_not_nullable_in_the_column() {
    let mut table = create_demo_table();
    let empty_row = Row::create(&table, Uuid::new_v4().as_u128());

    let result = table.create_row(empty_row);

    assert!(result.is_err());
    let errs = result.unwrap_err();
    assert!(errs.contains(&VirtualTableError::InvalidNullValue(String::from("first_name"))));
    assert!(errs.contains(&VirtualTableError::InvalidNullValue(String::from("last_name"))));
}

#[test]
fn it_can_fetch_rows_with_all_columns_via_primary_key() {
    let mut table = create_demo_table();

    let pk = demo_key();
    let row = full_row(&table, pk);

    assert!(table.create_row(row.clone()).is_ok());

    assert_eq!(row, table.find_row(&pk, ColumnSpecification::All).expect("Expected a value here."));
}

#[test]
fn it_can_fetch_rows_with_selected_columns_via_primary_key() {
    let mut table = create_demo_table();

    let pk = demo_key();
    let row = full_row(&table, pk);

    assert!(table.create_row(row.clone()).is_ok());

    let mut expected_row = Row::create(&table, pk);
    expected_row.set_cell(String::from("age"), 69.into_cell());

    assert_eq!(
        expected_row,
        table
            .find_row(&pk, ColumnSpecification::Selected(vec![String::from("age")]))
            .expect("Expected a value here.")
    );
}

#[test]
fn new_table_has_key_column_first_and_no_rows() {
    let table = create_demo_table();
    let names: Vec<String> = table.columns().iter().map(|c| c.identifier().clone()).collect();
    assert_eq!(names, vec!["ID", "first_name", "last_name", "age"]);
    assert_eq!(table.columns()[0].data_type(), DataType::Uuid);
    assert!(!table.columns()[0].is_nullable());
    assert_eq!(table.row_count(), 0);
    assert_eq!(table.identifier(), "user");
}

#[test]
fn created_row_is_stored_with_its_key() {
    let mut table = create_demo_table();
    let pk = demo_key();
    assert!(table.create_row(full_row(&table, pk)).is_ok());
    assert_eq!(table.row_count(), 1);
    assert_eq!(table.position_of_key(&pk), Some(0));
    assert_eq!(value_of(&table, pk, "ID"), TableValue::Uuid(pk));
    assert_eq!(value_of(&table, pk, "first_name"), TableValue::String(String::from("first")));
    assert_eq!(value_of(&table, pk, "last_name"), TableValue::String(String::from("last")));
    assert_eq!(value_of(&table, pk, "age"), TableValue::Integer(69));
    for column in table.columns() {
        assert_eq!(column.len(), 1);
    }
}

#[test]
fn unset_nullable_column_reads_back_as_null() {
    let mut table = create_demo_table();
    let pk = demo_key();
    let mut row = Row::create(&table, pk);
    row.set_cell(String::from("first_name"), "first".into_cell());
    row.set_cell(String::from("last_name"), "last".into_cell());
    assert!(table.create_row(row).is_ok());
    assert_eq!(value_of(&table, pk, "age"), TableValue::Null);
}

#[test]
fn partial_update_changes_only_the_given_column() {
    let mut table = create_demo_table();
    let pk = demo_key();
    assert!(table.create_row(full_row(&table, pk)).is_ok());

    let mut update_row = Row::create(&table, pk);
    update_row.set_cell(String::from("first_name"), "changed first name".into_cell());
    assert!(table.update_row(update_row).is_ok());

    assert_eq!(
        value_of(&table, pk, "first_name"),
        TableValue::String(String::from("changed first name"))
    );
    assert_eq!(value_of(&table, pk, "last_name"), TableValue::String(String::from("last")));
    assert_eq!(value_of(&table, pk, "age"), TableValue::Integer(69));
    assert_eq!(table.row_count(), 1);
}

#[test]
fn wrong_type_leaves_zero_rows() {
    let mut table = create_demo_table();
    let pk = demo_key();
    let mut row = full_row(&table, pk);
    row.set_cell(String::from("first_name"), 64.into_cell());
    let errs = table.create_row(row).unwrap_err();
    assert_eq!(
        errs,
        vec![VirtualTableError::InvalidDataType(
            String::from("first_name"),
            DataType::String,
            DataType::Integer
        )]
    );
    assert_eq!(table.row_count(), 0);
    for column in table.columns() {
        assert_eq!(column.len(), 0);
    }
    assert_eq!(
        table.find_row(&pk, ColumnSpecification::All),
        Err(VirtualTableError::UnknownPrimaryKey(pk))
    );
}

#[test]
fn missing_required_column_reports_it_and_stores_nothing() {
    let mut table = create_demo_table();
    let pk = demo_key();
    let mut row = Row::create(&table, pk);
    row.set_cell(String::from("first_name"), "first".into_cell());
    let errs = table.create_row(row).unwrap_err();
    assert_eq!(errs, vec![VirtualTableError::InvalidNullValue(String::from("last_name"))]);
    assert_eq!(table.row_count(), 0);
    assert_eq!(table.position_of_key(&pk), None);
}

#[test]
fn duplicate_key_is_refused_and_changes_nothing() {
    let mut table = create_demo_table();
    let pk = demo_key();
    assert!(table.create_row(full_row(&table, pk)).is_ok());
    let mut second = Row::create(&table, pk);
    second.set_cell(String::from("first_name"), "other".into_cell());
    second.set_cell(String::from("last_name"), "other".into_cell());
    assert_eq!(
        table.create_row(second),
        Err(vec![VirtualTableError::DuplicatePrimaryKey(pk)])
    );
    assert_eq!(table.row_count(), 1);
    assert_eq!(value_of(&table, pk, "first_name"), TableValue::String(String::from("first")));
}

#[test]
fn unknown_column_in_create_is_reported_and_rolled_back() {
    let mut table = create_demo_table();
    let pk = demo_key();
    let mut row = full_row(&table, pk);
    row.set_cell(String::from("height"), 180.into_cell());
    assert_eq!(
        table.create_row(row),
        Err(vec![VirtualTableError::UnknownColumn(String::from("height"))])
    );
    assert_eq!(table.row_count(), 0);
    for column in table.columns() {
        assert_eq!(column.len(), 0);
    }
}

#[test]
fn all_problems_of_a_create_are_reported_together() {
    let mut table = create_demo_table();
    let mut row = Row::create(&table, Uuid::new_v4().as_u128());
    row.set_cell(String::from("height"), 180.into_cell());
    row.set_cell(String::from("age"), "old".into_cell());
    let errs = table.create_row(row).unwrap_err();
    assert_eq!(
        errs,
        vec![
            VirtualTableError::UnknownColumn(String::from("height")),
            VirtualTableError::InvalidNullValue(String::from("first_name")),
            VirtualTableError::InvalidNullValue(String::from("last_name")),
            VirtualTableError::InvalidDataType(
                String::from("age"),
                DataType::Integer,
                DataType::String
            ),
        ]
    );
}

#[test]
fn second_row_goes_to_the_next_position() {
    let mut table = create_demo_table();
    let first = demo_key();
    let second = Uuid::new_v4().as_u128();
    assert!(table.create_row(full_row(&table, first)).is_ok());
    let mut row = Row::create(&table, second);
    row.set_cell(String::from("first_name"), "a".into_cell());
    row.set_cell(String::from("last_name"), "b".into_cell());
    assert!(table.create_row(row).is_ok());
    assert_eq!(table.row_count(), 2);
    assert_eq!(table.position_of_key(&second), Some(1));
    assert_eq!(table.columns()[1].value_at(1), Some(&TableValue::String(String::from("a"))));
    assert_eq!(table.columns()[3].value_at(1), Some(&TableValue::Null));
    assert_eq!(table.columns()[3].value_at(2), None);
}

#[test]
fn failed_update_restores_every_column() {
    let mut table = create_demo_table();
    let pk = demo_key();
    assert!(table.create_row(full_row(&table, pk)).is_ok());
    let mut update_row = Row::create(&table, pk);
    update_row.set_cell(String::from("first_name"), "changed".into_cell());
    update_row.set_cell(String::from("age"), "not a number".into_cell());
    assert_eq!(
        table.update_row(update_row),
        Err(vec![VirtualTableError::InvalidDataType(
            String::from("age"),
            DataType::Integer,
            DataType::String
        )])
    );
    assert_eq!(value_of(&table, pk, "first_name"), TableValue::String(String::from("first")));
    assert_eq!(value_of(&table, pk, "age"), TableValue::Integer(69));
    assert_eq!(table.row_count(), 1);
}

#[test]
fn update_with_unknown_key_or_column_is_refused() {
    let mut table = create_demo_table();
    let pk = demo_key();
    let other = Uuid::new_v4().as_u128();
    assert_eq!(
        table.update_row(Row::create(&table, other)),
        Err(vec![VirtualTableError::UnknownPrimaryKey(other)])
    );
    assert!(table.create_row(full_row(&table, pk)).is_ok());
    let mut update_row = Row::create(&table, pk);
    update_row.set_cell(String::from("height"), 1.into_cell());
    assert_eq!(
        table.update_row(update_row),
        Err(vec![VirtualTableError::UnknownColumn(String::from("height"))])
    );
    assert_eq!(value_of(&table, pk, "first_name"), TableValue::String(String::from("first")));
}

#[test]
fn update_to_null_in_nullable_column_is_accepted() {
    let mut table = create_demo_table();
    let pk = demo_key();
    assert!(table.create_row(full_row(&table, pk)).is_ok());
    let mut update_row = Row::create(&table, pk);
    update_row.set_cell(String::from("age"), Cell::null(DataType::Integer));
    assert!(table.update_row(update_row).is_ok());
    assert_eq!(value_of(&table, pk, "age"), TableValue::Null);
    let mut update_row = Row::create(&table, pk);
    update_row.set_cell(String::from("last_name"), Cell::null(DataType::String));
    assert_eq!(
        table.update_row(update_row),
        Err(vec![VirtualTableError::InvalidNullValue(String::from("last_name"))])
    );
    assert_eq!(value_of(&table, pk, "last_name"), TableValue::String(String::from("last")));
}

#[test]
fn find_with_unknown_column_or_key_fails() {
    let mut table = create_demo_table();
    let pk = demo_key();
    let other = Uuid::new_v4().as_u128();
    assert!(table.create_row(full_row(&table, pk)).is_ok());
    assert_eq!(
        table.find_row(
            &pk,
            ColumnSpecification::Selected(vec![String::from("age"), String::from("height")])
        ),
        Err(VirtualTableError::UnknownColumn(String::from("height")))
    );
    assert_eq!(
        table.find_row(&other, ColumnSpecification::Selected(vec![String::from("height")])),
        Err(VirtualTableError::UnknownColumn(String::from("height")))
    );
    assert_eq!(
        table.find_row(&other, ColumnSpecification::All),
        Err(VirtualTableError::UnknownPrimaryKey(other))
    );
}

#[test]
fn row_set_cell_replaces_an_entry() {
    let table = create_demo_table();
    let pk = demo_key();
    let mut row = Row::create(&table, pk);
    assert_eq!(row.primary_key(), pk);
    assert!(row.entry(&String::from("age")).unwrap().is_none());
    row.set_cell(String::from("age"), 1.into_cell());
    row.set_cell(String::from("age"), 2.into_cell());
    assert_eq!(row.entry(&String::from("age")), Some(&Some(2.into_cell())));
    assert_eq!(row.entry(&String::from("ID")), Some(&Some(Cell::key(pk))));
    assert_eq!(row.entry(&String::from("height")), None);
    row.set_cell(String::from("height"), 3.into_cell());
    assert_eq!(row.entry(&String::from("height")), Some(&Some(3.into_cell())));
}

#[test]
fn into_cell_tags_values() {
    let c = 5i64.into_cell();
    assert_eq!(c.data_type(), DataType::Integer);
    assert_eq!(c.value(), &TableValue::Integer(5));
    let c = String::from("x").into_cell();
    assert_eq!(c.data_type(), DataType::String);
    assert_eq!(c.value(), &TableValue::String(String::from("x")));
    let c = "y".into_cell();
    assert_eq!(c.value(), &TableValue::String(String::from("y")));
    assert_eq!(Cell::null(DataType::Uuid).value(), &TableValue::Null);
    assert_eq!(c.duplicate(), c);
}

#[test]
fn values_render_as_text() {
    assert_eq!(TableValue::Null.to_text(), "*NULL*");
    assert_eq!(TableValue::Integer(69).to_text(), "69");
    assert_eq!(TableValue::Integer(-42).to_text(), "-42");
    assert_eq!(TableValue::Integer(0).to_text(), "0");
    assert_eq!(TableValue::String(String::from("last")).to_text(), "last");
    assert_eq!(
        TableValue::Uuid(demo_key()).to_text(),
        "797724d9-491c-46ac-981c-566d6d65b199"
    );
    assert!(TableValue::Null.is_null());
    assert!(!TableValue::Integer(1).is_null());
}

fn definition(name: &str, data_type: DataType, is_nullable: bool) -> ColumnDefinition {
    ColumnDefinition { identifier: String::from(name), data_type, is_nullable }
}

#[test]
fn definitions_are_valid_only_with_distinct_names() {
    assert!(Table::definitions_valid(&vec![]));
    assert!(Table::definitions_valid(&vec![
        definition("first_name", DataType::String, false),
        definition("age", DataType::Integer, true),
    ]));
    assert!(!Table::definitions_valid(&vec![
        definition("age", DataType::String, false),
        definition("name", DataType::String, false),
        definition("age", DataType::Integer, true),
    ]));
    assert!(!Table::definitions_valid(&vec![definition("ID", DataType::Uuid, false)]));
}

#[test]
fn table_value_from_native_values() {
    assert_eq!(TableValue::from(7i64), TableValue::Integer(7));
    assert_eq!(TableValue::from(String::from("z")), TableValue::String(String::from("z")));
}

#[test]
fn lib_can_create_table() {
    let table = create_demo_table();

    let expected = "\
+----+------------+-----------+-----+
| ID | first_name | last_name | age |
+----+------------+-----------+-----+
+----+------------+-----------+-----+
";

    assert_eq!(expected, table.to_text().replace("\r\n", "\n"));
}

#[test]
fn test_can_create_table() {
    let table = create_demo_table();

    let expected = "\
+----+------------+-----------+-----+
| ID | first_name | last_name | age |
+----+------------+-----------+-----+
+----+------------+-----------+-----+
";

    assert_eq!(expected, table.to_text().replace("\r\n", "\n"));
}

#[test]
fn lib_can_create_row() {
    let mut table = create_demo_table();
    let pk = Uuid::from_str("797724d9-491c-46ac-981c-566d6d65b199").unwrap().as_u128();

    let mut row = Row::create(&table, pk);
    row.set_cell(String::from("first_name"), "first".into_cell());
    row.set_cell(String::from("last_name"), "last".into_cell());
    row.set_cell(String::from("age"), 69.into_cell());

    let _ = table.create_row(row);

    let expected = "\
+--------------------------------------+------------+-----------+-----+
| ID                                   | first_name | last_name | age |
+--------------------------------------+------------+-----------+-----+
| 797724d9-491c-46ac-981c-566d6d65b199 | first      | last      | 69  |
+--------------------------------------+------------+-----------+-----+
";

    assert_eq!(expected, table.to_text().replace("\r\n", "\n"));
}

#[test]
fn test_can_create_row() {
    let mut table = create_demo_table();
    let pk = Uuid::from_str("797724d9-491c-46ac-981c-566d6d65b199").unwrap().as_u128();

    let mut row = Row::create(&table, pk);
    row.set_cell(String::from("first_name"), "first".into_cell());
    row.set_cell(String::from("last_name"), "last".into_cell());
    row.set_cell(String::from("age"), 69.into_cell());

    let _ = table.create_row(row);

    let expected = "\
+--------------------------------------+------------+-----------+-----+
| ID                                   | first_name | last_name | age |
+--------------------------------------+------------+-----------+-----+
| 797724d9-491c-46ac-981c-566d6d65b199 | first      | last      | 69  |
+--------------------------------------+------------+-----------+-----+
";

    assert_eq!(expected, table.to_text().replace("\r\n", "\n"));
}

#[test]
fn lib_can_partially_update_row() {
    let mut table = create_demo_table();
    let pk = Uuid::from_str("797724d9-491c-46ac-981c-566d6d65b199").unwrap().as_u128();

    // The initial state of the row
    let mut row = Row::create(&table, pk);
    row.set_cell(String::from("first_name"), "first".into_cell());
    row.set_cell(String::from("last_name"), "last".into_cell());
    row.set_cell(String::from("age"), 69.into_cell());

    let _ = table.create_row(row);

    // Only first_name changes; everything else stays the same
    let mut update_row = Row::create(&table, pk);
    update_row.set_cell(String::from("first_name"), "changed first name".into_cell());
    assert!(table.update_row(update_row).is_ok());

    let expected = "\
+--------------------------------------+--------------------+-----------+-----+
| ID                                   | first_name         | last_name | age |
+--------------------------------------+--------------------+-----------+-----+
| 797724d9-491c-46ac-981c-566d6d65b199 | changed first name | last      | 69  |
+--------------------------------------+--------------------+-----------+-----+
";

    assert_eq!(expected, table.to_text().replace("\r\n", "\n"));
}

#[test]
fn test_can_partially_update_row() {
    let mut table = create_demo_table();
    let pk = Uuid::from_str("797724d9-491c-46ac-981c-566d6d65b199").unwrap().as_u128();

    // The initial state of the row
    let mut row = Row::create(&table, pk);
    row.set_cell(String::from("first_name"), "first".into_cell());
    row.set_cell(String::from("last_name"), "last".into_cell());
    row.set_cell(String::from("age"), 69.into_cell());

    let _ = table.create_row(row);

    // Only first_name changes; everything else stays the same
    let mut update_row = Row::create(&table, pk);
    update_row.set_cell(String::from("first_name"), "changed first name".into_cell());
    assert!(table.update_row(update_row).is_ok());

    let expected = "\
+--------------------------------------+--------------------+-----------+-----+
| ID                                   | first_name         | last_name | age |
+--------------------------------------+--------------------+-----------+-----+
| 797724d9-491c-46ac-981c-566d6d65b199 | changed first name | last      | 69  |
+--------------------------------------+--------------------+-----------+-----+
";

    assert_eq!(expected, table.to_text().replace("\r\n", "\n"));
}

#[test]
fn null_renders_in_its_row() {
    let mut table = create_demo_table();
    let pk = demo_key();
    let mut row = Row::create(&table, pk);
    row.set_cell(String::from("first_name"), "a".into_cell());
    row.set_cell(String::from("last_name"), "b".into_cell());
    assert!(table.create_row(row).is_ok());
    let text = table.to_text().replace("\r\n", "\n");
    assert!(text.contains("| 797724d9-491c-46ac-981c-566d6d65b199 | a          | b         | *NULL* |"));
}

#[test]
fn errors_explain_themselves() {
    let pk = demo_key();
    assert_eq!(
        VirtualTableError::InvalidRowIndex(3).to_text(),
        "Unable to find row with specified index of '3'"
    );
    assert_eq!(
        VirtualTableError::InvalidDataType(String::from("age"), DataType::Integer, DataType::String)
            .to_text(),
        "Invalid data type for column age. Required is INTEGER but STRING was provided."
    );
    assert_eq!(
        VirtualTableError::DuplicateColumnInRow(String::from("age")).to_text(),
        "A cell for column age is already in this row."
    );
    assert_eq!(
        VirtualTableError::DuplicatePrimaryKey(pk).to_text(),
        "Can't create a new row with primary key 797724d9-491c-46ac-981c-566d6d65b199 since a row with this key already exists."
    );
    assert_eq!(
        VirtualTableError::UnknownColumn(String::from("height")).to_text(),
        "Didn't find a column with name height"
    );
    assert_eq!(
        VirtualTableError::UnknownPrimaryKey(pk).to_text(),
        "Did not find a row with the primary key of 797724d9-491c-46ac-981c-566d6d65b199"
    );
    assert_eq!(
        VirtualTableError::InvalidNullValue(String::from("last_name")).to_text(),
        "Column last_name does not accept NULL values."
    );
    assert_eq!(DataType::Uuid.to_text(), "UUID");
}

#[test]
fn key_column_always_holds_the_row_key() {
    let mut table = create_demo_table();
    let pk = demo_key();
    let other = Uuid::new_v4().as_u128();
    let mut row = full_row(&table, pk);
    row.set_cell(String::from("ID"), Cell::key(other));
    assert!(table.create_row(row).is_ok());
    assert_eq!(value_of(&table, pk, "ID"), TableValue::Uuid(pk));

    let mut update_row = Row::create(&table, pk);
    update_row.set_cell(String::from("ID"), Cell::key(other));
    assert!(table.update_row(update_row).is_ok());
    assert_eq!(value_of(&table, pk, "ID"), TableValue::Uuid(pk));
}

#[test]
fn update_with_only_the_key_changes_nothing() {
    let mut table = create_demo_table();
    let pk = demo_key();
    assert!(table.create_row(full_row(&table, pk)).is_ok());
    let before = table.find_row(&pk, ColumnSpecification::All).unwrap();
    assert!(table.update_row(Row::create(&table, pk)).is_ok());
    assert_eq!(table.find_row(&pk, ColumnSpecification::All).unwrap(), before);
    assert_eq!(table.row_count(), 1);
}

#[test]
fn integers_render_in_decimal_at_the_extremes() {
    assert_eq!(TableValue::Integer(i64::MIN).to_text(), "-9223372036854775808");
    assert_eq!(TableValue::Integer(i64::MAX).to_text(), "9223372036854775807");
    assert_eq!(TableValue::Integer(1000).to_text(), "1000");
    assert_eq!(TableValue::Integer(-7).to_text(), "-7");
    assert_eq!(
        VirtualTableError::InvalidRowIndex(10).to_text(),
        "Unable to find row with specified index of '10'"
    );
}

#[test]
fn key_column_cell_of_another_type_is_refused() {
    let mut table = create_demo_table();
    let pk = demo_key();
    let mut row = full_row(&table, pk);
    row.set_cell(String::from("ID"), 5.into_cell());
    assert_eq!(
        table.create_row(row),
        Err(vec![VirtualTableError::InvalidDataType(
            String::from("ID"),
            DataType::Uuid,
            DataType::Integer
        )])
    );
    assert_eq!(table.row_count(), 0);
    for column in table.columns() {
        assert_eq!(column.len(), 0);
    }
}

#[test]
fn key_column_cell_in_an_update_is_checked() {
    let mut table = create_demo_table();
    let pk = demo_key();
    assert!(table.create_row(full_row(&table, pk)).is_ok());

    let mut update_row = Row::create(&table, pk);
    update_row.set_cell(String::from("first_name"), "changed".into_cell());
    update_row.set_cell(String::from("ID"), 5.into_cell());
    assert_eq!(
        table.update_row(update_row),
        Err(vec![VirtualTableError::InvalidDataType(
            String::from("ID"),
            DataType::Uuid,
            DataType::Integer
        )])
    );
    assert_eq!(value_of(&table, pk, "first_name"), TableValue::String(String::from("first")));

    let mut update_row = Row::create(&table, pk);
    update_row.set_cell(String::from("ID"), Cell::null(DataType::Uuid));
    assert_eq!(
        table.update_row(update_row),
        Err(vec![VirtualTableError::InvalidNullValue(String::from("ID"))])
    );
    assert_eq!(value_of(&table, pk, "ID"), TableValue::Uuid(pk));
}

#[test]
fn text_with_an_escape_character_is_not_printable() {
    let mut table = create_demo_table();
    assert!(table.is_printable());
    let pk = demo_key();
    let mut row = full_row(&table, pk);
    row.set_cell(String::from("last_name"), "a\u{1b}[mb".into_cell());
    assert!(table.create_row(row).is_ok());
    assert!(!table.is_printable());

    let escaped = Table::create(
        String::from("t"),
        vec![ColumnDefinition {
            identifier: String::from("x\u{1b}"),
            data_type: DataType::Integer,
            is_nullable: true,
        }],
    );
    assert!(!escaped.is_printable());
}
