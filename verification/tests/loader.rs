use oracle_sql_tools::format_data::FormattedData;
use oracle_sql_tools::datetime::DateTime;
use oracle_sql_tools::statements::insert::{stage_insert_data, TableInfo};
use oracle_sql_tools::types::errors::OracleSqlToolsError;
use oracle_sql_tools::statements::mutate_grid::MutateGrid;
use oracle_sql_tools::types::{BatchPrep, BindValue, DatatypeIndexes, GridProperties};
use oracle_sql_tools::PrepData;

fn s(text: &str) -> FormattedData {
    FormattedData::STRING(text.to_string())
}

fn empty_indexes() -> DatatypeIndexes {
    DatatypeIndexes { is_varchar: vec![], is_float: vec![], is_int: vec![], is_date: vec![] }
}

fn int_rows(n: i64) -> Vec<Vec<FormattedData>> {
    (0..n).map(|i| vec![FormattedData::INT(i)]).collect()
}

fn batch_of(data: Vec<Vec<FormattedData>>) -> BatchPrep {
    BatchPrep { data, insert_stmt: String::new(), data_indexes: empty_indexes() }
}

#[test]
fn classification_partitions_columns() {
    // header + body; the header row never takes part in classification
    let grid = vec![
        vec![s("a"), s("b"), s("c"), s("d"), s("e")],
        vec![
            s("x"),
            FormattedData::FLOAT("1.5".to_string()),
            FormattedData::INT(7),
            FormattedData::DATE(DateTime::new(2024, 1, 2, 3, 4, 5).unwrap()),
            FormattedData::EMPTY,
        ],
        vec![
            FormattedData::INT(1),
            FormattedData::INT(2),
            FormattedData::EMPTY,
            FormattedData::EMPTY,
            FormattedData::EMPTY,
        ],
    ];
    let ind = DatatypeIndexes::get_col_datatype(&grid);
    assert_eq!(ind.is_varchar, vec![0, 4]); // a string wins; all-empty defaults to VARCHAR
    assert_eq!(ind.is_float, vec![1]);
    assert_eq!(ind.is_int, vec![2]);
    assert_eq!(ind.is_date, vec![3]);
}

#[test]
fn string_anywhere_forces_varchar() {
    let grid = vec![
        vec![s("h")],
        vec![FormattedData::INT(1)],
        vec![FormattedData::DATE(DateTime::new(2020, 6, 1, 0, 0, 0).unwrap())],
        vec![s("text at the bottom")],
    ];
    let ind = DatatypeIndexes::get_col_datatype(&grid);
    assert_eq!(ind.is_varchar, vec![0]);
    assert!(ind.is_float.is_empty());
    assert!(ind.is_int.is_empty());
    assert!(ind.is_date.is_empty());
}

#[test]
fn find_uniques_dedups_with_priority() {
    let ind = DatatypeIndexes {
        is_varchar: vec![1, 1, 2],
        is_float: vec![1, 3, 3],
        is_int: vec![2, 3, 4],
        is_date: vec![4, 0],
    };
    let u = ind.find_uniques();
    assert_eq!(u.is_varchar, vec![1, 2]);
    assert_eq!(u.is_float, vec![3]);
    assert_eq!(u.is_int, vec![4]);
    assert_eq!(u.is_date, vec![0]);
}

#[test]
fn partition_sizes_ten_by_three() {
    let parts = batch_of(int_rows(10)).split_batch(3);
    let sizes: Vec<usize> = parts.iter().map(|p| p.data.len()).collect();
    assert_eq!(sizes, vec![4, 4, 2]);
    let offsets: Vec<usize> = parts.iter().map(|p| p.num).collect();
    assert_eq!(offsets, vec![0, 4, 8]);
    let rejoined: Vec<Vec<FormattedData>> = parts.into_iter().flat_map(|p| p.data).collect();
    assert_eq!(rejoined, int_rows(10));
}

#[test]
fn partition_sizes_nine_by_three() {
    let parts = batch_of(int_rows(9)).split_batch(3);
    let sizes: Vec<usize> = parts.iter().map(|p| p.data.len()).collect();
    assert_eq!(sizes, vec![3, 3, 3]);
    let rejoined: Vec<Vec<FormattedData>> = parts.into_iter().flat_map(|p| p.data).collect();
    assert_eq!(rejoined, int_rows(9));
}

#[test]
fn partition_sizes_one_by_four() {
    let parts = batch_of(int_rows(1)).split_batch(4);
    let sizes: Vec<usize> = parts.iter().map(|p| p.data.len()).collect();
    assert_eq!(sizes, vec![1, 0, 0, 0]);
}

#[test]
fn partition_by_host_parallelism_rebuilds_body() {
    let parts = batch_of(int_rows(17)).split_batch_by_threads();
    assert!(parts.len() >= 1);
    let rejoined: Vec<Vec<FormattedData>> = parts.into_iter().flat_map(|p| p.data).collect();
    assert_eq!(rejoined, int_rows(17));
}

#[test]
fn single_thread_batch_keeps_everything() {
    let part = batch_of(int_rows(5)).single_thread_batch();
    assert_eq!(part.num, 0);
    assert_eq!(part.data, int_rows(5));
}

#[test]
fn fresh_table_scenario_produces_ddl_and_template() {
    let grid = vec![
        vec!["id", "name"],
        vec!["1", "Alice"],
        vec!["2", "Bob"],
    ];
    let prepped = grid.prep_data();
    let (bp, ddl) = stage_insert_data(prepped, "T", TableInfo::Absent).unwrap();
    assert_eq!(ddl.unwrap(), "CREATE TABLE T (id VARCHAR2(1), name VARCHAR2(5))");
    assert_eq!(bp.insert_stmt, "INSERT INTO T (id,name) VALUES (:1,:2)");
    assert_eq!(bp.data.len(), 2);
    assert_eq!(bp.data[0], vec![s("1"), s("Alice")]);
    assert_eq!(bp.data[1], vec![s("2"), s("Bob")]);
}

#[test]
fn existing_table_scenario_takes_catalog_order() {
    let grid = vec![
        vec!["name", "id"],
        vec!["1", "Alice"],
        vec!["2", "Bob"],
    ];
    let prepped = grid.prep_data();
    let catalog = vec!["ID".to_string(), "NAME".to_string()];
    let (bp, ddl) = stage_insert_data(prepped, "T", TableInfo::Existing(catalog)).unwrap();
    assert!(ddl.is_none());
    assert_eq!(bp.insert_stmt, "INSERT INTO T (ID,NAME) VALUES (:1,:2)");
    assert_eq!(bp.data.len(), 2);
}

#[test]
fn header_width_mismatch_fails_fast() {
    let grid = vec![
        vec![s("a"), s("b"), s("c")],
        vec![s("1"), s("2")],
        vec![s("3"), s("4")],
    ];
    let prepped = oracle_sql_tools::statements::PreppedGridData {
        data: grid,
        data_indexes: empty_indexes(),
    };
    let err = stage_insert_data(prepped, "T", TableInfo::Absent).unwrap_err();
    assert_eq!(
        err,
        OracleSqlToolsError::InvalidHeaderLength { header_length: 3, body_length: 2 }
    );
}

#[test]
fn catalog_width_mismatch_fails_fast() {
    let grid = vec![vec![s("a"), s("b")], vec![s("1"), s("2")]];
    let prepped = oracle_sql_tools::statements::PreppedGridData {
        data: grid,
        data_indexes: empty_indexes(),
    };
    let catalog = vec!["A".to_string(), "B".to_string(), "C".to_string()];
    let err = stage_insert_data(prepped, "T", TableInfo::Existing(catalog)).unwrap_err();
    assert_eq!(
        err,
        OracleSqlToolsError::InvalidHeaderLength { header_length: 3, body_length: 2 }
    );
}

#[test]
fn header_only_grid_has_no_data() {
    let grid = vec![vec![s("a"), s("b")]];
    let prepped = oracle_sql_tools::statements::PreppedGridData {
        data: grid,
        data_indexes: empty_indexes(),
    };
    let err = stage_insert_data(prepped, "T", TableInfo::Absent).unwrap_err();
    assert_eq!(err, OracleSqlToolsError::NoData);
}

#[test]
fn empty_cell_in_int_column_binds_typed_null() {
    let body = vec![vec![FormattedData::INT(1)], vec![FormattedData::EMPTY]];
    let ind = DatatypeIndexes::get_col_datatype(
        &std::iter::once(vec![s("h")]).chain(body.clone()).collect::<Vec<_>>(),
    );
    assert_eq!(ind.is_int, vec![0]);
    let gp = GridProperties { data: body, num: 0, datatype_indexes: ind };
    let rows = gp.get_cell_props();
    assert_eq!(rows[0], vec![BindValue::Int(1)]);
    assert_eq!(rows[1], vec![BindValue::NullInt]);
}

#[test]
fn binder_preserves_string_int_float_renderings() {
    let d = DateTime::new(2024, 1, 2, 3, 4, 5).unwrap();
    let body = vec![
        vec![s("Alice"), FormattedData::INT(-7), FormattedData::FLOAT("2.5".to_string())],
        vec![s("Bob"), FormattedData::EMPTY, FormattedData::DATE(d)],
    ];
    let header: Vec<Vec<FormattedData>> =
        std::iter::once(vec![s("a"), s("b"), s("c")]).chain(body.clone()).collect();
    let ind = DatatypeIndexes::get_col_datatype(&header);
    let gp = GridProperties { data: body, num: 0, datatype_indexes: ind };
    let rows = gp.get_cell_props();
    assert_eq!(rows[0][0], BindValue::Text("Alice".to_string()));
    assert_eq!(rows[0][1], BindValue::Int(-7));
    assert_eq!(rows[0][2], BindValue::Float("2.5".to_string()));
    assert_eq!(rows[1][0], BindValue::Text("Bob".to_string()));
    assert_eq!(rows[1][1], BindValue::NullInt);
    // a date in a FLOAT-classified column falls back to its digits
    assert_eq!(rows[1][2], BindValue::Float("20240102030405".to_string()));
}

#[test]
fn date_in_numeric_columns_coerces_to_digits() {
    let d = DateTime::new(2024, 1, 2, 3, 4, 5).unwrap();
    let int_col = DatatypeIndexes {
        is_varchar: vec![],
        is_float: vec![],
        is_int: vec![0],
        is_date: vec![],
    };
    let gp = GridProperties {
        data: vec![vec![FormattedData::DATE(d)]],
        num: 0,
        datatype_indexes: int_col,
    };
    assert_eq!(gp.get_cell_props()[0][0], BindValue::Int(20240102030405));

    let varchar_col = DatatypeIndexes {
        is_varchar: vec![0],
        is_float: vec![],
        is_int: vec![],
        is_date: vec![],
    };
    let gp = GridProperties {
        data: vec![vec![FormattedData::DATE(d)]],
        num: 0,
        datatype_indexes: varchar_col,
    };
    assert_eq!(
        gp.get_cell_props()[0][0],
        BindValue::Text("2024-01-02 03:04:05".to_string())
    );

    let date_col = DatatypeIndexes {
        is_varchar: vec![],
        is_float: vec![],
        is_int: vec![],
        is_date: vec![0],
    };
    let gp = GridProperties {
        data: vec![vec![FormattedData::DATE(d)]],
        num: 0,
        datatype_indexes: date_col,
    };
    assert_eq!(gp.get_cell_props()[0][0], BindValue::Date(d));
}

#[test]
fn all_empty_column_gets_varchar_width_zero() {
    let grid = vec![vec![s("h")], vec![FormattedData::EMPTY], vec![FormattedData::EMPTY]];
    let prepped = oracle_sql_tools::statements::PreppedGridData {
        data: grid,
        data_indexes: empty_indexes(),
    };
    let (_, ddl) = stage_insert_data(prepped, "E", TableInfo::Absent).unwrap();
    assert_eq!(ddl.unwrap(), "CREATE TABLE E (h VARCHAR2(0))");
}

#[test]
fn empty_grid_has_no_data() {
    let prepped = oracle_sql_tools::statements::PreppedGridData {
        data: vec![],
        data_indexes: empty_indexes(),
    };
    let err = stage_insert_data(prepped, "T", TableInfo::Absent).unwrap_err();
    assert_eq!(err, OracleSqlToolsError::NoData);
}

#[test]
fn prep_data_classifies_the_body() {
    let grid: Vec<Vec<FormattedData>> = vec![
        vec![s("h1"), s("h2")],
        vec![FormattedData::INT(1), s("a")],
        vec![FormattedData::EMPTY, s("b")],
    ];
    let prepped = grid.prep_data();
    assert_eq!(prepped.data_indexes.is_int, vec![0]);
    assert_eq!(prepped.data_indexes.is_varchar, vec![1]);
    assert_eq!(prepped.data.len(), 3);
}

#[test]
fn grid_mutations_keep_order() {
    let mut grid = vec![vec![s("h")], vec![s("r1")], vec![s("r2")], vec![s("r3")]];
    let header = grid.separate_header();
    assert_eq!(header, vec![s("h")]);
    assert_eq!(grid.len(), 3);
    let front = grid.divide(2);
    assert_eq!(front, vec![vec![s("r1")], vec![s("r2")]]);
    assert_eq!(grid, vec![vec![s("r3")]]);

    let mut grid2 = vec![vec![s("old1"), s("old2")], vec![s("x"), s("y")]];
    let catalog = vec!["A".to_string(), "B".to_string()];
    let header2 = grid2.replace_header(&catalog);
    assert_eq!(header2, vec![s("A"), s("B")]);
    assert_eq!(grid2, vec![vec![s("x"), s("y")]]);
}
