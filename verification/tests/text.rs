use oracle_sql_tools::datetime::DateTime;
use oracle_sql_tools::format_data::FormattedData;
use oracle_sql_tools::statements::mutate_row::MutateRow;
use oracle_sql_tools::statements::utils::table_in_catalog;
use oracle_sql_tools::types::errors::OracleSqlToolsError;
use oracle_sql_tools::types::FilterType;
use oracle_sql_tools::format_data::FormatData;
use oracle_sql_tools::utils::remove_invalid_chars;
use oracle_sql_tools::PrepData;

#[test]
fn sanitize_replaces_and_strips() {
    assert_eq!(remove_invalid_chars(&"  My Col-Name?!  ".to_string()), "My_Col_Name");
    assert_eq!(remove_invalid_chars(&"a b".to_string()), "a_b");
    assert_eq!(remove_invalid_chars(&"a-b".to_string()), "a_b");
    assert_eq!(remove_invalid_chars(&"a'%!?|#\\/()+b".to_string()), "ab");
    assert_eq!(remove_invalid_chars(&"h\u{e9}llo".to_string()), "hllo");
    assert_eq!(remove_invalid_chars(&"".to_string()), "");
}

#[test]
fn sanitize_is_idempotent_on_ordinary_names() {
    for input in ["  My Col-Name?!  ", "plain", "a b c", "x(y)z", "\u{2003}padded\u{2003}"] {
        let once = remove_invalid_chars(&input.to_string());
        let twice = remove_invalid_chars(&once);
        assert_eq!(once, twice);
    }
}

#[test]
fn sanitize_duplicate_helper_agrees() {
    let input = "Employee ID?".to_string();
    assert_eq!(
        oracle_sql_tools::statements::utils::remove_invalid_chars(&input),
        remove_invalid_chars(&input)
    );
}

#[test]
fn renders_cells_to_canonical_text() {
    assert_eq!(FormattedData::STRING("abc".to_string()).to_string(), "abc");
    assert_eq!(FormattedData::INT(-42).to_string(), "-42");
    assert_eq!(FormattedData::INT(0).to_string(), "0");
    assert_eq!(FormattedData::INT(i64::MIN).to_string(), "-9223372036854775808");
    assert_eq!(FormattedData::FLOAT("1.5".to_string()).to_string(), "1.5");
    assert_eq!(FormattedData::EMPTY.to_string(), "");
    let d = DateTime::new(999, 1, 2, 3, 4, 5).unwrap();
    assert_eq!(FormattedData::DATE(d).to_string(), "0999-01-02 03:04:05");
}

#[test]
fn datetime_checks_the_calendar() {
    assert!(DateTime::new(2024, 2, 29, 0, 0, 0).is_some());
    assert!(DateTime::new(2023, 2, 29, 0, 0, 0).is_none());
    assert!(DateTime::new(1900, 2, 29, 0, 0, 0).is_none());
    assert!(DateTime::new(2000, 2, 29, 0, 0, 0).is_some());
    assert!(DateTime::new(2024, 13, 1, 0, 0, 0).is_none());
    assert!(DateTime::new(2024, 4, 31, 0, 0, 0).is_none());
    assert!(DateTime::new(2024, 4, 30, 23, 59, 59).is_some());
    assert!(DateTime::new(2024, 4, 30, 24, 0, 0).is_none());
}

#[test]
fn insert_stmt_sanitizes_and_numbers() {
    let header = vec![
        FormattedData::STRING("c 1".to_string()),
        FormattedData::STRING("c2".to_string()),
        FormattedData::STRING("c-3?".to_string()),
    ];
    assert_eq!(header.insert_stmt("T"), "INSERT INTO T (c_1,c2,c_3) VALUES (:1,:2,:3)");
}

#[test]
fn row_to_string_renders_every_cell() {
    let row = vec![
        FormattedData::STRING("a".to_string()),
        FormattedData::INT(12),
        FormattedData::EMPTY,
    ];
    assert_eq!(row.to_string(), vec!["a".to_string(), "12".to_string(), "".to_string()]);
}

#[test]
fn select_composes_query_and_header() {
    let cols = vec!["Employee ID", "Name"];
    let prepped = cols.prep_data().select("MY_TABLE");
    let (header, sql) = prepped.build_query().unwrap();
    assert_eq!(header, vec!["Employee_ID".to_string(), "Name".to_string()]);
    assert_eq!(sql, "SELECT Employee_ID, Name FROM MY_TABLE");
}

#[test]
fn filters_append_in_order() {
    let cols = vec!["A"];
    let prepped = cols
        .prep_data()
        .select("T")
        .filter(FilterType::Where, "A", "1")
        .filter(FilterType::Or, "A", "2");
    let (_, sql) = prepped.build_query().unwrap();
    assert_eq!(sql, "SELECT A FROM T WHERE A = '1' OR A = '2'");
}

#[test]
fn query_before_select_is_refused() {
    let cols = vec!["A"];
    let err = cols.prep_data().build_query().unwrap_err();
    assert_eq!(err, OracleSqlToolsError::SQLQueryEmpty);
}

#[test]
fn catalog_lookup_ignores_ascii_case() {
    let names = vec!["FOO".to_string(), "Bar".to_string()];
    assert!(table_in_catalog(&names, "bar"));
    assert!(table_in_catalog(&names, "foo"));
    assert!(table_in_catalog(&names, "FOO"));
    assert!(!table_in_catalog(&names, "baz"));
    assert!(!table_in_catalog(&names, "fo"));
}

#[test]
fn tagging_plain_values() {
    assert_eq!("x".fmt_data(), FormattedData::STRING("x".to_string()));
    assert_eq!(7i32.fmt_data(), FormattedData::INT(7));
    assert_eq!(None::<i64>.fmt_data(), FormattedData::EMPTY);
    assert_eq!(Some(5i64).fmt_data(), FormattedData::INT(5));
}
