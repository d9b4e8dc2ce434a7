use immuxdb::cortices::mysql::mysql_parser::parse_mysql_op_string_to_ast;
use sqlparser::dialect::AnsiSqlDialect;
use sqlparser::sqlast::SQLStatement;

#[test]
fn test_parse_mysql_op_string_to_ast() -> Result<(), String> {
    let insert_sql = "INSERT INTO Products \
                      (ProductName, Quantity, Manufacturer) \
                      VALUES \
                      (Pen, 10, Parker);";
    let dialect = AnsiSqlDialect {};
    let sql_statements = parse_mysql_op_string_to_ast(insert_sql.to_string(), &dialect).unwrap();
    assert_eq!(sql_statements.len(), 1);
    match &sql_statements[0] {
        SQLStatement::SQLInsert {
            table_name,
            columns,
            values,
        } => {
            assert_eq!(table_name.to_string(), "Products");
            assert_eq!(columns[0].to_string(), "ProductName");
            assert_eq!(columns[1].to_string(), "Quantity");
            assert_eq!(columns[2].to_string(), "Manufacturer");
            assert_eq!(values.len(), 1);
            assert_eq!(values[0][0].to_string(), "Pen");
            assert_eq!(values[0][1].to_string(), "10");
            assert_eq!(values[0][2].to_string(), "Parker");
            Ok(())
        }
        _ => Err(String::from("This should be an insert sql statement!")),
    }
}

#[test]
#[should_panic]
fn test_parse_mysql_op_string_to_ast_error() {
    let nonsense_sql = "Completely nonsense statement";
    let dialect = AnsiSqlDialect {};
    parse_mysql_op_string_to_ast(nonsense_sql.to_string(), &dialect).unwrap();
}

#[test]
fn several_statements_are_counted() {
    let dialect = AnsiSqlDialect {};
    let statements =
        parse_mysql_op_string_to_ast("SELECT a FROM t; SELECT b FROM u;".to_string(), &dialect)
            .unwrap();
    assert_eq!(statements.len(), 2);
}

#[test]
fn several_statements_keep_their_order() {
    let dialect = AnsiSqlDialect {};
    let statements = parse_mysql_op_string_to_ast(
        "INSERT INTO t (a) VALUES (1); SELECT b FROM u; DELETE FROM v".to_string(),
        &dialect,
    )
    .unwrap();
    assert_eq!(statements.len(), 3);
    match &statements[0] {
        SQLStatement::SQLInsert { table_name, .. } => assert_eq!(table_name.to_string(), "t"),
        other => panic!("expected an insert first, got {:?}", other),
    }
    assert!(matches!(&statements[1], SQLStatement::SQLSelect(_)));
    match &statements[2] {
        SQLStatement::SQLDelete { table_name, .. } => assert_eq!(table_name.to_string(), "v"),
        other => panic!("expected a delete last, got {:?}", other),
    }
}
