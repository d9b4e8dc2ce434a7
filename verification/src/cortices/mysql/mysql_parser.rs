//! SQL text to statements, by the sqlparser crate.

use crate::cortices::mysql::error::MySQLParserError;
use crate::errors::{ImmuxError, ImmuxResult};
use sqlparser::dialect::AnsiSqlDialect;
use sqlparser::sqlast::SQLStatement;
use sqlparser::sqlparser::{Parser, ParserError};
use vstd::prelude::*;

verus! {

#[verifier::external_type_specification]
#[verifier::external_body]
pub struct ExSQLStatement(SQLStatement);

#[verifier::external_type_specification]
#[verifier::external_body]
pub struct ExAnsiSqlDialect(AnsiSqlDialect);

/// The statements, in order, that the ANSI dialect of sqlparser reads out of
/// `sql`, or nothing where it rejects the text.
pub uninterp spec fn ansi_sql_statements(sql: Seq<char>) -> Option<Seq<SQLStatement>>;

/// `sqlparser::sqlparser::Parser::parse_sql` with the ANSI dialect. Claimed:
/// it succeeds or fails, and gives the statements in the order, named by
/// `ansi_sql_statements` for the text; the result depends on the text alone
/// (the dialect has no fields). What an error says is not stated.
/// With this dialect identifiers are quoted only with `"`, so the parser's
/// own `panic!`s on other quote styles are not reached; its recursive descent
/// on very deeply nested text can run out of stack, which is not ruled out.
#[verifier::external_body]
fn ansi_parse_sql(dialect: &AnsiSqlDialect, sql: String) -> (res: Result<
    Vec<SQLStatement>,
    ParserError,
>)
    ensures
        match ansi_sql_statements(sql@) {
            Some(st) => res matches Ok(v) && v@ == st,
            None => res is Err,
        },
{
    Parser::parse_sql(dialect, sql)
}

/// Parses SQL text into statements, in the order they come in the text; a
/// text the parser rejects gives `ParseSqlStatementError` with the parser's
/// error.
pub fn parse_mysql_op_string_to_ast(mysql_op_string: String, dialect: &AnsiSqlDialect) -> (res:
    ImmuxResult<Vec<SQLStatement>>)
    ensures
        match ansi_sql_statements(mysql_op_string@) {
            Some(st) => res matches Ok(v) && v@ == st,
            None => res matches Err(ImmuxError::MySQLParser(MySQLParserError::ParseSqlStatementError(_))),
        },
{
    match ansi_parse_sql(dialect, mysql_op_string) {
        Err(error) => Err(ImmuxError::MySQLParser(MySQLParserError::ParseSqlStatementError(error))),
        Ok(sql_statements) => Ok(sql_statements),
    }
}

} // verus!
