//! Reading SQL text with `sqlparser`, and bringing what it returns into the
//! statement shapes that lineage reads.

use vstd::prelude::*;
use crate::item::option_text;
use crate::statement::{
    Expression, ExpressionView, FromEntry, FromEntryView, Projection, ProjectionView, Relation,
    RelationView, StatementShape, StatementShapeView,
};

verus! {

/// `sqlparser`'s statement.
#[verifier::external_type_specification]
#[verifier::external_body]
pub struct ExStatement(sqlparser::ast::Statement);

/// `sqlparser`'s entry of a `SELECT` list.
#[verifier::external_type_specification]
#[verifier::external_body]
pub struct ExSelectItem(sqlparser::ast::SelectItem);

/// `sqlparser`'s expression.
#[verifier::external_type_specification]
#[verifier::external_body]
pub struct ExExpr(sqlparser::ast::Expr);

/// `sqlparser`'s entry of a `FROM` clause.
#[verifier::external_type_specification]
#[verifier::external_body]
pub struct ExTableWithJoins(sqlparser::ast::TableWithJoins);

/// `sqlparser`'s relation.
#[verifier::external_type_specification]
#[verifier::external_body]
pub struct ExTableFactor(sqlparser::ast::TableFactor);

/// `sqlparser`'s error.
#[verifier::external_type_specification]
pub struct ExParserError(sqlparser::parser::ParserError);

/// What `sqlparser` reads from a text in its generic dialect: the statements
/// in their order, or the error.
pub uninterp spec fn parsed_sql(sql: Seq<char>) -> Result<
    Seq<sqlparser::ast::Statement>,
    sqlparser::parser::ParserError,
>;

/// Calls `sqlparser::parser::Parser::parse_sql` with the generic dialect.
/// What comes back depends on the text alone.
#[verifier::external_body]
fn parse_text(sql: &str) -> (r: Result<Vec<sqlparser::ast::Statement>, sqlparser::parser::ParserError>)
    ensures
        match r {
            Ok(v) => parsed_sql(sql@) == Ok::<
                Seq<sqlparser::ast::Statement>,
                sqlparser::parser::ParserError,
            >(v@),
            Err(e) => parsed_sql(sql@) == Err::<
                Seq<sqlparser::ast::Statement>,
                sqlparser::parser::ParserError,
            >(e),
        },
{
    sqlparser::parser::Parser::parse_sql(&sqlparser::dialect::GenericDialect {}, sql)
}

/// The `SELECT` list and the `FROM` clause of a statement that is a plain
/// `SELECT` query, and nothing for any other statement.
pub uninterp spec fn select_of(s: sqlparser::ast::Statement) -> Option<
    (Seq<sqlparser::ast::SelectItem>, Seq<sqlparser::ast::TableWithJoins>),
>;

/// Tells `sqlparser::ast::Statement::Query` with a body of
/// `sqlparser::ast::SetExpr::Select` from every other statement, and hands
/// out that select's fields `projection` and `from`.
#[verifier::external_body]
fn statement_select(s: &sqlparser::ast::Statement) -> (r: Option<
    (&Vec<sqlparser::ast::SelectItem>, &Vec<sqlparser::ast::TableWithJoins>),
>)
    ensures
        match r {
            Some((p, f)) => select_of(*s) == Some((p@, f@)),
            None => select_of(*s) is None,
        },
{
    match s {
        sqlparser::ast::Statement::Query(q) => match q.body.as_ref() {
            sqlparser::ast::SetExpr::Select(sel) => Some((&sel.projection, &sel.from)),
            _ => None,
        },
        _ => None,
    }
}

/// The expression of an entry of a `SELECT` list and its alias, if it has
/// one; nothing for an entry that is no expression with at most one alias.
pub uninterp spec fn projected(i: sqlparser::ast::SelectItem) -> Option<
    (sqlparser::ast::Expr, Option<Seq<char>>),
>;

/// Tells the variants `UnnamedExpr` and `ExprWithAlias` of
/// `sqlparser::ast::SelectItem` from the others, and hands out the expression
/// and the text of the alias.
#[verifier::external_body]
fn select_item_parts(i: &sqlparser::ast::SelectItem) -> (r: Option<
    (&sqlparser::ast::Expr, Option<String>),
>)
    ensures
        match r {
            Some((e, a)) => projected(*i) == Some((*e, option_text(a))),
            None => projected(*i) is None,
        },
{
    match i {
        sqlparser::ast::SelectItem::UnnamedExpr(e) => Some((e, None)),
        sqlparser::ast::SelectItem::ExprWithAlias { expr, alias } => Some(
            (expr, Some(alias.value.clone())),
        ),
        _ => None,
    }
}

/// The segments of an expression that is a plain or a compound identifier,
/// and nothing for any other expression.
pub uninterp spec fn column_of(e: sqlparser::ast::Expr) -> Option<Seq<Seq<char>>>;

/// Tells the variants `Identifier` and `CompoundIdentifier` of
/// `sqlparser::ast::Expr` from the others, and hands out the text of the one
/// identifier, or of each identifier in order.
#[verifier::external_body]
fn expr_column(e: &sqlparser::ast::Expr) -> (r: Option<Vec<String>>)
    ensures
        match r {
            Some(v) => column_of(*e) == Some(v.deep_view()),
            None => column_of(*e) is None,
        },
{
    match e {
        sqlparser::ast::Expr::Identifier(i) => Some(vec![i.value.clone()]),
        sqlparser::ast::Expr::CompoundIdentifier(v) => Some(
            v.iter().map(|i| i.value.clone()).collect(),
        ),
        _ => None,
    }
}

/// The operand of an expression that is an `IS NOT NULL` test, and nothing
/// for any other expression.
pub uninterp spec fn not_null_operand(e: sqlparser::ast::Expr) -> Option<sqlparser::ast::Expr>;

/// Tells the variant `IsNotNull` of `sqlparser::ast::Expr` from the others,
/// and hands out its operand.
#[verifier::external_body]
fn expr_not_null_operand(e: &sqlparser::ast::Expr) -> (r: Option<&sqlparser::ast::Expr>)
    ensures
        match r {
            Some(inner) => not_null_operand(*e) == Some(*inner),
            None => not_null_operand(*e) is None,
        },
{
    match e {
        sqlparser::ast::Expr::IsNotNull(inner) => Some(inner.as_ref()),
        _ => None,
    }
}

/// The relation that an entry of a `FROM` clause starts with.
pub uninterp spec fn relation_of(t: sqlparser::ast::TableWithJoins) -> sqlparser::ast::TableFactor;

/// Hands out the field `relation` of `sqlparser::ast::TableWithJoins`.
#[verifier::external_body]
fn entry_relation(t: &sqlparser::ast::TableWithJoins) -> (r: &sqlparser::ast::TableFactor)
    ensures
        *r == relation_of(*t),
{
    &t.relation
}

/// The relations joined to the first one in an entry of a `FROM` clause,
/// from left to right.
pub uninterp spec fn joined_of(t: sqlparser::ast::TableWithJoins) -> Seq<
    sqlparser::ast::TableFactor,
>;

/// Hands out a copy of the field `relation` of each `sqlparser::ast::Join`
/// in the field `joins` of `sqlparser::ast::TableWithJoins`, in order.
#[verifier::external_body]
fn entry_joined(t: &sqlparser::ast::TableWithJoins) -> (r: Vec<sqlparser::ast::TableFactor>)
    ensures
        r@ == joined_of(*t),
{
    t.joins.iter().map(|j| j.relation.clone()).collect()
}

/// What a relation is for lineage: a table reference, by the text of each
/// part of its name and of its alias, if every part of the name is an
/// identifier; anything else is told apart no further.
pub uninterp spec fn table_reference(f: sqlparser::ast::TableFactor) -> RelationView;

/// Tells the variant `Table` of `sqlparser::ast::TableFactor` from the
/// others, and hands out the text of the identifiers of its name and of its
/// alias. A name with a part that is no identifier counts as no table.
#[verifier::external_body]
fn factor_table(f: &sqlparser::ast::TableFactor) -> (r: Relation)
    ensures
        r@ == table_reference(*f),
{
    match f {
        sqlparser::ast::TableFactor::Table { name, alias, .. } => {
            match name.0.iter().map(|p| p.as_ident().map(|i| i.value.clone())).collect() {
                Some(name) => Relation::Table {
                    name: name,
                    alias: alias.as_ref().map(|a| a.name.value.clone()),
                },
                None => Relation::Other,
            }
        },
        _ => Relation::Other,
    }
}

/// Why a text could not be read as SQL.
#[derive(Debug, PartialEq, Eq)]
pub enum ParseError {
    /// The text could not be split into tokens.
    Tokenizer(String),
    /// The tokens are no statement.
    Syntax(String),
    /// The statement is nested more deeply than the parser follows.
    RecursionLimit,
}

/// The library's error for one of the parser's: the same kind with the same
/// message.
pub open spec fn parse_error_for(e: sqlparser::parser::ParserError) -> ParseError {
    match e {
        sqlparser::parser::ParserError::TokenizerError(m) => ParseError::Tokenizer(m),
        sqlparser::parser::ParserError::ParserError(m) => ParseError::Syntax(m),
        sqlparser::parser::ParserError::RecursionLimitExceeded => ParseError::RecursionLimit,
    }
}

/// The library's error for one of the parser's.
pub fn parse_error_of(e: sqlparser::parser::ParserError) -> (r: ParseError)
    ensures
        r == parse_error_for(e),
{
    match e {
        sqlparser::parser::ParserError::TokenizerError(m) => ParseError::Tokenizer(m),
        sqlparser::parser::ParserError::ParserError(m) => ParseError::Syntax(m),
        sqlparser::parser::ParserError::RecursionLimitExceeded => ParseError::RecursionLimit,
    }
}

/// The shape of an expression: a column if it is an identifier, a column
/// under `IS NOT NULL` if it is such a test of an identifier.
pub open spec fn expression_shape(e: sqlparser::ast::Expr) -> ExpressionView {
    match column_of(e) {
        Some(segments) => ExpressionView::Column(segments),
        None => match not_null_operand(e) {
            Some(inner) => match column_of(inner) {
                Some(segments) => ExpressionView::ColumnIsNotNull(segments),
                None => ExpressionView::Other,
            },
            None => ExpressionView::Other,
        },
    }
}

/// The shape of an entry of a `SELECT` list.
pub open spec fn projection_shape(i: sqlparser::ast::SelectItem) -> ProjectionView {
    match projected(i) {
        None => ProjectionView::Other,
        Some((e, None)) => ProjectionView::Unnamed(expression_shape(e)),
        Some((e, Some(alias))) => ProjectionView::Aliased {
            expr: expression_shape(e),
            alias: alias,
        },
    }
}

/// The shape of an entry of a `FROM` clause.
pub open spec fn entry_shape(t: sqlparser::ast::TableWithJoins) -> FromEntryView {
    FromEntryView {
        relation: table_reference(relation_of(t)),
        joins: joined_of(t).map_values(|f: sqlparser::ast::TableFactor| table_reference(f)),
    }
}

/// The shape of a statement.
pub open spec fn statement_shape(s: sqlparser::ast::Statement) -> StatementShapeView {
    match select_of(s) {
        None => StatementShapeView::Other,
        Some((projection, from)) => StatementShapeView::Select {
            projection: projection.map_values(|i: sqlparser::ast::SelectItem| projection_shape(i)),
            from: from.map_values(|t: sqlparser::ast::TableWithJoins| entry_shape(t)),
        },
    }
}

/// The shapes of the statements that the parser reads from a text, or the
/// error with which it refuses the text.
pub open spec fn parsed_shapes(sql: Seq<char>) -> Result<Seq<StatementShapeView>, ParseError> {
    match parsed_sql(sql) {
        Ok(statements) => Ok(
            statements.map_values(|s: sqlparser::ast::Statement| statement_shape(s)),
        ),
        Err(e) => Err(parse_error_for(e)),
    }
}

/// The shape of an expression.
fn expression_from(e: &sqlparser::ast::Expr) -> (r: Expression)
    ensures
        r@ == expression_shape(*e),
{
    match expr_column(e) {
        Some(segments) => Expression::Column(segments),
        None => match expr_not_null_operand(e) {
            Some(inner) => match expr_column(inner) {
                Some(segments) => Expression::ColumnIsNotNull(segments),
                None => Expression::Other,
            },
            None => Expression::Other,
        },
    }
}

/// The shape of an entry of a `SELECT` list.
fn projection_from(i: &sqlparser::ast::SelectItem) -> (r: Projection)
    ensures
        r@ == projection_shape(*i),
{
    match select_item_parts(i) {
        None => Projection::Other,
        Some((e, None)) => Projection::Unnamed(expression_from(e)),
        Some((e, Some(alias))) => Projection::Aliased { expr: expression_from(e), alias: alias },
    }
}

/// The shape of an entry of a `FROM` clause.
fn entry_from(t: &sqlparser::ast::TableWithJoins) -> (r: FromEntry)
    ensures
        r@ == entry_shape(*t),
{
    let relation = factor_table(entry_relation(t));
    let joined = entry_joined(t);
    let mut joins: Vec<Relation> = Vec::new();
    let mut i: usize = 0;
    while i < joined.len()
        invariant
            i <= joined.len(),
            joins.len() == i,
            forall|k: int| 0 <= k < i ==> joins@[k]@ == table_reference(joined@[k]),
        decreases joined.len() - i,
    {
        joins.push(factor_table(&joined[i]));
        i = i + 1;
    }
    assert(joins.deep_view() =~= joined@.map_values(
        |f: sqlparser::ast::TableFactor| table_reference(f),
    ));
    FromEntry { relation: relation, joins: joins }
}

/// The shape of a statement.
fn statement_from(s: &sqlparser::ast::Statement) -> (r: StatementShape)
    ensures
        r@ == statement_shape(*s),
{
    match statement_select(s) {
        None => StatementShape::Other,
        Some((items, entries)) => {
            let mut projection: Vec<Projection> = Vec::new();
            let mut i: usize = 0;
            while i < items.len()
                invariant
                    i <= items.len(),
                    projection.len() == i,
                    forall|k: int| 0 <= k < i ==> projection@[k]@ == projection_shape(items@[k]),
                decreases items.len() - i,
            {
                projection.push(projection_from(&items[i]));
                i = i + 1;
            }
            let mut from: Vec<FromEntry> = Vec::new();
            let mut j: usize = 0;
            while j < entries.len()
                invariant
                    j <= entries.len(),
                    from.len() == j,
                    forall|k: int| 0 <= k < j ==> from@[k]@ == entry_shape(entries@[k]),
                decreases entries.len() - j,
            {
                from.push(entry_from(&entries[j]));
                j = j + 1;
            }
            assert(projection.deep_view() =~= items@.map_values(
                |i: sqlparser::ast::SelectItem| projection_shape(i),
            ));
            assert(from.deep_view() =~= entries@.map_values(
                |t: sqlparser::ast::TableWithJoins| entry_shape(t),
            ));
            StatementShape::Select { projection: projection, from: from }
        },
    }
}

/// Reads a text as SQL in the parser's generic dialect and gives the shape
/// of each statement in it, in order, or the parser's error.
pub fn parse_sql(sql: &str) -> (r: Result<Vec<StatementShape>, ParseError>)
    ensures
        match r {
            Ok(v) => parsed_shapes(sql@) == Ok::<Seq<StatementShapeView>, ParseError>(
                v.deep_view(),
            ),
            Err(e) => parsed_shapes(sql@) == Err::<Seq<StatementShapeView>, ParseError>(e),
        },
{
    match parse_text(sql) {
        Err(e) => Err(parse_error_of(e)),
        Ok(statements) => {
            let mut shapes: Vec<StatementShape> = Vec::new();
            let mut i: usize = 0;
            while i < statements.len()
                invariant
                    i <= statements.len(),
                    shapes.len() == i,
                    forall|k: int| 0 <= k < i ==> shapes@[k]@ == statement_shape(statements@[k]),
                decreases statements.len() - i,
            {
                shapes.push(statement_from(&statements[i]));
                i = i + 1;
            }
            assert(shapes.deep_view() =~= statements@.map_values(
                |s: sqlparser::ast::Statement| statement_shape(s),
            ));
            Ok(shapes)
        },
    }
}

} // verus!
