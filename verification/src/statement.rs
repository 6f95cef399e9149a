//! The shape of one parsed statement, as far as lineage reads it.

use vstd::prelude::*;
use crate::item::option_text;
use crate::text::PathView;

verus! {

/// The expression of one projection.
#[derive(Debug, PartialEq, Eq)]
pub enum Expression {
    /// A plain or compound identifier, by its segments: `col` has one
    /// segment, `t.col` two.
    Column(Vec<String>),
    /// `<identifier> IS NOT NULL`, by the identifier's segments.
    ColumnIsNotNull(Vec<String>),
    /// Any other expression.
    Other,
}

/// The contents of an [`Expression`].
pub enum ExpressionView {
    Column(PathView),
    ColumnIsNotNull(PathView),
    Other,
}

impl View for Expression {
    type V = ExpressionView;

    open spec fn view(&self) -> ExpressionView {
        match self {
            Expression::Column(s) => ExpressionView::Column(s.deep_view()),
            Expression::ColumnIsNotNull(s) => ExpressionView::ColumnIsNotNull(s.deep_view()),
            Expression::Other => ExpressionView::Other,
        }
    }
}

/// One entry of a `SELECT` list.
#[derive(Debug, PartialEq, Eq)]
pub enum Projection {
    /// An expression without an alias.
    Unnamed(Expression),
    /// `expr AS alias`.
    Aliased { expr: Expression, alias: String },
    /// A wildcard or any other entry.
    Other,
}

/// The contents of a [`Projection`].
pub enum ProjectionView {
    Unnamed(ExpressionView),
    Aliased { expr: ExpressionView, alias: Seq<char> },
    Other,
}

impl View for Projection {
    type V = ProjectionView;

    open spec fn view(&self) -> ProjectionView {
        match self {
            Projection::Unnamed(e) => ProjectionView::Unnamed(e@),
            Projection::Aliased { expr, alias } => ProjectionView::Aliased {
                expr: expr@,
                alias: alias@,
            },
            Projection::Other => ProjectionView::Other,
        }
    }
}

impl DeepView for Projection {
    type V = ProjectionView;

    open spec fn deep_view(&self) -> ProjectionView {
        self@
    }
}

/// What stands in a `FROM` clause or on the right of a `JOIN`.
#[derive(Debug, PartialEq, Eq)]
pub enum Relation {
    /// A simple table reference with its optional alias.
    Table { name: Vec<String>, alias: Option<String> },
    /// A derived table, a function call or any other relation.
    Other,
}

/// The contents of a [`Relation`].
pub enum RelationView {
    Table { name: PathView, alias: Option<Seq<char>> },
    Other,
}

impl View for Relation {
    type V = RelationView;

    open spec fn view(&self) -> RelationView {
        match self {
            Relation::Table { name, alias } => RelationView::Table {
                name: name.deep_view(),
                alias: option_text(*alias),
            },
            Relation::Other => RelationView::Other,
        }
    }
}

impl DeepView for Relation {
    type V = RelationView;

    open spec fn deep_view(&self) -> RelationView {
        self@
    }
}

/// One comma-separated entry of a `FROM` clause: a relation and the
/// relations joined to it, from left to right.
#[derive(Debug, PartialEq, Eq)]
pub struct FromEntry {
    pub relation: Relation,
    pub joins: Vec<Relation>,
}

/// The contents of a [`FromEntry`].
pub struct FromEntryView {
    pub relation: RelationView,
    pub joins: Seq<RelationView>,
}

impl View for FromEntry {
    type V = FromEntryView;

    open spec fn view(&self) -> FromEntryView {
        FromEntryView { relation: self.relation@, joins: self.joins.deep_view() }
    }
}

impl DeepView for FromEntry {
    type V = FromEntryView;

    open spec fn deep_view(&self) -> FromEntryView {
        self@
    }
}

/// One parsed statement.
#[derive(Debug, PartialEq, Eq)]
pub enum StatementShape {
    /// A top-level `SELECT ... FROM ... [JOIN ...]` query.
    Select { projection: Vec<Projection>, from: Vec<FromEntry> },
    /// Any other statement.
    Other,
}

/// The contents of a [`StatementShape`].
pub enum StatementShapeView {
    Select { projection: Seq<ProjectionView>, from: Seq<FromEntryView> },
    Other,
}

impl View for StatementShape {
    type V = StatementShapeView;

    open spec fn view(&self) -> StatementShapeView {
        match self {
            StatementShape::Select { projection, from } => StatementShapeView::Select {
                projection: projection.deep_view(),
                from: from.deep_view(),
            },
            StatementShape::Other => StatementShapeView::Other,
        }
    }
}

impl DeepView for StatementShape {
    type V = StatementShapeView;

    open spec fn deep_view(&self) -> StatementShapeView {
        self@
    }
}

} // verus!
