//! A model: the source tables and output items of one SQL file, and the
//! assignment of coarse types to its items.

use vstd::prelude::*;
use crate::catalog::{catalog_type, lemma_lookup_sound, TableView, Tables};
use crate::datatype::DataType;
use crate::extract::{
    extract_items_and_tables, lemma_tables_of_named, statement_items, statement_tables,
};
use crate::parse::{parse_sql, parsed_shapes, ParseError};
use crate::item::{found_item, Item, ItemView, SourceTable, SourceTableView};
use crate::seqs::{first_match, lemma_first_index_is};
use crate::statement::{StatementShape, StatementShapeView};
use crate::text::str_eq;

verus! {

/// One lineage-tracked unit: its name (the stem of the file it was read
/// from), the tables it reads and the columns it projects.
#[derive(Debug, PartialEq, Eq)]
pub struct SqlModel {
    pub name: String,
    pub tables: Vec<SourceTable>,
    pub items: Vec<Item>,
}

/// The contents of a [`SqlModel`].
pub struct SqlModelView {
    pub name: Seq<char>,
    pub tables: Seq<SourceTableView>,
    pub items: Seq<ItemView>,
}

impl View for SqlModel {
    type V = SqlModelView;

    open spec fn view(&self) -> SqlModelView {
        SqlModelView {
            name: self.name@,
            tables: self.tables.deep_view(),
            items: self.items.deep_view(),
        }
    }
}

impl DeepView for SqlModel {
    type V = SqlModelView;

    open spec fn deep_view(&self) -> SqlModelView {
        self@
    }
}

/// A copy of a list of source tables.
pub fn tables_clone(tables: &Vec<SourceTable>) -> (r: Vec<SourceTable>)
    ensures
        r.deep_view() == tables.deep_view(),
{
    let mut out: Vec<SourceTable> = Vec::new();
    let mut i: usize = 0;
    while i < tables.len()
        invariant
            i <= tables.len(),
            out.len() == i,
            forall|k: int| 0 <= k < i ==> out@[k]@ == tables@[k]@,
        decreases tables.len() - i,
    {
        out.push(tables[i].clone());
        i = i + 1;
    }
    assert(out.deep_view() =~= tables.deep_view());
    out
}

/// A copy of a list of items.
pub fn items_clone(items: &Vec<Item>) -> (r: Vec<Item>)
    ensures
        r.deep_view() == items.deep_view(),
{
    let mut out: Vec<Item> = Vec::new();
    let mut i: usize = 0;
    while i < items.len()
        invariant
            i <= items.len(),
            out.len() == i,
            forall|k: int| 0 <= k < i ==> out@[k]@ == items@[k]@,
        decreases items.len() - i,
    {
        out.push(items[i].clone());
        i = i + 1;
    }
    assert(out.deep_view() =~= items.deep_view());
    out
}

impl Clone for SqlModel {
    fn clone(&self) -> (r: SqlModel)
        ensures
            r@ == self@,
    {
        SqlModel {
            name: self.name.clone(),
            tables: tables_clone(&self.tables),
            items: items_clone(&self.items),
        }
    }
}

/// The test that a statement is a `SELECT` query.
pub open spec fn is_select() -> spec_fn(StatementShapeView) -> bool {
    |s: StatementShapeView| s is Select
}

/// The model called `name` that a file with the given statements defines:
/// the tables and the items of the first statement that is a `SELECT`
/// query, and none if there is no such statement. None of the items has a
/// type yet.
pub open spec fn model_of(name: Seq<char>, statements: Seq<StatementShapeView>) -> SqlModelView {
    match first_match(statements, is_select()) {
        Some(s) => SqlModelView {
            name: name,
            tables: statement_tables(s),
            items: statement_items(s),
        },
        None => SqlModelView { name: name, tables: Seq::empty(), items: Seq::empty() },
    }
}

/// The model called `name` that a file with the given text defines, or the
/// error with which the parser refuses the text.
pub open spec fn parsed_model(name: Seq<char>, sql: Seq<char>) -> Result<SqlModelView, ParseError> {
    match parsed_shapes(sql) {
        Ok(statements) => Ok(model_of(name, statements)),
        Err(e) => Err(e),
    }
}

/// Whether every source table of the model has a name: an origin path of at
/// least one segment.
pub open spec fn sources_named(model: SqlModelView) -> bool {
    forall|i: int| 0 <= i < model.tables.len() ==> (#[trigger] model.tables[i]).origin.len() > 0
}

/// Every source table of a model that statements define has a name.
pub proof fn lemma_model_of_named(name: Seq<char>, statements: Seq<StatementShapeView>)
    ensures
        sources_named(model_of(name, statements)),
{
    let m = model_of(name, statements);
    assert forall|i: int| 0 <= i < m.tables.len() implies (#[trigger] m.tables[i]).origin.len()
        > 0 by {
        match first_match(statements, is_select()) {
            Some(StatementShapeView::Select { projection, from }) => {
                lemma_tables_of_named(from, i);
            },
            _ => {},
        }
    }
}

/// What one sibling model says of the type of `column`, asked as the model
/// called `candidate`.
///
/// A sibling of another name says nothing. One of that name is searched for
/// an item called `column` (by alias first, then by its own name); that
/// item's qualifier is resolved among the sibling's own tables, and the
/// catalog is asked for the item's own name at the resolved path.
pub open spec fn sibling_answer(
    other: SqlModelView,
    candidate: Seq<char>,
    column: Seq<char>,
    catalog: Seq<TableView>,
) -> Option<DataType> {
    if other.name != candidate {
        None
    } else {
        match found_item(other.items, column) {
            None => None,
            Some(it) => match it.resolved_path(other.tables) {
                Ok(p) => catalog_type(catalog, p, it.name),
                Err(_) => None,
            },
        }
    }
}

/// The type that the siblings give to `column` of the model called
/// `candidate`: the answer of the last sibling that has one.
pub open spec fn sibling_type(
    others: Seq<SqlModelView>,
    candidate: Seq<char>,
    column: Seq<char>,
    catalog: Seq<TableView>,
) -> Option<DataType>
    decreases others.len(),
{
    if others.len() == 0 {
        None
    } else {
        match sibling_answer(others.last(), candidate, column, catalog) {
            Some(t) => Some(t),
            None => sibling_type(others.drop_last(), candidate, column, catalog),
        }
    }
}

/// The type that assignment finds for an item of a model with the given
/// source tables, if it finds one.
///
/// The catalog is asked first, for the item's own name at its resolved path.
/// If it does not answer, the siblings are asked as the model named by the
/// last segment of the resolved path. An item whose qualifier is ambiguous,
/// or resolves to the empty path, finds nothing.
pub open spec fn discovered_type(
    item: ItemView,
    tables: Seq<SourceTableView>,
    catalog: Seq<TableView>,
    others: Seq<SqlModelView>,
) -> Option<DataType> {
    match item.resolved_path(tables) {
        Err(_) => None,
        Ok(p) => match catalog_type(catalog, p, item.name) {
            Some(t) => Some(t),
            None => if p.len() == 0 {
                None
            } else {
                sibling_type(others, p.last(), item.name, catalog)
            },
        },
    }
}

/// An item after type assignment: it has the type that assignment finds,
/// and keeps what it had where assignment finds none.
pub open spec fn typed_item(
    item: ItemView,
    tables: Seq<SourceTableView>,
    catalog: Seq<TableView>,
    others: Seq<SqlModelView>,
) -> ItemView {
    ItemView {
        data_type: match discovered_type(item, tables, catalog, others) {
            Some(t) => Some(t),
            None => item.data_type,
        },
        ..item
    }
}

/// A model after type assignment: every item typed, nothing else changed.
pub open spec fn typed_model(
    model: SqlModelView,
    catalog: Seq<TableView>,
    others: Seq<SqlModelView>,
) -> SqlModelView {
    SqlModelView {
        items: model.items.map_values(
            |it: ItemView| typed_item(it, model.tables, catalog, others),
        ),
        ..model
    }
}

/// What one sibling model says of the type of `column`, asked as the model
/// called `candidate`.
fn ask_sibling(other: &SqlModel, candidate: &str, column: &str, tables: &Tables) -> (r: Option<
    DataType,
>)
    ensures
        r == sibling_answer(other@, candidate@, column@, tables@),
{
    if !str_eq(other.name.as_str(), candidate) {
        return None;
    }
    match Item::find(&other.items, column) {
        None => None,
        Some(it) => match it.resolve_path(&other.tables) {
            Ok(p) => tables.data_type(&p, it.name.as_str()),
            Err(_) => None,
        },
    }
}

/// The answer of the last sibling that has one.
fn ask_siblings(others: &Vec<SqlModel>, candidate: &str, column: &str, tables: &Tables) -> (r:
    Option<DataType>)
    ensures
        r == sibling_type(others.deep_view(), candidate@, column@, tables@),
{
    let mut answer: Option<DataType> = None;
    let mut i: usize = 0;
    while i < others.len()
        invariant
            i <= others.len(),
            answer == sibling_type(others.deep_view().take(i as int), candidate@, column@, tables@),
        decreases others.len() - i,
    {
        proof {
            assert(others.deep_view().take(i as int + 1).drop_last() =~= others.deep_view().take(
                i as int,
            ));
        }
        match ask_sibling(&others[i], candidate, column, tables) {
            Some(t) => {
                answer = Some(t);
            },
            None => {},
        }
        i = i + 1;
    }
    assert(others.deep_view().take(i as int) =~= others.deep_view());
    answer
}

/// The type that assignment finds for `item` in a model with the given
/// source tables.
pub fn discover_type(
    item: &Item,
    sources: &Vec<SourceTable>,
    tables: &Tables,
    others: &Vec<SqlModel>,
) -> (r: Option<DataType>)
    ensures
        r == discovered_type(item@, sources.deep_view(), tables@, others.deep_view()),
{
    match item.resolve_path(sources) {
        Err(_) => None,
        Ok(p) => match tables.data_type(&p, item.name.as_str()) {
            Some(t) => Some(t),
            None => {
                if p.len() == 0 {
                    None
                } else {
                    let candidate = &p[p.len() - 1];
                    assert(candidate@ == p.deep_view().last());
                    ask_siblings(others, candidate.as_str(), item.name.as_str(), tables)
                }
            },
        },
    }
}

impl SqlModel {
    /// The model called `name` that a file with the given statements
    /// defines: the tables and the items of the first statement that is a
    /// `SELECT` query. Statements after it are not read.
    pub fn from_statements(name: &str, statements: &Vec<StatementShape>) -> (r: SqlModel)
        ensures
            r@ == model_of(name@, statements.deep_view()),
    {
        let mut tables: Vec<SourceTable> = Vec::new();
        let mut items: Vec<Item> = Vec::new();
        let mut i: usize = 0;
        while i < statements.len()
            invariant
                i <= statements.len(),
                tables.deep_view() == Seq::<SourceTableView>::empty(),
                items.deep_view() == Seq::<ItemView>::empty(),
                forall|k: int| 0 <= k < i ==> !is_select()(#[trigger] statements.deep_view()[k]),
            decreases statements.len() - i,
        {
            match &statements[i] {
                StatementShape::Select { .. } => {
                    proof {
                        assert(is_select()(statements.deep_view()[i as int]));
                        lemma_first_index_is(statements.deep_view(), is_select(), i as int);
                    }
                    extract_items_and_tables(&statements[i], &mut tables, &mut items);
                    assert(tables.deep_view() =~= statement_tables(statements@[i as int]@));
                    assert(items.deep_view() =~= statement_items(statements@[i as int]@));
                    return SqlModel { name: name.to_owned(), tables: tables, items: items };
                },
                StatementShape::Other => {
                    assert(!is_select()(statements.deep_view()[i as int]));
                },
            }
            i = i + 1;
        }
        proof {
            lemma_first_index_is(statements.deep_view(), is_select(), i as int);
        }
        SqlModel { name: name.to_owned(), tables: tables, items: items }
    }

    /// The model called `name` that a file with the text `sql` defines. The
    /// text is refused with the parser's error if it is no SQL.
    pub fn from_sql(name: &str, sql: &str) -> (r: Result<SqlModel, ParseError>)
        ensures
            match r {
                Ok(m) => parsed_model(name@, sql@) == Ok::<SqlModelView, ParseError>(m@),
                Err(e) => parsed_model(name@, sql@) == Err::<SqlModelView, ParseError>(e),
            },
            r matches Ok(m) ==> sources_named(m@),
    {
        match parse_sql(sql) {
            Ok(statements) => {
                proof {
                    lemma_model_of_named(name@, statements.deep_view());
                }
                Ok(SqlModel::from_statements(name, &statements))
            },
            Err(e) => Err(e),
        }
    }

    /// Gives every item of the model the type that the catalog declares for
    /// it or, failing that, the type that a sibling model's item of the same
    /// name has in the catalog. An item for which neither answers, or whose
    /// qualifier is ambiguous, keeps what it had.
    pub fn assign_datatypes(&mut self, tables: &Tables, others: &Vec<SqlModel>)
        ensures
            final(self)@ == typed_model(old(self)@, tables@, others.deep_view()),
    {
        let ghost before = self@;
        let ghost typed = |it: ItemView| typed_item(it, before.tables, tables@, others.deep_view());
        let mut i: usize = 0;
        while i < self.items.len()
            invariant
                i <= self.items.len(),
                self.name == old(self).name,
                self.tables == old(self).tables,
                self.items.len() == old(self).items.len(),
                before == old(self)@,
                typed == |it: ItemView| typed_item(it, before.tables, tables@, others.deep_view()),
                forall|k: int| 0 <= k < i ==> self.items@[k]@ == typed(before.items[k]),
                forall|k: int| i <= k < self.items.len() ==> self.items@[k]@ == before.items[k],
            decreases self.items.len() - i,
        {
            let found = discover_type(&self.items[i], &self.tables, tables, others);
            match found {
                Some(t) => {
                    let mut item = self.items[i].clone();
                    item.data_type = Some(t);
                    self.items.set(i, item);
                },
                None => {},
            }
            i = i + 1;
        }
        assert(self@.items =~= before.items.map_values(typed));
    }
}

/// Whether some column of some table of the catalog is declared with the
/// type `t`.
pub open spec fn declares(catalog: Seq<TableView>, t: DataType) -> bool {
    exists|i: int, j: int|
        0 <= i < catalog.len() && 0 <= j < catalog[i].datafields.len()
            && (#[trigger] catalog[i].datafields[j]).datatype == t
}

/// A type that the catalog gives for a path and a column is one that it
/// declares.
pub proof fn lemma_catalog_type_declared(
    catalog: Seq<TableView>,
    path: crate::text::PathView,
    column: Seq<char>,
)
    requires
        catalog_type(catalog, path, column) is Some,
    ensures
        declares(catalog, catalog_type(catalog, path, column)->0),
{
    lemma_lookup_sound(catalog, path, column);
    let (i, j) = choose|i: int, j: int|
        0 <= i < catalog.len() && 0 <= j < catalog[i].datafields.len() && (
        #[trigger] catalog[i]).identity() == path && (#[trigger] catalog[i].datafields[j]).name
            == column && catalog_type(catalog, path, column) == Some(
            catalog[i].datafields[j].datatype,
        );
    assert(catalog[i].datafields[j].datatype == catalog_type(catalog, path, column)->0);
}

/// A type that the siblings give is one that the catalog declares.
pub proof fn lemma_sibling_type_declared(
    others: Seq<SqlModelView>,
    candidate: Seq<char>,
    column: Seq<char>,
    catalog: Seq<TableView>,
)
    requires
        sibling_type(others, candidate, column, catalog) is Some,
    ensures
        declares(catalog, sibling_type(others, candidate, column, catalog)->0),
    decreases others.len(),
{
    match sibling_answer(others.last(), candidate, column, catalog) {
        Some(t) => {
            let it = found_item(others.last().items, column)->0;
            let p = it.resolved_path(others.last().tables)->Ok_0;
            lemma_catalog_type_declared(catalog, p, it.name);
        },
        None => {
            lemma_sibling_type_declared(others.drop_last(), candidate, column, catalog);
        },
    }
}

/// Type assignment invents nothing: a type that it finds for an item is the
/// declared type of a column of the catalog.
pub proof fn lemma_discovered_type_declared(
    item: ItemView,
    tables: Seq<SourceTableView>,
    catalog: Seq<TableView>,
    others: Seq<SqlModelView>,
)
    requires
        discovered_type(item, tables, catalog, others) is Some,
    ensures
        declares(catalog, discovered_type(item, tables, catalog, others)->0),
{
    let p = item.resolved_path(tables)->Ok_0;
    if catalog_type(catalog, p, item.name) is Some {
        lemma_catalog_type_declared(catalog, p, item.name);
    } else {
        lemma_sibling_type_declared(others, p.last(), item.name, catalog);
    }
}

/// An item without a type stays without one where neither the catalog nor a
/// sibling answers, and where one answers it gets a type that the catalog
/// declares.
pub proof fn lemma_untyped_item_assignment(
    item: ItemView,
    tables: Seq<SourceTableView>,
    catalog: Seq<TableView>,
    others: Seq<SqlModelView>,
)
    requires
        item.data_type is None,
    ensures
        discovered_type(item, tables, catalog, others) is None ==> typed_item(
            item,
            tables,
            catalog,
            others,
        ).data_type is None,
        typed_item(item, tables, catalog, others).data_type matches Some(t) ==> declares(
            catalog,
            t,
        ),
{
    if discovered_type(item, tables, catalog, others) is Some {
        lemma_discovered_type_declared(item, tables, catalog, others);
    }
}

/// Against a catalog that declares no column as `Unknown`, type assignment
/// takes no type away: an item with a type other than `Unknown` has one
/// afterwards.
pub proof fn lemma_assignment_keeps_known(
    item: ItemView,
    tables: Seq<SourceTableView>,
    catalog: Seq<TableView>,
    others: Seq<SqlModelView>,
)
    requires
        !declares(catalog, DataType::Unknown),
        item.data_type is Some,
        item.data_type != Some(DataType::Unknown),
    ensures
        typed_item(item, tables, catalog, others).data_type is Some,
        typed_item(item, tables, catalog, others).data_type != Some(DataType::Unknown),
{
    if discovered_type(item, tables, catalog, others) is Some {
        lemma_discovered_type_declared(item, tables, catalog, others);
    }
}

} // verus!
