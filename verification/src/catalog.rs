//! The schema catalog: the declared tables and the coarse type of each of
//! their columns.

use vstd::prelude::*;
use crate::datatype::DataType;
use crate::seqs::{first_index, first_match, lemma_first_index, lemma_first_index_is};
use crate::text::{str_eq, PathView};

verus! {

/// One declared column of a catalog table.
#[derive(Debug, PartialEq, Eq)]
pub struct DataField {
    pub name: String,
    pub datatype: DataType,
}

/// The contents of a [`DataField`].
pub struct DataFieldView {
    pub name: Seq<char>,
    pub datatype: DataType,
}

impl View for DataField {
    type V = DataFieldView;

    open spec fn view(&self) -> DataFieldView {
        DataFieldView { name: self.name@, datatype: self.datatype }
    }
}

impl DeepView for DataField {
    type V = DataFieldView;

    open spec fn deep_view(&self) -> DataFieldView {
        self@
    }
}

/// One declared table: its name, the namespace in front of it, a free-text
/// description and its columns in declaration order.
#[derive(Debug, PartialEq, Eq)]
pub struct Table {
    pub name: String,
    pub namespace: Vec<String>,
    pub description: String,
    pub datafields: Vec<DataField>,
}

/// The contents of a [`Table`].
pub struct TableView {
    pub name: Seq<char>,
    pub namespace: PathView,
    pub description: Seq<char>,
    pub datafields: Seq<DataFieldView>,
}

impl View for Table {
    type V = TableView;

    open spec fn view(&self) -> TableView {
        TableView {
            name: self.name@,
            namespace: self.namespace.deep_view(),
            description: self.description@,
            datafields: self.datafields.deep_view(),
        }
    }
}

impl DeepView for Table {
    type V = TableView;

    open spec fn deep_view(&self) -> TableView {
        self@
    }
}

impl TableView {
    /// The qualified identity of the table: the namespace segments followed
    /// by the name.
    pub open spec fn identity(self) -> PathView {
        self.namespace.push(self.name)
    }

    /// The declared type of the first column called `column`, if the table
    /// declares such a column.
    pub open spec fn column_type(self, column: Seq<char>) -> Option<DataType> {
        match first_match(self.datafields, |f: DataFieldView| f.name == column) {
            Some(f) => Some(f.datatype),
            None => None,
        }
    }
}

/// What the catalog says of `column` in the table at `path`: the declared
/// type of that column in the first table whose identity is `path`, and
/// nothing if no table has that identity or that table has no such column.
pub open spec fn catalog_type(tables: Seq<TableView>, path: PathView, column: Seq<char>) -> Option<
    DataType,
> {
    match first_match(tables, |t: TableView| t.identity() == path) {
        Some(t) => t.column_type(column),
        None => None,
    }
}

/// Whether no two tables of the catalog share a qualified identity.
pub open spec fn unique_identities(tables: Seq<TableView>) -> bool {
    forall|i: int, j: int|
        0 <= i < tables.len() && 0 <= j < tables.len() && i != j ==> (#[trigger] tables[i]).identity()
            != (#[trigger] tables[j]).identity()
}

impl Table {
    /// Whether `path` is the table's qualified identity.
    pub fn path_matches(&self, path: &Vec<String>) -> (r: bool)
        ensures
            r == (self@.identity() == path.deep_view()),
    {
        let n = self.namespace.len();
        if path.len() == 0 || path.len() - 1 != n {
            assert(self@.identity().len() != path.deep_view().len());
            return false;
        }
        let mut i: usize = 0;
        while i < n
            invariant
                i <= n,
                n == self.namespace.len(),
                path.len() == n + 1,
                forall|k: int| 0 <= k < i ==> self.namespace@[k]@ == path@[k]@,
            decreases n - i,
        {
            if !str_eq(self.namespace[i].as_str(), path[i].as_str()) {
                assert(self@.identity()[i as int] != path.deep_view()[i as int]);
                return false;
            }
            i = i + 1;
        }
        if !str_eq(self.name.as_str(), path[n].as_str()) {
            assert(self@.identity()[n as int] != path.deep_view()[n as int]);
            return false;
        }
        assert(self@.identity() =~= path.deep_view());
        true
    }

    /// The declared type of the first column called `column`.
    pub fn column_type(&self, column: &str) -> (r: Option<DataType>)
        ensures
            r == self@.column_type(column@),
    {
        let ghost named = |f: DataFieldView| f.name == column@;
        let mut i: usize = 0;
        while i < self.datafields.len()
            invariant
                i <= self.datafields.len(),
                named == |f: DataFieldView| f.name == column@,
                forall|k: int| 0 <= k < i ==> !named(#[trigger] self.datafields.deep_view()[k]),
            decreases self.datafields.len() - i,
        {
            if str_eq(self.datafields[i].name.as_str(), column) {
                proof {
                    assert(named(self.datafields.deep_view()[i as int]));
                    lemma_first_index_is(self.datafields.deep_view(), named, i as int);
                }
                return Some(self.datafields[i].datatype);
            }
            assert(!named(self.datafields.deep_view()[i as int]));
            i = i + 1;
        }
        proof {
            lemma_first_index_is(self.datafields.deep_view(), named, i as int);
        }
        None
    }
}

/// The declared tables of one run, in declaration order.
#[derive(Debug, PartialEq, Eq)]
pub struct Tables(pub Vec<Table>);

impl View for Tables {
    type V = Seq<TableView>;

    open spec fn view(&self) -> Seq<TableView> {
        self.0.deep_view()
    }
}

impl Tables {
    /// The declared type of `column` in the table whose identity is `path`.
    ///
    /// Where several tables share the identity, the first one decides. There
    /// is no match if no table has the identity, or if the table that decides
    /// declares no such column.
    pub fn data_type(&self, path: &Vec<String>, column: &str) -> (r: Option<DataType>)
        ensures
            r == catalog_type(self@, path.deep_view(), column@),
    {
        let ghost at_path = |t: TableView| t.identity() == path.deep_view();
        let mut i: usize = 0;
        while i < self.0.len()
            invariant
                i <= self.0.len(),
                at_path == |t: TableView| t.identity() == path.deep_view(),
                forall|k: int| 0 <= k < i ==> !at_path(#[trigger] self@[k]),
            decreases self.0.len() - i,
        {
            if self.0[i].path_matches(path) {
                proof {
                    assert(at_path(self@[i as int]));
                    lemma_first_index_is(self@, at_path, i as int);
                }
                return self.0[i].column_type(column);
            }
            assert(!at_path(self@[i as int]));
            i = i + 1;
        }
        proof {
            lemma_first_index_is(self@, at_path, i as int);
        }
        None
    }
}

/// In a catalog whose tables have unique identities, a lookup by the identity
/// of a declared table and the name of one of its columns gives that column's
/// declared type (the first declaration of the name, should the table repeat
/// it).
pub proof fn lemma_lookup_declared(tables: Seq<TableView>, i: int, j: int)
    requires
        unique_identities(tables),
        0 <= i < tables.len(),
        0 <= j < tables[i].datafields.len(),
        forall|k: int| 0 <= k < j ==> (#[trigger] tables[i].datafields[k]).name != tables[i].datafields[j].name,
    ensures
        catalog_type(tables, tables[i].identity(), tables[i].datafields[j].name) == Some(
            tables[i].datafields[j].datatype,
        ),
{
    let at_path = |t: TableView| t.identity() == tables[i].identity();
    assert forall|k: int| 0 <= k < i implies !at_path(#[trigger] tables[k]) by {}
    lemma_first_index_is(tables, at_path, i);
    let named = |f: DataFieldView| f.name == tables[i].datafields[j].name;
    lemma_first_index_is(tables[i].datafields, named, j);
}

/// A lookup by a path that is no declared table's identity finds nothing.
pub proof fn lemma_lookup_other_identity(tables: Seq<TableView>, path: PathView, column: Seq<char>)
    requires
        forall|i: int| 0 <= i < tables.len() ==> (#[trigger] tables[i]).identity() != path,
    ensures
        catalog_type(tables, path, column) is None,
{
    let at_path = |t: TableView| t.identity() == path;
    lemma_first_index_is(tables, at_path, tables.len() as int);
}

/// In a catalog whose tables have unique identities, a lookup by the identity
/// of a declared table and a name that none of its columns has finds nothing.
pub proof fn lemma_lookup_other_column(tables: Seq<TableView>, i: int, column: Seq<char>)
    requires
        unique_identities(tables),
        0 <= i < tables.len(),
        forall|j: int| 0 <= j < tables[i].datafields.len() ==> (#[trigger] tables[i].datafields[j]).name != column,
    ensures
        catalog_type(tables, tables[i].identity(), column) is None,
{
    let at_path = |t: TableView| t.identity() == tables[i].identity();
    assert forall|k: int| 0 <= k < i implies !at_path(#[trigger] tables[k]) by {}
    lemma_first_index_is(tables, at_path, i);
    let named = |f: DataFieldView| f.name == column;
    lemma_first_index_is(tables[i].datafields, named, tables[i].datafields.len() as int);
}

/// Whatever the catalog, a lookup that finds a type finds the declared type
/// of a column of that name in a table of that identity.
pub proof fn lemma_lookup_sound(tables: Seq<TableView>, path: PathView, column: Seq<char>)
    requires
        catalog_type(tables, path, column) is Some,
    ensures
        exists|i: int, j: int|
            0 <= i < tables.len() && 0 <= j < tables[i].datafields.len() && (#[trigger] tables[i]).identity()
                == path && (#[trigger] tables[i].datafields[j]).name == column && catalog_type(
                tables,
                path,
                column,
            ) == Some(tables[i].datafields[j].datatype),
{
    let at_path = |t: TableView| t.identity() == path;
    lemma_first_index(tables, at_path);
    let i = first_index(tables, at_path);
    let named = |f: DataFieldView| f.name == column;
    lemma_first_index(tables[i].datafields, named);
    let j = first_index(tables[i].datafields, named);
    assert(tables[i].identity() == path && tables[i].datafields[j].name == column);
}

} // verus!
