//! Source table references and output items of one model, with the rules
//! that tie an item to a source table.

use vstd::prelude::*;
use crate::datatype::DataType;
use crate::seqs::{first_index, first_match, lemma_filter_push, lemma_first_index_is};
use crate::text::{path_clone, path_eq, str_eq, PathView};

verus! {

/// A table named in a `FROM` or `JOIN` clause: its qualified path as written,
/// and the alias bound to it in that statement, if any.
#[derive(Debug, PartialEq, Eq)]
pub struct SourceTable {
    pub origin: Vec<String>,
    pub alias: Option<String>,
}

/// The contents of a [`SourceTable`].
pub struct SourceTableView {
    pub origin: PathView,
    pub alias: Option<Seq<char>>,
}

/// The contents of an optional string.
pub open spec fn option_text(s: Option<String>) -> Option<Seq<char>> {
    match s {
        Some(t) => Some(t@),
        None => None,
    }
}

impl View for SourceTable {
    type V = SourceTableView;

    open spec fn view(&self) -> SourceTableView {
        SourceTableView { origin: self.origin.deep_view(), alias: option_text(self.alias) }
    }
}

impl DeepView for SourceTable {
    type V = SourceTableView;

    open spec fn deep_view(&self) -> SourceTableView {
        self@
    }
}

impl Clone for SourceTable {
    fn clone(&self) -> (r: SourceTable)
        ensures
            r@ == self@,
    {
        SourceTable { origin: path_clone(&self.origin), alias: option_clone(&self.alias) }
    }
}

/// A copy of an optional string.
pub fn option_clone(s: &Option<String>) -> (r: Option<String>)
    ensures
        option_text(r) == option_text(*s),
{
    match s {
        Some(t) => Some(t.clone()),
        None => None,
    }
}

impl SourceTableView {
    /// The name under which the table appears in the graph: the last segment
    /// of its origin path.
    pub open spec fn display_name(self) -> Seq<char>
        recommends
            self.origin.len() > 0,
    {
        self.origin.last()
    }
}

impl SourceTable {
    /// The name under which the table appears in the graph: the last segment
    /// of its origin path. The namespace in front of it is dropped.
    pub fn display_name(&self) -> (r: &String)
        requires
            self@.origin.len() > 0,
        ensures
            r@ == self@.display_name(),
    {
        &self.origin[self.origin.len() - 1]
    }
}

/// One projected column of a model's query.
///
/// `name` is the column's own identifier and `path` the qualifier written in
/// front of it (empty if there is none). `alias` is set for `expr AS alias`.
/// `data_type` is absent until types are assigned.
#[derive(Debug, PartialEq, Eq)]
pub struct Item {
    pub name: String,
    pub path: Vec<String>,
    pub alias: Option<String>,
    pub data_type: Option<DataType>,
}

/// The contents of an [`Item`].
pub struct ItemView {
    pub name: Seq<char>,
    pub path: PathView,
    pub alias: Option<Seq<char>>,
    pub data_type: Option<DataType>,
}

impl View for Item {
    type V = ItemView;

    open spec fn view(&self) -> ItemView {
        ItemView {
            name: self.name@,
            path: self.path.deep_view(),
            alias: option_text(self.alias),
            data_type: self.data_type,
        }
    }
}

impl DeepView for Item {
    type V = ItemView;

    open spec fn deep_view(&self) -> ItemView {
        self@
    }
}

impl Clone for Item {
    fn clone(&self) -> (r: Item)
        ensures
            r@ == self@,
    {
        Item {
            name: self.name.clone(),
            path: path_clone(&self.path),
            alias: option_clone(&self.alias),
            data_type: self.data_type,
        }
    }
}

/// Why an item's qualifier could not be resolved.
#[derive(Clone, Copy, Debug, PartialEq, Eq, Structural)]
pub enum Ambiguity {
    /// The item has no qualifier and the model reads from no table.
    NoSourceTable,
    /// The item has no qualifier and the model reads from several tables.
    SeveralSourceTables,
}

impl ItemView {
    /// The identity under which the item is matched and shown: the alias if
    /// there is one, else the column's own name.
    pub open spec fn display_name(self) -> Seq<char> {
        match self.alias {
            Some(a) => a,
            None => self.name,
        }
    }

    /// Whether the item is printed on the edge that leaves `source`: the
    /// first segment of its qualifier is the source's alias, or its whole
    /// qualifier is the source's origin path.
    pub open spec fn comes_from(self, source: SourceTableView) -> bool {
        ||| (source.alias is Some && self.path.len() > 0 && self.path[0] == source.alias->0)
        ||| self.path == source.origin
    }

    /// The origin path that the item's qualifier stands for among `tables`.
    ///
    /// No qualifier: the only table's origin, and an ambiguity if there is not
    /// exactly one table. A qualifier of several segments: the qualifier
    /// itself. A qualifier of one segment: the origin of the first table with
    /// that alias, and the empty path if no table has it.
    pub open spec fn resolved_path(self, tables: Seq<SourceTableView>) -> Result<
        PathView,
        Ambiguity,
    > {
        if self.path.len() == 0 {
            if tables.len() == 1 {
                Ok(tables[0].origin)
            } else if tables.len() == 0 {
                Err(Ambiguity::NoSourceTable)
            } else {
                Err(Ambiguity::SeveralSourceTables)
            }
        } else if self.path.len() > 1 {
            Ok(self.path)
        } else {
            Ok(origin_of_alias(tables, self.path[0]))
        }
    }
}

/// The origin of the first table in `tables` whose alias is `alias`, and the
/// empty path if there is none.
pub open spec fn origin_of_alias(tables: Seq<SourceTableView>, alias: Seq<char>) -> PathView {
    match first_match(tables, |t: SourceTableView| t.alias == Some(alias)) {
        Some(t) => t.origin,
        None => Seq::empty(),
    }
}

/// The item that a lookup by `name` finds in `items`: the first whose alias is
/// `name`, or, if no alias matches, the first whose own name is `name`.
pub open spec fn found_item(items: Seq<ItemView>, name: Seq<char>) -> Option<ItemView> {
    match first_match(items, |it: ItemView| it.alias == Some(name)) {
        Some(it) => Some(it),
        None => first_match(items, |it: ItemView| it.name == name),
    }
}

/// Whether an optional string is present and holds `text`.
pub fn option_is(s: &Option<String>, text: &str) -> (r: bool)
    ensures
        r == (option_text(*s) == Some(text@)),
{
    match s {
        Some(t) => str_eq(t.as_str(), text),
        None => false,
    }
}

impl Item {
    /// The identity under which the item is matched and shown: the alias if
    /// there is one, else the column's own name.
    pub fn name(&self) -> (r: &str)
        ensures
            r@ == self@.display_name(),
    {
        match &self.alias {
            Some(alias) => alias.as_str(),
            None => self.name.as_str(),
        }
    }

    /// Whether the item is printed on the edge that leaves `source`.
    pub fn comes_from(&self, source: &SourceTable) -> (r: bool)
        ensures
            r == self@.comes_from(source@),
    {
        if self.path.len() > 0 && option_is(&source.alias, self.path[0].as_str()) {
            assert(self@.path[0] == self.path@[0]@);
            return true;
        }
        proof {
            if self.path.len() > 0 {
                assert(self@.path[0] == self.path@[0]@);
            }
        }
        path_eq(&source.origin, &self.path)
    }

    /// Keeps in `items` only the items that are printed on the edge that
    /// leaves `source`, in their order.
    pub fn filter_by_source(items: &mut Vec<Item>, source: SourceTable)
        ensures
            final(items).deep_view() == old(items).deep_view().filter(
                |it: ItemView| it.comes_from(source@),
            ),
    {
        let ghost keep = |it: ItemView| it.comes_from(source@);
        let mut kept: Vec<Item> = Vec::new();
        let mut i: usize = 0;
        while i < items.len()
            invariant
                i <= items.len(),
                *items == *old(items),
                keep == |it: ItemView| it.comes_from(source@),
                kept.deep_view() == items.deep_view().take(i as int).filter(keep),
            decreases items.len() - i,
        {
            let ghost before = kept.deep_view();
            proof {
                lemma_filter_push(items.deep_view().take(i as int), items[i as int]@, keep);
                assert(items.deep_view().take(i as int + 1) =~= items.deep_view().take(
                    i as int,
                ).push(items[i as int]@));
            }
            if items[i].comes_from(&source) {
                kept.push(items[i].clone());
                assert(kept.deep_view() =~= before.push(items[i as int]@));
            }
            i = i + 1;
        }
        assert(items.deep_view().take(i as int) =~= items.deep_view());
        *items = kept;
    }

    /// Resolves the item's qualifier to an origin path among the model's
    /// source tables.
    pub fn resolve_path(&self, tables: &Vec<SourceTable>) -> (r: Result<Vec<String>, Ambiguity>)
        ensures
            match r {
                Ok(p) => self@.resolved_path(tables.deep_view()) == Ok::<PathView, Ambiguity>(
                    p.deep_view(),
                ),
                Err(e) => self@.resolved_path(tables.deep_view()) == Err::<PathView, Ambiguity>(e),
            },
    {
        if self.path.len() == 0 {
            if tables.len() == 1 {
                return Ok(path_clone(&tables[0].origin));
            } else if tables.len() == 0 {
                return Err(Ambiguity::NoSourceTable);
            } else {
                return Err(Ambiguity::SeveralSourceTables);
            }
        }
        if self.path.len() > 1 {
            return Ok(path_clone(&self.path));
        }
        let ghost alias = self@.path[0];
        let ghost has_alias = |t: SourceTableView| t.alias == Some(alias);
        assert(alias == self.path@[0]@);
        let mut i: usize = 0;
        while i < tables.len()
            invariant
                i <= tables.len(),
                self.path.len() == 1,
                alias == self.path@[0]@,
                has_alias == |t: SourceTableView| t.alias == Some(alias),
                forall|k: int| 0 <= k < i ==> !has_alias(#[trigger] tables.deep_view()[k]),
            decreases tables.len() - i,
        {
            if option_is(&tables[i].alias, self.path[0].as_str()) {
                proof {
                    assert(has_alias(tables.deep_view()[i as int]));
                    lemma_first_index_is(tables.deep_view(), has_alias, i as int);
                }
                return Ok(path_clone(&tables[i].origin));
            }
            assert(!has_alias(tables.deep_view()[i as int]));
            i = i + 1;
        }
        proof {
            lemma_first_index_is(tables.deep_view(), has_alias, i as int);
        }
        let none: Vec<String> = Vec::new();
        assert(none.deep_view() =~= Seq::<Seq<char>>::empty());
        Ok(none)
    }

    /// Looks an item up by name: first by alias over all items, then by the
    /// column's own name. Returns a copy of the first match of the pass that
    /// matches, and `None` if neither pass matches.
    pub fn find(items: &Vec<Item>, name: &str) -> (r: Option<Item>)
        ensures
            match r {
                Some(it) => found_item(items.deep_view(), name@) == Some(it@),
                None => found_item(items.deep_view(), name@) is None,
            },
    {
        let ghost by_alias = |it: ItemView| it.alias == Some(name@);
        let ghost by_name = |it: ItemView| it.name == name@;
        let mut i: usize = 0;
        while i < items.len()
            invariant
                i <= items.len(),
                by_alias == |it: ItemView| it.alias == Some(name@),
                forall|k: int| 0 <= k < i ==> !by_alias(#[trigger] items.deep_view()[k]),
            decreases items.len() - i,
        {
            if option_is(&items[i].alias, name) {
                proof {
                    assert(by_alias(items.deep_view()[i as int]));
                    lemma_first_index_is(items.deep_view(), by_alias, i as int);
                }
                return Some(items[i].clone());
            }
            assert(!by_alias(items.deep_view()[i as int]));
            i = i + 1;
        }
        proof {
            lemma_first_index_is(items.deep_view(), by_alias, i as int);
        }
        let mut j: usize = 0;
        while j < items.len()
            invariant
                j <= items.len(),
                by_name == |it: ItemView| it.name == name@,
                by_alias == |it: ItemView| it.alias == Some(name@),
                first_index(items.deep_view(), by_alias) == items.deep_view().len(),
                forall|k: int| 0 <= k < j ==> !by_name(#[trigger] items.deep_view()[k]),
            decreases items.len() - j,
        {
            if str_eq(items[j].name.as_str(), name) {
                proof {
                    assert(by_name(items.deep_view()[j as int]));
                    lemma_first_index_is(items.deep_view(), by_name, j as int);
                }
                return Some(items[j].clone());
            }
            assert(!by_name(items.deep_view()[j as int]));
            j = j + 1;
        }
        proof {
            lemma_first_index_is(items.deep_view(), by_name, j as int);
        }
        None
    }
}

/// The display name of an item is its alias where it has one, and its own
/// name where it has none.
pub proof fn lemma_display_name(item: ItemView)
    ensures
        item.alias matches Some(a) ==> item.display_name() == a,
        item.alias is None ==> item.display_name() == item.name,
{
}

/// Resolution depends on nothing but the item and the list of source
/// tables: two results for the same item and the same list are the same.
pub proof fn lemma_resolution_deterministic(
    item: ItemView,
    tables: Seq<SourceTableView>,
    first: Result<PathView, Ambiguity>,
    second: Result<PathView, Ambiguity>,
)
    requires
        first == item.resolved_path(tables),
        second == item.resolved_path(tables),
    ensures
        first == second,
{
}

/// An item without qualifier in a model with exactly one source table
/// resolves to that table's origin path, and is never ambiguous.
pub proof fn lemma_single_source_resolves(item: ItemView, tables: Seq<SourceTableView>)
    requires
        item.path.len() == 0,
        tables.len() == 1,
    ensures
        item.resolved_path(tables) == Ok::<PathView, Ambiguity>(tables[0].origin),
{
}

/// Resolution is ambiguous exactly for an item without qualifier in a model
/// that has not exactly one source table.
pub proof fn lemma_ambiguous_iff(item: ItemView, tables: Seq<SourceTableView>)
    ensures
        item.resolved_path(tables) is Err <==> item.path.len() == 0 && tables.len() != 1,
{
}

} // verus!
