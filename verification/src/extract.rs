//! From one parsed statement to the source tables it reads and the columns
//! it projects.

use vstd::prelude::*;
use crate::item::{option_clone, Item, ItemView, SourceTable, SourceTableView};
use crate::seqs::{lemma_present_from, lemma_present_push, present};
use crate::statement::{
    Expression, ExpressionView, Projection, ProjectionView, Relation, RelationView, StatementShape,
    StatementShapeView, FromEntry, FromEntryView,
};
use crate::text::{path_clone, PathView};

verus! {

/// The item that an identifier of the given segments projects: the last
/// segment is the column's name and the segments before it are its
/// qualifier. No segments, no item.
pub open spec fn column_item(segments: PathView, alias: Option<Seq<char>>) -> Option<ItemView> {
    if segments.len() == 0 {
        None
    } else {
        Some(
            ItemView {
                name: segments.last(),
                path: segments.drop_last(),
                alias: alias,
                data_type: None,
            },
        )
    }
}

/// The item that one entry of a `SELECT` list contributes, if any.
///
/// An unaliased identifier contributes an item without alias. An aliased
/// identifier, bare or under `IS NOT NULL`, contributes an item with that
/// alias. Every other entry contributes nothing.
pub open spec fn item_of(p: ProjectionView) -> Option<ItemView> {
    match p {
        ProjectionView::Unnamed(ExpressionView::Column(s)) => column_item(s, None),
        ProjectionView::Aliased { expr: ExpressionView::Column(s), alias } => column_item(
            s,
            Some(alias),
        ),
        ProjectionView::Aliased { expr: ExpressionView::ColumnIsNotNull(s), alias } => column_item(
            s,
            Some(alias),
        ),
        _ => None,
    }
}

/// The items that a `SELECT` list contributes, in its order.
pub open spec fn items_of(projection: Seq<ProjectionView>) -> Seq<ItemView> {
    present(projection.map_values(|p: ProjectionView| item_of(p)))
}

/// The source table that one relation contributes: a simple table reference
/// with at least one name segment contributes itself, anything else nothing.
pub open spec fn table_of(r: RelationView) -> Option<SourceTableView> {
    match r {
        RelationView::Table { name, alias } => if name.len() > 0 {
            Some(SourceTableView { origin: name, alias: alias })
        } else {
            None
        },
        RelationView::Other => None,
    }
}

/// The source tables that a run of relations contributes, in its order.
pub open spec fn relation_tables(relations: Seq<RelationView>) -> Seq<SourceTableView> {
    present(relations.map_values(|r: RelationView| table_of(r)))
}

/// The source tables of one `FROM` entry: its relation first, then its joins
/// from left to right.
pub open spec fn entry_tables(e: FromEntryView) -> Seq<SourceTableView> {
    relation_tables(seq![e.relation] + e.joins)
}

/// The source tables of a `FROM` clause, entry after entry.
pub open spec fn tables_of(from: Seq<FromEntryView>) -> Seq<SourceTableView>
    decreases from.len(),
{
    if from.len() == 0 {
        Seq::empty()
    } else {
        tables_of(from.drop_last()) + entry_tables(from.last())
    }
}

/// The items that a statement projects: those of its `SELECT` list, and none
/// if it is no such query.
pub open spec fn statement_items(s: StatementShapeView) -> Seq<ItemView> {
    match s {
        StatementShapeView::Select { projection, from } => items_of(projection),
        StatementShapeView::Other => Seq::empty(),
    }
}

/// The source tables that a statement reads: those of its `FROM` clause, and
/// none if it is no such query.
pub open spec fn statement_tables(s: StatementShapeView) -> Seq<SourceTableView> {
    match s {
        StatementShapeView::Select { projection, from } => tables_of(from),
        StatementShapeView::Other => Seq::empty(),
    }
}

/// The items of a list that ends in `p` are those of what comes before,
/// followed by the item of `p` if it has one.
pub proof fn lemma_items_of_push(s: Seq<ProjectionView>, p: ProjectionView)
    ensures
        items_of(s.push(p)) == match item_of(p) {
            Some(it) => items_of(s).push(it),
            None => items_of(s),
        },
{
    let f = |p: ProjectionView| item_of(p);
    assert(s.push(p).map_values(f) =~= s.map_values(f).push(item_of(p)));
    lemma_present_push(s.map_values(f), item_of(p));
}

/// The tables of a run of relations that ends in `r` are those of what comes
/// before, followed by the table of `r` if it has one.
pub proof fn lemma_relation_tables_push(s: Seq<RelationView>, r: RelationView)
    ensures
        relation_tables(s.push(r)) == match table_of(r) {
            Some(t) => relation_tables(s).push(t),
            None => relation_tables(s),
        },
{
    let f = |r: RelationView| table_of(r);
    assert(s.push(r).map_values(f) =~= s.map_values(f).push(table_of(r)));
    lemma_present_push(s.map_values(f), table_of(r));
}

/// Every source table that a run of relations contributes has a name.
pub proof fn lemma_relation_tables_named(relations: Seq<RelationView>, k: int)
    requires
        0 <= k < relation_tables(relations).len(),
    ensures
        relation_tables(relations)[k].origin.len() > 0,
{
    let f = |r: RelationView| table_of(r);
    lemma_present_from(relations.map_values(f), k);
}

/// Every source table that a `FROM` clause contributes has a name.
pub proof fn lemma_tables_of_named(from: Seq<FromEntryView>, k: int)
    requires
        0 <= k < tables_of(from).len(),
    ensures
        tables_of(from)[k].origin.len() > 0,
    decreases from.len(),
{
    let before = tables_of(from.drop_last());
    if k < before.len() {
        lemma_tables_of_named(from.drop_last(), k);
    } else {
        lemma_relation_tables_named(seq![from.last().relation] + from.last().joins, k - before.len());
    }
}

/// Appends to `items` the item of an identifier with the given segments.
fn push_column(segments: &Vec<String>, alias: &Option<String>, items: &mut Vec<Item>)
    ensures
        final(items).deep_view() == match column_item(
            segments.deep_view(),
            crate::item::option_text(*alias),
        ) {
            Some(it) => old(items).deep_view().push(it),
            None => old(items).deep_view(),
        },
{
    let n = segments.len();
    if n == 0 {
        return ;
    }
    let mut path = path_clone(segments);
    let name = path.pop().unwrap();
    let item = Item { name: name, path: path, alias: option_clone(alias), data_type: None };
    proof {
        assert(item@.path =~= segments.deep_view().drop_last());
        assert(item@.name == segments.deep_view().last());
    }
    let ghost before = items.deep_view();
    items.push(item);
    assert(items.deep_view() =~= before.push(item@));
}

/// Appends to `items` the item that one entry of a `SELECT` list contributes.
fn push_projection(p: &Projection, items: &mut Vec<Item>)
    ensures
        final(items).deep_view() == match item_of(p@) {
            Some(it) => old(items).deep_view().push(it),
            None => old(items).deep_view(),
        },
{
    match p {
        Projection::Unnamed(Expression::Column(s)) => {
            push_column(s, &None, items);
        },
        Projection::Aliased { expr: Expression::Column(s), alias } => {
            push_column(s, &Some(alias.clone()), items);
        },
        Projection::Aliased { expr: Expression::ColumnIsNotNull(s), alias } => {
            push_column(s, &Some(alias.clone()), items);
        },
        _ => {},
    }
}

/// Appends to `tables` the source table that one relation contributes.
fn push_relation(r: &Relation, tables: &mut Vec<SourceTable>)
    ensures
        final(tables).deep_view() == match table_of(r@) {
            Some(t) => old(tables).deep_view().push(t),
            None => old(tables).deep_view(),
        },
{
    match r {
        Relation::Table { name, alias } => {
            if name.len() > 0 {
                let table = SourceTable { origin: path_clone(name), alias: option_clone(alias) };
                let ghost before = tables.deep_view();
                tables.push(table);
                assert(tables.deep_view() =~= before.push(table@));
            }
        },
        Relation::Other => {},
    }
}

/// Appends to `tables` the source tables of one `FROM` entry.
fn push_entry(e: &FromEntry, tables: &mut Vec<SourceTable>)
    ensures
        final(tables).deep_view() == old(tables).deep_view() + entry_tables(e@),
{
    let ghost start = tables.deep_view();
    let ghost all = seq![e@.relation] + e@.joins;
    proof {
        assert(all.take(1) =~= Seq::<RelationView>::empty().push(e@.relation));
        lemma_relation_tables_push(Seq::empty(), e@.relation);
        assert(relation_tables(Seq::empty()) =~= Seq::<SourceTableView>::empty());
    }
    push_relation(&e.relation, tables);
    assert(tables.deep_view() =~= start + relation_tables(all.take(1)));
    let mut j: usize = 0;
    while j < e.joins.len()
        invariant
            j <= e.joins.len(),
            all == seq![e@.relation] + e@.joins,
            tables.deep_view() == start + relation_tables(all.take(j as int + 1)),
        decreases e.joins.len() - j,
    {
        proof {
            assert(all.take(j as int + 2) =~= all.take(j as int + 1).push(e.joins@[j as int]@));
            lemma_relation_tables_push(all.take(j as int + 1), e.joins@[j as int]@);
        }
        let ghost before = tables.deep_view();
        push_relation(&e.joins[j], tables);
        assert(tables.deep_view() =~= start + relation_tables(all.take(j as int + 2)));
        j = j + 1;
    }
    assert(all.take(j as int + 1) =~= all);
}

/// Appends to `items` the columns that `statement` projects, and to
/// `source_tables` the tables that it reads, each in the order in which the
/// statement names them. A statement that is no `SELECT` query adds nothing.
pub fn extract_items_and_tables(
    statement: &StatementShape,
    source_tables: &mut Vec<SourceTable>,
    items: &mut Vec<Item>,
)
    ensures
        final(items).deep_view() == old(items).deep_view() + statement_items(statement@),
        final(source_tables).deep_view() == old(source_tables).deep_view() + statement_tables(
            statement@,
        ),
{
    let ghost items0 = items.deep_view();
    let ghost tables0 = source_tables.deep_view();
    match statement {
        StatementShape::Select { projection, from } => {
            let mut i: usize = 0;
            assert(items_of(projection.deep_view().take(0)) =~= Seq::<ItemView>::empty());
            assert(items.deep_view() =~= items0 + items_of(projection.deep_view().take(0)));
            while i < projection.len()
                invariant
                    i <= projection.len(),
                    items.deep_view() == items0 + items_of(projection.deep_view().take(i as int)),
                decreases projection.len() - i,
            {
                proof {
                    assert(projection.deep_view().take(i as int + 1) =~= projection.deep_view().take(
                        i as int,
                    ).push(projection@[i as int]@));
                    lemma_items_of_push(projection.deep_view().take(i as int), projection@[i as int]@);
                }
                push_projection(&projection[i], items);
                assert(items.deep_view() =~= items0 + items_of(
                    projection.deep_view().take(i as int + 1),
                ));
                i = i + 1;
            }
            assert(projection.deep_view().take(i as int) =~= projection.deep_view());
            let mut k: usize = 0;
            assert(source_tables.deep_view() =~= tables0 + tables_of(from.deep_view().take(0)));
            while k < from.len()
                invariant
                    k <= from.len(),
                    source_tables.deep_view() == tables0 + tables_of(
                        from.deep_view().take(k as int),
                    ),
                decreases from.len() - k,
            {
                proof {
                    assert(from.deep_view().take(k as int + 1).drop_last() =~= from.deep_view().take(
                        k as int,
                    ));
                }
                push_entry(&from[k], source_tables);
                assert(source_tables.deep_view() =~= tables0 + tables_of(
                    from.deep_view().take(k as int + 1),
                ));
                k = k + 1;
            }
            assert(from.deep_view().take(k as int) =~= from.deep_view());
        },
        StatementShape::Other => {
            assert(items.deep_view() =~= items0 + statement_items(statement@));
            assert(source_tables.deep_view() =~= tables0 + statement_tables(statement@));
        },
    }
}

} // verus!
