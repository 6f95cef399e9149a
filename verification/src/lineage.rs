//! The lineage of a set of models: which table or model flows into which
//! model, and with which columns.

use vstd::prelude::*;
use vstd::string::StringExecFns;
use crate::datatype::{data_type_text, DataType};
use crate::item::{Item, ItemView, SourceTable, SourceTableView};
use crate::model::{items_clone, SqlModelView};
use crate::seqs::{distinct, first_index, lemma_distinct, lemma_first_index, lemma_first_index_is};
use crate::text::str_eq;

verus! {

/// One flow: the display name of a source, the name of the model that reads
/// it, and the columns that the model draws from it, one per line.
#[derive(Debug, PartialEq, Eq)]
pub struct Link {
    pub from: String,
    pub to: String,
    pub label: String,
}

/// The contents of a [`Link`].
pub struct LinkView {
    pub from: Seq<char>,
    pub to: Seq<char>,
    pub label: Seq<char>,
}

impl View for Link {
    type V = LinkView;

    open spec fn view(&self) -> LinkView {
        LinkView { from: self.from@, to: self.to@, label: self.label@ }
    }
}

impl DeepView for Link {
    type V = LinkView;

    open spec fn deep_view(&self) -> LinkView {
        self@
    }
}

/// The lineage of a set of models: the names of the tables and models in the
/// order in which they were first met, and one link per pair of them that
/// occurs, in the order in which the pairs were first met.
#[derive(Debug, PartialEq, Eq)]
pub struct Lineage {
    pub nodes: Vec<String>,
    pub edges: Vec<Link>,
}

/// The contents of a [`Lineage`].
pub struct LineageView {
    pub nodes: Seq<Seq<char>>,
    pub edges: Seq<LinkView>,
}

impl View for Lineage {
    type V = LineageView;

    open spec fn view(&self) -> LineageView {
        LineageView { nodes: self.nodes.deep_view(), edges: self.edges.deep_view() }
    }
}

/// The type that an item shows: the one it was given, or `Unknown`.
pub open spec fn shown_type(item: ItemView) -> DataType {
    match item.data_type {
        Some(t) => t,
        None => DataType::Unknown,
    }
}

/// The line that stands for an item on an edge label: its display name, a
/// hyphen between two spaces, and its type.
pub open spec fn entry_text(item: ItemView) -> Seq<char> {
    item.display_name() + " - "@ + data_type_text(shown_type(item))
}

/// The lines joined by line breaks, with none after the last.
pub open spec fn join_lines(lines: Seq<Seq<char>>) -> Seq<char>
    decreases lines.len(),
{
    if lines.len() == 0 {
        Seq::empty()
    } else if lines.len() == 1 {
        lines[0]
    } else {
        join_lines(lines.drop_last()) + "\n"@ + lines.last()
    }
}

/// The label of the edge from `source` to a model with the given items: one
/// line for each item that comes from the source, in item order.
pub open spec fn label_of(items: Seq<ItemView>, source: SourceTableView) -> Seq<char> {
    join_lines(
        items.filter(|it: ItemView| it.comes_from(source)).map_values(
            |it: ItemView| entry_text(it),
        ),
    )
}

/// The link from one source table of a model to the model.
pub open spec fn link_of(model: SqlModelView, source: SourceTableView) -> LinkView {
    LinkView {
        from: source.display_name(),
        to: model.name,
        label: label_of(model.items, source),
    }
}

/// The links of one model: one per source table, in their order.
pub open spec fn model_links(model: SqlModelView) -> Seq<LinkView> {
    model.tables.map_values(|s: SourceTableView| link_of(model, s))
}

/// The links of a set of models, model after model.
pub open spec fn all_links(models: Seq<SqlModelView>) -> Seq<LinkView>
    decreases models.len(),
{
    if models.len() == 0 {
        Seq::empty()
    } else {
        all_links(models.drop_last()) + model_links(models.last())
    }
}

/// The names that a run of links mentions, in the order in which the links
/// mention them: of each link its source, then its target.
pub open spec fn node_names(links: Seq<LinkView>) -> Seq<Seq<char>>
    decreases links.len(),
{
    if links.len() == 0 {
        Seq::empty()
    } else {
        node_names(links.drop_last()).push(links.last().from).push(links.last().to)
    }
}

/// Whether two links join the same source to the same target.
pub open spec fn same_ends(a: LinkView, b: LinkView) -> bool {
    a.from == b.from && a.to == b.to
}

/// The source and the target of a link.
pub open spec fn ends(l: LinkView) -> (Seq<char>, Seq<char>) {
    (l.from, l.to)
}

/// A run of links put on top of `edges`: a link whose ends an edge already
/// has replaces that edge, and any other link is appended.
pub open spec fn put(edges: Seq<LinkView>, link: LinkView) -> Seq<LinkView> {
    let i = first_index(edges, |l: LinkView| same_ends(l, link));
    if i < edges.len() {
        edges.update(i, link)
    } else {
        edges.push(link)
    }
}

/// The edges that a run of links leaves: one per pair of ends, at the place
/// where the pair was first met, with the label of the last link of that
/// pair.
pub open spec fn merged(links: Seq<LinkView>) -> Seq<LinkView>
    decreases links.len(),
{
    if links.len() == 0 {
        Seq::empty()
    } else {
        put(merged(links.drop_last()), links.last())
    }
}

/// The lineage of a set of models.
pub open spec fn lineage_of(models: Seq<SqlModelView>) -> LineageView {
    LineageView {
        nodes: distinct(node_names(all_links(models))),
        edges: merged(all_links(models)),
    }
}

/// The line that stands for an item on an edge label.
pub fn entry_line(item: &Item) -> (r: String)
    ensures
        r@ == entry_text(item@),
{
    let mut line = String::from_str(item.name());
    line.append(" - ");
    let shown = match item.data_type {
        Some(t) => t,
        None => DataType::Unknown,
    };
    line.append(shown.label());
    line
}

/// The label of the edge from `source` to a model with the given items.
pub fn edge_label(items: &Vec<Item>, source: &SourceTable) -> (r: String)
    ensures
        r@ == label_of(items.deep_view(), source@),
{
    let mut kept = items_clone(items);
    Item::filter_by_source(&mut kept, source.clone());
    let ghost lines = kept.deep_view().map_values(|it: ItemView| entry_text(it));
    let mut label = String::new();
    let mut i: usize = 0;
    assert(join_lines(lines.take(0)) =~= Seq::<char>::empty());
    while i < kept.len()
        invariant
            i <= kept.len(),
            lines == kept.deep_view().map_values(|it: ItemView| entry_text(it)),
            label@ == join_lines(lines.take(i as int)),
        decreases kept.len() - i,
    {
        proof {
            assert(lines.take(i as int + 1).drop_last() =~= lines.take(i as int));
            assert(lines.take(i as int + 1).last() == entry_text(kept@[i as int]@));
        }
        let line = entry_line(&kept[i]);
        if i > 0 {
            label.append("\n");
        } else {
            assert(label@ + line@ =~= line@);
        }
        label.append(line.as_str());
        assert(label@ =~= join_lines(lines.take(i as int + 1)));
        i = i + 1;
    }
    assert(lines.take(i as int) =~= lines);
    label
}

/// Appends `name` to `nodes` unless it is there.
pub fn add_node(nodes: &mut Vec<String>, name: &str)
    ensures
        final(nodes).deep_view() == if old(nodes).deep_view().contains(name@) {
            old(nodes).deep_view()
        } else {
            old(nodes).deep_view().push(name@)
        },
{
    let mut i: usize = 0;
    while i < nodes.len()
        invariant
            i <= nodes.len(),
            *nodes == *old(nodes),
            forall|k: int| 0 <= k < i ==> nodes.deep_view()[k] != name@,
        decreases nodes.len() - i,
    {
        if str_eq(nodes[i].as_str(), name) {
            assert(nodes.deep_view()[i as int] == name@);
            return ;
        }
        i = i + 1;
    }
    let ghost before = nodes.deep_view();
    nodes.push(String::from_str(name));
    assert(nodes.deep_view() =~= before.push(name@));
}

/// Puts `link` on top of `edges`: it replaces the edge with the same ends,
/// or is appended if there is none.
pub fn put_edge(edges: &mut Vec<Link>, link: Link)
    ensures
        final(edges).deep_view() == put(old(edges).deep_view(), link@),
{
    let ghost same = |l: LinkView| same_ends(l, link@);
    let ghost before = edges.deep_view();
    let mut i: usize = 0;
    while i < edges.len()
        invariant
            i <= edges.len(),
            *edges == *old(edges),
            before == edges.deep_view(),
            same == |l: LinkView| same_ends(l, link@),
            forall|k: int| 0 <= k < i ==> !same(#[trigger] edges.deep_view()[k]),
        decreases edges.len() - i,
    {
        if str_eq(edges[i].from.as_str(), link.from.as_str()) && str_eq(
            edges[i].to.as_str(),
            link.to.as_str(),
        ) {
            proof {
                assert(same(edges.deep_view()[i as int]));
                lemma_first_index_is(before, same, i as int);
            }
            edges.set(i, link);
            assert(edges.deep_view() =~= before.update(i as int, link@));
            return ;
        }
        assert(!same(edges.deep_view()[i as int]));
        i = i + 1;
    }
    proof {
        lemma_first_index_is(before, same, i as int);
    }
    edges.push(link);
    assert(edges.deep_view() =~= before.push(link@));
}

/// The ends of the edges that a run of links leaves are the ends of the
/// links without repetition, each at the place where it was first met.
pub proof fn lemma_merged_ends(links: Seq<LinkView>)
    ensures
        merged(links).map_values(|l: LinkView| ends(l)) == distinct(
            links.map_values(|l: LinkView| ends(l)),
        ),
    decreases links.len(),
{
    let f = |l: LinkView| ends(l);
    if links.len() == 0 {
        assert(merged(links).map_values(f) =~= distinct(links.map_values(f)));
    } else {
        let t = links.drop_last();
        let x = links.last();
        let e = merged(t);
        let d = distinct(t.map_values(f));
        lemma_merged_ends(t);
        assert(links.map_values(f).drop_last() =~= t.map_values(f));
        assert(links.map_values(f).last() == ends(x));
        let same = |l: LinkView| same_ends(l, x);
        lemma_first_index(e, same);
        let i = first_index(e, same);
        if i < e.len() {
            assert(d[i] == e.map_values(f)[i]);
            assert(d[i] == ends(x));
            assert(d.contains(ends(x)));
            assert(e.update(i, x).map_values(f) =~= d);
        } else {
            if d.contains(ends(x)) {
                let k = choose|k: int| 0 <= k < d.len() && d[k] == ends(x);
                assert(d[k] == e.map_values(f)[k]);
                assert(same(e[k]));
            }
            assert(e.push(x).map_values(f) =~= d.push(ends(x)));
        }
    }
}

/// A lineage repeats nothing: it has one node for each name that a link
/// mentions and one edge for each pair of ends that a link joins, so no two
/// nodes share a name, no two edges share both ends, and there are at most
/// as many edges as links.
pub proof fn lemma_lineage_deduplicated(models: Seq<SqlModelView>)
    ensures
        lineage_of(models).nodes.no_duplicates(),
        lineage_of(models).nodes.to_set() == node_names(all_links(models)).to_set(),
        lineage_of(models).nodes.len() == node_names(all_links(models)).to_set().len(),
        lineage_of(models).edges.len() == all_links(models).map_values(
            |l: LinkView| ends(l),
        ).to_set().len(),
        lineage_of(models).edges.len() <= all_links(models).len(),
        forall|i: int, j: int|
            0 <= i < lineage_of(models).edges.len() && 0 <= j < lineage_of(models).edges.len() && i
                != j ==> !same_ends(
                #[trigger] lineage_of(models).edges[i],
                #[trigger] lineage_of(models).edges[j],
            ),
{
    let links = all_links(models);
    let f = |l: LinkView| ends(l);
    let e = merged(links);
    lemma_distinct(node_names(links));
    lemma_merged_ends(links);
    lemma_distinct(links.map_values(f));
    assert(e.len() == e.map_values(f).len());
    assert forall|i: int, j: int| 0 <= i < e.len() && 0 <= j < e.len() && i != j implies !same_ends(
        #[trigger] e[i],
        #[trigger] e[j],
    ) by {
        assert(e.map_values(f)[i] == ends(e[i]));
        assert(e.map_values(f)[j] == ends(e[j]));
    }
}

/// Every edge of a lineage carries the label of the last link between its
/// ends: a later link of the same ends, if there is one, has replaced what
/// an earlier one wrote.
pub proof fn lemma_last_link_labels(links: Seq<LinkView>, k: int)
    requires
        0 <= k < merged(links).len(),
    ensures
        exists|j: int|
            0 <= j < links.len() && #[trigger] links[j] == merged(links)[k] && forall|n: int|
                j < n < links.len() ==> !same_ends(#[trigger] links[n], merged(links)[k]),
    decreases links.len(),
{
    let t = links.drop_last();
    let x = links.last();
    let e = merged(t);
    let same = |l: LinkView| same_ends(l, x);
    lemma_first_index(e, same);
    let i = first_index(e, same);
    if k == i {
        let j = links.len() - 1;
        assert(links[j] == merged(links)[k]);
    } else {
        lemma_last_link_labels(t, k);
        let j = choose|j: int|
            0 <= j < t.len() && #[trigger] t[j] == e[k] && forall|n: int|
                j < n < t.len() ==> !same_ends(#[trigger] t[n], e[k]);
        assert(links[j] == merged(links)[k]);
        assert forall|n: int| j < n < links.len() implies !same_ends(
            #[trigger] links[n],
            merged(links)[k],
        ) by {
            if n < t.len() {
                assert(t[n] == links[n]);
            } else {
                if same_ends(x, e[k]) {
                    assert(same(e[k]));
                    lemma_merged_ends(t);
                    lemma_distinct(t.map_values(|l: LinkView| ends(l)));
                    assert(e.map_values(|l: LinkView| ends(l))[k] == ends(e[k]));
                    assert(e.map_values(|l: LinkView| ends(l))[i] == ends(e[i]));
                }
            }
        }
    }
}

} // verus!
