//! A set of models that refer to each other: type assignment across the set
//! and the lineage of the whole.

use vstd::prelude::*;
use crate::catalog::{TableView, Tables};
use crate::lineage::{
    add_node, all_links, edge_label, lineage_of, link_of, merged, model_links, node_names, put,
    put_edge, Lineage, Link, LinkView,
};
use crate::model::{parsed_model, sources_named, typed_model, SqlModel, SqlModelView};
use crate::parse::ParseError;
use crate::seqs::{distinct, lemma_distinct_push};

verus! {

/// A collection of models that refer to each other.
#[derive(Debug, PartialEq, Eq)]
pub struct SqlModels(pub Vec<SqlModel>);

impl View for SqlModels {
    type V = Seq<SqlModelView>;

    open spec fn view(&self) -> Seq<SqlModelView> {
        self.0.deep_view()
    }
}

/// One SQL file of a directory: the stem of its name and its text.
#[derive(Debug, PartialEq, Eq)]
pub struct SqlFile {
    pub name: String,
    pub sql: String,
}

/// The contents of a [`SqlFile`].
pub struct SqlFileView {
    pub name: Seq<char>,
    pub sql: Seq<char>,
}

impl View for SqlFile {
    type V = SqlFileView;

    open spec fn view(&self) -> SqlFileView {
        SqlFileView { name: self.name@, sql: self.sql@ }
    }
}

impl DeepView for SqlFile {
    type V = SqlFileView;

    open spec fn deep_view(&self) -> SqlFileView {
        self@
    }
}

/// The models that the files define, one per file in their order, or the
/// error of the first file that the parser refuses.
pub open spec fn parsed_models(files: Seq<SqlFileView>) -> Result<Seq<SqlModelView>, ParseError>
    decreases files.len(),
{
    if files.len() == 0 {
        Ok(Seq::empty())
    } else {
        match parsed_models(files.drop_last()) {
            Err(e) => Err(e),
            Ok(models) => match parsed_model(files.last().name, files.last().sql) {
                Ok(m) => Ok(models.push(m)),
                Err(e) => Err(e),
            },
        }
    }
}

/// The models of a directory after type assignment, or the error of the
/// first file that the parser refuses.
pub open spec fn loaded_models(files: Seq<SqlFileView>, catalog: Seq<TableView>) -> Result<
    Seq<SqlModelView>,
    ParseError,
> {
    match parsed_models(files) {
        Ok(models) => Ok(typed_models(models, catalog)),
        Err(e) => Err(e),
    }
}

/// Once a file is refused, the files after it change nothing.
pub proof fn lemma_parsed_models_refused(files: Seq<SqlFileView>, n: int)
    requires
        0 <= n <= files.len(),
        parsed_models(files.take(n)) is Err,
    ensures
        parsed_models(files) == parsed_models(files.take(n)),
    decreases files.len() - n,
{
    if n < files.len() {
        assert(files.take(n + 1).drop_last() =~= files.take(n));
        lemma_parsed_models_refused(files, n + 1);
    } else {
        assert(files.take(n) =~= files);
    }
}

/// The models after type assignment: each one typed against the catalog and
/// against all of them as they were before any was typed.
pub open spec fn typed_models(models: Seq<SqlModelView>, catalog: Seq<TableView>) -> Seq<
    SqlModelView,
> {
    models.map_values(|m: SqlModelView| typed_model(m, catalog, models))
}

/// A copy of a list of models.
pub fn models_clone(models: &Vec<SqlModel>) -> (r: Vec<SqlModel>)
    ensures
        r.deep_view() == models.deep_view(),
{
    let mut out: Vec<SqlModel> = Vec::new();
    let mut i: usize = 0;
    while i < models.len()
        invariant
            i <= models.len(),
            out.len() == i,
            forall|k: int| 0 <= k < i ==> out@[k]@ == models@[k]@,
        decreases models.len() - i,
    {
        out.push(models[i].clone());
        i = i + 1;
    }
    assert(out.deep_view() =~= models.deep_view());
    out
}

/// The names of a run of links that ends in `x` are those of what comes
/// before, then the source of `x`, then its target.
pub proof fn lemma_node_names_push(links: Seq<LinkView>, x: LinkView)
    ensures
        node_names(links.push(x)) == node_names(links).push(x.from).push(x.to),
{
    assert(links.push(x).drop_last() =~= links);
}

/// The edges of a run of links that ends in `x` are those of what comes
/// before with `x` put on top.
pub proof fn lemma_merged_push(links: Seq<LinkView>, x: LinkView)
    ensures
        merged(links.push(x)) == put(merged(links), x),
{
    assert(links.push(x).drop_last() =~= links);
}

impl SqlModels {
    /// Whether every source table of every model has a name.
    pub open spec fn well_formed(&self) -> bool {
        forall|i: int| 0 <= i < self@.len() ==> sources_named(#[trigger] self@[i])
    }

    /// Whether every source table of every model has a name.
    pub fn is_well_formed(&self) -> (r: bool)
        ensures
            r == self.well_formed(),
    {
        let mut i: usize = 0;
        while i < self.0.len()
            invariant
                i <= self.0.len(),
                forall|k: int| 0 <= k < i ==> sources_named(#[trigger] self@[k]),
            decreases self.0.len() - i,
        {
            let model = &self.0[i];
            let mut j: usize = 0;
            while j < model.tables.len()
                invariant
                    j <= model.tables.len(),
                    i < self.0.len(),
                    model@ == self@[i as int],
                    forall|k: int| 0 <= k < j ==> (#[trigger] model@.tables[k]).origin.len() > 0,
                decreases model.tables.len() - j,
            {
                if model.tables[j].origin.len() == 0 {
                    assert(model@.tables[j as int].origin.len() == 0);
                    assert(!sources_named(self@[i as int]));
                    return false;
                }
                assert(model@.tables[j as int].origin.len() > 0);
                j = j + 1;
            }
            i = i + 1;
        }
        true
    }

    /// Types every model against the catalog and against the whole set as
    /// it is handed in, so that no model sees a sibling's assigned types.
    pub fn from_models(models: Vec<SqlModel>, tables: &Tables) -> (r: SqlModels)
        ensures
            r@ == typed_models(models.deep_view(), tables@),
    {
        let snapshot = models_clone(&models);
        let ghost before = models.deep_view();
        let ghost typed = |m: SqlModelView| typed_model(m, tables@, before);
        let mut models = models;
        let mut i: usize = 0;
        while i < models.len()
            invariant
                i <= models.len(),
                models.len() == before.len(),
                snapshot.deep_view() == before,
                typed == |m: SqlModelView| typed_model(m, tables@, before),
                forall|k: int| 0 <= k < i ==> models@[k]@ == typed(before[k]),
                forall|k: int| i <= k < models.len() ==> models@[k]@ == before[k],
            decreases models.len() - i,
        {
            let mut model = models[i].clone();
            model.assign_datatypes(tables, &snapshot);
            models.set(i, model);
            i = i + 1;
        }
        assert(models.deep_view() =~= before.map_values(typed));
        SqlModels(models)
    }

    /// The models of a directory: one per file, in the order of the files,
    /// each typed against the catalog and against all of them as they were
    /// read. The first file that is no SQL ends the load with the parser's
    /// error.
    pub fn load_from_dir(files: &Vec<SqlFile>, tables: &Tables) -> (r: Result<SqlModels, ParseError>)
        ensures
            match r {
                Ok(models) => loaded_models(files.deep_view(), tables@) == Ok::<
                    Seq<SqlModelView>,
                    ParseError,
                >(models@),
                Err(e) => loaded_models(files.deep_view(), tables@) == Err::<
                    Seq<SqlModelView>,
                    ParseError,
                >(e),
            },
            r matches Ok(models) ==> models.well_formed(),
    {
        let mut models: Vec<SqlModel> = Vec::new();
        let mut i: usize = 0;
        assert(models.deep_view() =~= Seq::<SqlModelView>::empty());
        while i < files.len()
            invariant
                i <= files.len(),
                parsed_models(files.deep_view().take(i as int)) == Ok::<
                    Seq<SqlModelView>,
                    ParseError,
                >(models.deep_view()),
                forall|k: int| 0 <= k < models.len() ==> sources_named(#[trigger] models.deep_view()[k]),
            decreases files.len() - i,
        {
            proof {
                assert(files.deep_view().take(i as int + 1).drop_last() =~= files.deep_view().take(
                    i as int,
                ));
                assert(files.deep_view().take(i as int + 1).last() == files@[i as int]@);
            }
            let ghost before = models.deep_view();
            match SqlModel::from_sql(files[i].name.as_str(), files[i].sql.as_str()) {
                Ok(m) => {
                    models.push(m);
                    assert(models.deep_view() =~= before.push(m@));
                },
                Err(e) => {
                    proof {
                        lemma_parsed_models_refused(files.deep_view(), i as int + 1);
                    }
                    return Err(e);
                },
            }
            i = i + 1;
        }
        assert(files.deep_view().take(i as int) =~= files.deep_view());
        let typed = SqlModels::from_models(models, tables);
        assert forall|k: int| 0 <= k < typed@.len() implies sources_named(#[trigger] typed@[k]) by {
            assert(sources_named(models.deep_view()[k]));
        }
        Ok(typed)
    }

    /// The lineage of the models: every table and model that a link
    /// mentions, once, and one edge per pair of them that is linked, with the
    /// label of the last link of the pair.
    pub fn lineage(&self) -> (r: Lineage)
        requires
            self.well_formed(),
        ensures
            r@ == lineage_of(self@),
    {
        let mut nodes: Vec<String> = Vec::new();
        let mut edges: Vec<Link> = Vec::new();
        let ghost mut links: Seq<LinkView> = Seq::empty();
        let mut m: usize = 0;
        assert(self@.take(0) =~= Seq::<SqlModelView>::empty());
        assert(nodes.deep_view() =~= distinct(node_names(links)));
        assert(edges.deep_view() =~= merged(links));
        while m < self.0.len()
            invariant
                m <= self.0.len(),
                self.well_formed(),
                links == all_links(self@.take(m as int)),
                nodes.deep_view() == distinct(node_names(links)),
                edges.deep_view() == merged(links),
            decreases self.0.len() - m,
        {
            let model = &self.0[m];
            let ghost start = links;
            let mut s: usize = 0;
            assert(model@ == self@[m as int]);
            assert(sources_named(self@[m as int]));
            assert(start + model_links(model@).take(0) =~= start);
            while s < model.tables.len()
                invariant
                    s <= model.tables.len(),
                    sources_named(model@),
                    links == start + model_links(model@).take(s as int),
                    nodes.deep_view() == distinct(node_names(links)),
                    edges.deep_view() == merged(links),
                decreases model.tables.len() - s,
            {
                let source = &model.tables[s];
                assert(source@ == model@.tables[s as int]);
                let ghost link = link_of(model@, source@);
                proof {
                    assert(start + model_links(model@).take(s as int + 1) =~= links.push(link));
                    lemma_node_names_push(links, link);
                    lemma_merged_push(links, link);
                    lemma_distinct_push(node_names(links), link.from);
                    lemma_distinct_push(node_names(links).push(link.from), link.to);
                }
                let label = edge_label(&model.items, source);
                let from = source.display_name();
                add_node(&mut nodes, from.as_str());
                add_node(&mut nodes, model.name.as_str());
                put_edge(
                    &mut edges,
                    Link { from: from.clone(), to: model.name.clone(), label: label },
                );
                proof {
                    links = links.push(link);
                }
                s = s + 1;
            }
            proof {
                assert(model_links(model@).take(s as int) =~= model_links(model@));
                assert(self@.take(m as int + 1).drop_last() =~= self@.take(m as int));
                assert(self@.take(m as int + 1).last() == model@);
            }
            m = m + 1;
        }
        assert(self@.take(m as int) =~= self@);
        Lineage { nodes: nodes, edges: edges }
    }
}

} // verus!
