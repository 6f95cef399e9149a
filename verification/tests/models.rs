use sql_lineage::catalog::{DataField, Table, Tables};
use sql_lineage::datatype::DataType;
use sql_lineage::item::{Item, SourceTable};
use sql_lineage::lineage::{add_node, edge_label, entry_line, put_edge, Lineage, Link};
use sql_lineage::model::{discover_type, SqlModel};
use sql_lineage::models::{SqlFile, SqlModels};
use sql_lineage::parse::ParseError;

fn names(parts: &[&str]) -> Vec<String> {
    parts.iter().map(|s| s.to_string()).collect()
}

fn col(qualifier: &[&str], name: &str, alias: Option<&str>, data_type: Option<DataType>) -> Item {
    Item {
        name: name.to_string(),
        path: names(qualifier),
        alias: alias.map(|a| a.to_string()),
        data_type,
    }
}

fn src(origin: &[&str], alias: Option<&str>) -> SourceTable {
    SourceTable { origin: names(origin), alias: alias.map(|a| a.to_string()) }
}

fn model(name: &str, tables: Vec<SourceTable>, items: Vec<Item>) -> SqlModel {
    SqlModel { name: name.to_string(), tables, items }
}

fn declared(namespace: &[&str], name: &str, fields: &[(&str, DataType)]) -> Table {
    Table {
        name: name.to_string(),
        namespace: names(namespace),
        description: "declared".to_string(),
        datafields: fields
            .iter()
            .map(|(n, t)| DataField { name: n.to_string(), datatype: *t })
            .collect(),
    }
}

fn link(from: &str, to: &str, label: &str) -> Link {
    Link { from: from.to_string(), to: to.to_string(), label: label.to_string() }
}

fn users_catalog() -> Tables {
    Tables(vec![declared(
        &["public"],
        "users",
        &[("id", DataType::String), ("created", DataType::DateTime)],
    )])
}

#[test]
fn catalog_types_an_item_by_its_own_name() {
    let mut m = model(
        "active_users",
        vec![src(&["public", "users"], Some("u"))],
        vec![col(&["u"], "id", Some("user_id"), None), col(&["u"], "created", None, None)],
    );
    m.assign_datatypes(&users_catalog(), &vec![]);
    assert_eq!(
        m.items,
        vec![
            col(&["u"], "id", Some("user_id"), Some(DataType::String)),
            col(&["u"], "created", None, Some(DataType::DateTime)),
        ]
    );
    assert_eq!(m.name, "active_users");
    assert_eq!(m.tables, vec![src(&["public", "users"], Some("u"))]);
}

#[test]
fn alias_is_not_used_for_the_catalog_lookup() {
    let mut m = model(
        "m",
        vec![src(&["public", "users"], Some("u"))],
        vec![col(&["u"], "missing", Some("id"), None)],
    );
    m.assign_datatypes(&users_catalog(), &vec![]);
    assert_eq!(m.items, vec![col(&["u"], "missing", Some("id"), None)]);
}

#[test]
fn item_without_match_stays_untyped() {
    let mut m = model(
        "m",
        vec![src(&["t1"], Some("a")), src(&["t2"], Some("b"))],
        vec![col(&["a"], "x", None, None), col(&["b"], "y", None, None)],
    );
    let before = m.clone();
    m.assign_datatypes(&users_catalog(), &vec![before.clone()]);
    assert_eq!(m, before);
}

#[test]
fn ambiguous_item_is_skipped_and_the_rest_is_typed() {
    let mut m = model(
        "m",
        vec![src(&["public", "users"], Some("u")), src(&["t2"], Some("b"))],
        vec![col(&[], "id", None, None), col(&["u"], "id", None, None)],
    );
    m.assign_datatypes(&users_catalog(), &vec![]);
    assert_eq!(
        m.items,
        vec![col(&[], "id", None, None), col(&["u"], "id", None, Some(DataType::String))]
    );
}

#[test]
fn unmatched_alias_leaves_the_item_untyped() {
    let mut m = model(
        "m",
        vec![src(&["public", "users"], Some("u"))],
        vec![col(&["z"], "id", None, None)],
    );
    m.assign_datatypes(&users_catalog(), &vec![]);
    assert_eq!(m.items, vec![col(&["z"], "id", None, None)]);
}

#[test]
fn sibling_gives_the_type_one_hop_away() {
    let active = model(
        "active_users",
        vec![src(&["public", "users"], Some("u"))],
        vec![col(&["u"], "id", Some("user_id"), None)],
    );
    let mut reports =
        model("reports", vec![src(&["active_users"], None)], vec![col(&[], "id", None, None)]);
    let others = vec![active, reports.clone()];
    reports.assign_datatypes(&users_catalog(), &others);
    assert_eq!(reports.items, vec![col(&[], "id", None, Some(DataType::String))]);
}

#[test]
fn sibling_item_is_found_by_alias_first() {
    let sibling = model(
        "base",
        vec![src(&["public", "users"], Some("u"))],
        vec![col(&["u"], "id", None, None), col(&["u"], "created", Some("id"), None)],
    );
    let mut m = model("top", vec![src(&["base"], None)], vec![col(&[], "id", None, None)]);
    m.assign_datatypes(&users_catalog(), &vec![sibling]);
    assert_eq!(m.items, vec![col(&[], "id", None, Some(DataType::DateTime))]);
}

#[test]
fn two_hops_stay_unknown() {
    let base = model(
        "base",
        vec![src(&["public", "users"], Some("u"))],
        vec![col(&["u"], "id", None, None)],
    );
    let middle = model("middle", vec![src(&["base"], None)], vec![col(&[], "id", None, None)]);
    let top = model("top", vec![src(&["middle"], None)], vec![col(&[], "id", None, None)]);
    let typed = SqlModels::from_models(vec![base, middle, top], &users_catalog());
    assert_eq!(typed.0[0].items, vec![col(&["u"], "id", None, Some(DataType::String))]);
    assert_eq!(typed.0[1].items, vec![col(&[], "id", None, Some(DataType::String))]);
    assert_eq!(typed.0[2].items, vec![col(&[], "id", None, None)]);
}

#[test]
fn siblings_are_seen_as_they_were_handed_in() {
    let first =
        model("first", vec![src(&["second"], None)], vec![col(&[], "id", None, None)]);
    let second = model(
        "second",
        vec![src(&["public", "users"], Some("u"))],
        vec![col(&["u"], "id", None, None)],
    );
    let typed = SqlModels::from_models(vec![first, second], &users_catalog());
    assert_eq!(typed.0[0].items, vec![col(&[], "id", None, Some(DataType::String))]);
    assert_eq!(typed.0[1].items, vec![col(&["u"], "id", None, Some(DataType::String))]);
}

#[test]
fn last_sibling_of_a_name_with_an_answer_wins() {
    let catalog = Tables(vec![
        declared(&[], "a", &[("id", DataType::Object)]),
        declared(&[], "b", &[("id", DataType::Array)]),
    ]);
    let one = model("base", vec![src(&["a"], None)], vec![col(&[], "id", None, None)]);
    let two = model("base", vec![src(&["b"], None)], vec![col(&[], "id", None, None)]);
    let silent = model("base", vec![src(&["c"], None)], vec![col(&[], "id", None, None)]);
    let item = col(&[], "id", None, None);
    let sources = vec![src(&["base"], None)];
    assert_eq!(
        discover_type(&item, &sources, &catalog, &vec![one.clone(), two.clone(), silent.clone()]),
        Some(DataType::Array)
    );
    assert_eq!(
        discover_type(&item, &sources, &catalog, &vec![two, one, silent]),
        Some(DataType::Object)
    );
}

#[test]
fn assignment_keeps_a_type_where_nothing_answers() {
    let mut m = model(
        "m",
        vec![src(&["t1"], Some("a"))],
        vec![col(&["a"], "x", None, Some(DataType::Object)), col(&[], "y", None, None)],
    );
    m.assign_datatypes(&users_catalog(), &vec![]);
    assert_eq!(
        m.items,
        vec![col(&["a"], "x", None, Some(DataType::Object)), col(&[], "y", None, None)]
    );
}

#[test]
fn entry_line_joins_name_and_type() {
    assert_eq!(entry_line(&col(&["u"], "id", Some("user_id"), Some(DataType::String))), "user_id - String");
    assert_eq!(entry_line(&col(&[], "id", None, None)), "id - Unknown");
    assert_eq!(entry_line(&col(&[], "at", None, Some(DataType::DateTime))), "at - DateTime");
    assert_eq!(entry_line(&col(&[], "o", None, Some(DataType::Object))), "o - Object");
    assert_eq!(entry_line(&col(&[], "l", None, Some(DataType::Array))), "l - Array");
    assert_eq!(entry_line(&col(&[], "u", None, Some(DataType::Unknown))), "u - Unknown");
}

#[test]
fn edge_label_lists_the_items_of_the_source_line_by_line() {
    let items = vec![
        col(&["a"], "x", None, Some(DataType::String)),
        col(&["b"], "y", None, None),
        col(&["a"], "z", Some("zed"), None),
    ];
    assert_eq!(edge_label(&items, &src(&["t1"], Some("a"))), "x - String\nzed - Unknown");
    assert_eq!(edge_label(&items, &src(&["t2"], Some("b"))), "y - Unknown");
    assert_eq!(edge_label(&items, &src(&["t3"], Some("c"))), "");
}

#[test]
fn add_node_keeps_the_first_occurrence() {
    let mut nodes = vec![];
    add_node(&mut nodes, "a");
    add_node(&mut nodes, "b");
    add_node(&mut nodes, "a");
    add_node(&mut nodes, "c");
    add_node(&mut nodes, "b");
    assert_eq!(nodes, names(&["a", "b", "c"]));
}

#[test]
fn put_edge_replaces_the_label_of_the_same_ends() {
    let mut edges = vec![];
    put_edge(&mut edges, link("a", "m", "one"));
    put_edge(&mut edges, link("b", "m", "two"));
    put_edge(&mut edges, link("a", "n", "three"));
    put_edge(&mut edges, link("a", "m", "four"));
    assert_eq!(edges, vec![link("a", "m", "four"), link("b", "m", "two"), link("a", "n", "three")]);
}

#[test]
fn lineage_has_each_name_once_and_each_pair_once() {
    let models = SqlModels(vec![
        model(
            "m1",
            vec![src(&["s", "t1"], Some("a")), src(&["t2"], Some("b"))],
            vec![col(&["a"], "x", None, None), col(&["b"], "y", None, Some(DataType::Array))],
        ),
        model("m2", vec![src(&["other", "t1"], Some("a")), src(&["m1"], None)], vec![]),
        model(
            "m1",
            vec![src(&["t1"], Some("c"))],
            vec![col(&["c"], "late", None, None)],
        ),
    ]);
    assert!(models.is_well_formed());
    let lineage = models.lineage();
    assert_eq!(
        lineage,
        Lineage {
            nodes: names(&["t1", "m1", "t2", "m2"]),
            edges: vec![
                link("t1", "m1", "late - Unknown"),
                link("t2", "m1", "y - Array"),
                link("t1", "m2", ""),
                link("m1", "m2", ""),
            ],
        }
    );
}

#[test]
fn lineage_of_a_self_join_keeps_the_last_label() {
    let models = SqlModels(vec![model(
        "m",
        vec![src(&["t"], Some("a")), src(&["t"], Some("b"))],
        vec![col(&["a"], "x", None, None), col(&["b"], "y", None, None)],
    )]);
    assert_eq!(
        models.lineage(),
        Lineage { nodes: names(&["t", "m"]), edges: vec![link("t", "m", "y - Unknown")] }
    );
}

#[test]
fn lineage_keeps_a_loop_on_a_model_that_reads_itself() {
    let models = SqlModels(vec![model("m", vec![src(&["m"], None)], vec![])]);
    assert_eq!(
        models.lineage(),
        Lineage { nodes: names(&["m"]), edges: vec![link("m", "m", "")] }
    );
}

#[test]
fn lineage_of_no_model_is_empty() {
    let models = SqlModels(vec![]);
    assert!(models.is_well_formed());
    assert_eq!(models.lineage(), Lineage { nodes: vec![], edges: vec![] });
}

#[test]
fn source_without_name_is_not_well_formed() {
    let models = SqlModels(vec![
        model("ok", vec![src(&["t"], None)], vec![]),
        model("bad", vec![src(&["t"], None), src(&[], Some("a"))], vec![]),
    ]);
    assert!(!models.is_well_formed());
}

#[test]
fn load_reads_every_file_and_types_across_them() {
    let files = vec![
        SqlFile {
            name: "reports".to_string(),
            sql: "SELECT id FROM active_users".to_string(),
        },
        SqlFile {
            name: "active_users".to_string(),
            sql: "SELECT u.id AS user_id FROM public.users u".to_string(),
        },
    ];
    let models = SqlModels::load_from_dir(&files, &users_catalog()).unwrap();
    assert_eq!(
        models,
        SqlModels(vec![
            model(
                "reports",
                vec![src(&["active_users"], None)],
                vec![col(&[], "id", None, Some(DataType::String))],
            ),
            model(
                "active_users",
                vec![src(&["public", "users"], Some("u"))],
                vec![col(&["u"], "id", Some("user_id"), Some(DataType::String))],
            ),
        ])
    );
    assert!(models.is_well_formed());
}

#[test]
fn load_stops_at_the_first_file_that_is_no_sql() {
    let files = vec![
        SqlFile { name: "good".to_string(), sql: "SELECT a FROM t".to_string() },
        SqlFile { name: "bad".to_string(), sql: "SELECT 'open".to_string() },
        SqlFile { name: "worse".to_string(), sql: "SELECT a FROM t)".to_string() },
    ];
    assert!(matches!(
        SqlModels::load_from_dir(&files, &users_catalog()),
        Err(ParseError::Tokenizer(_))
    ));
}

#[test]
fn load_of_no_file_has_no_model() {
    assert_eq!(SqlModels::load_from_dir(&vec![], &users_catalog()), Ok(SqlModels(vec![])));
}
