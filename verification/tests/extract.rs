use sql_lineage::extract::extract_items_and_tables;
use sql_lineage::item::{Item, SourceTable};
use sql_lineage::model::SqlModel;
use sql_lineage::statement::{Expression, FromEntry, Projection, Relation, StatementShape};

fn words(parts: &[&str]) -> Vec<String> {
    parts.iter().map(|s| s.to_string()).collect()
}

fn column(parts: &[&str]) -> Expression {
    Expression::Column(words(parts))
}

fn aliased(expr: Expression, alias: &str) -> Projection {
    Projection::Aliased { expr, alias: alias.to_string() }
}

fn table_ref(name: &[&str], alias: Option<&str>) -> Relation {
    Relation::Table { name: words(name), alias: alias.map(|a| a.to_string()) }
}

fn projected(qualifier: &[&str], name: &str, alias: Option<&str>) -> Item {
    Item {
        name: name.to_string(),
        path: words(qualifier),
        alias: alias.map(|a| a.to_string()),
        data_type: None,
    }
}

fn read(origin: &[&str], alias: Option<&str>) -> SourceTable {
    SourceTable { origin: words(origin), alias: alias.map(|a| a.to_string()) }
}

fn extract(statement: &StatementShape) -> (Vec<SourceTable>, Vec<Item>) {
    let mut tables = vec![];
    let mut items = vec![];
    extract_items_and_tables(statement, &mut tables, &mut items);
    (tables, items)
}

#[test]
fn other_statement_adds_nothing() {
    let mut tables = vec![read(&["kept"], None)];
    let mut items = vec![projected(&[], "kept", None)];
    extract_items_and_tables(&StatementShape::Other, &mut tables, &mut items);
    assert_eq!(tables, vec![read(&["kept"], None)]);
    assert_eq!(items, vec![projected(&[], "kept", None)]);
}

#[test]
fn unaliased_identifiers_become_items() {
    let statement = StatementShape::Select {
        projection: vec![
            Projection::Unnamed(column(&["id"])),
            Projection::Unnamed(column(&["u", "name"])),
            Projection::Unnamed(column(&["db", "u", "age"])),
        ],
        from: vec![],
    };
    let (tables, items) = extract(&statement);
    assert_eq!(tables, vec![]);
    assert_eq!(
        items,
        vec![
            projected(&[], "id", None),
            projected(&["u"], "name", None),
            projected(&["db", "u"], "age", None),
        ]
    );
}

#[test]
fn aliased_identifiers_become_items_with_alias() {
    let statement = StatementShape::Select {
        projection: vec![
            aliased(column(&["u", "id"]), "user_id"),
            aliased(column(&["id"]), "plain"),
            aliased(Expression::ColumnIsNotNull(words(&["u", "email"])), "has_email"),
            aliased(Expression::ColumnIsNotNull(words(&["phone"])), "has_phone"),
        ],
        from: vec![],
    };
    let (_, items) = extract(&statement);
    assert_eq!(
        items,
        vec![
            projected(&["u"], "id", Some("user_id")),
            projected(&[], "id", Some("plain")),
            projected(&["u"], "email", Some("has_email")),
            projected(&[], "phone", Some("has_phone")),
        ]
    );
}

#[test]
fn other_projections_are_skipped() {
    let statement = StatementShape::Select {
        projection: vec![
            Projection::Other,
            Projection::Unnamed(Expression::Other),
            Projection::Unnamed(Expression::ColumnIsNotNull(words(&["u", "email"]))),
            aliased(Expression::Other, "n"),
            Projection::Unnamed(column(&[])),
            aliased(column(&[]), "nothing"),
            Projection::Unnamed(column(&["kept"])),
        ],
        from: vec![],
    };
    let (_, items) = extract(&statement);
    assert_eq!(items, vec![projected(&[], "kept", None)]);
}

#[test]
fn tables_come_in_syntactic_order() {
    let statement = StatementShape::Select {
        projection: vec![],
        from: vec![
            FromEntry {
                relation: table_ref(&["s", "t1"], Some("a")),
                joins: vec![table_ref(&["t2"], Some("b")), Relation::Other, table_ref(&["t3"], None)],
            },
            FromEntry { relation: Relation::Other, joins: vec![table_ref(&["t4"], None)] },
            FromEntry { relation: table_ref(&["t5"], Some("e")), joins: vec![] },
        ],
    };
    let (tables, items) = extract(&statement);
    assert_eq!(items, vec![]);
    assert_eq!(
        tables,
        vec![
            read(&["s", "t1"], Some("a")),
            read(&["t2"], Some("b")),
            read(&["t3"], None),
            read(&["t4"], None),
            read(&["t5"], Some("e")),
        ]
    );
}

#[test]
fn table_without_name_is_skipped() {
    let statement = StatementShape::Select {
        projection: vec![],
        from: vec![FromEntry {
            relation: table_ref(&[], Some("a")),
            joins: vec![table_ref(&["t"], None)],
        }],
    };
    let (tables, _) = extract(&statement);
    assert_eq!(tables, vec![read(&["t"], None)]);
}

#[test]
fn extraction_appends_to_what_is_there() {
    let statement = StatementShape::Select {
        projection: vec![Projection::Unnamed(column(&["x"]))],
        from: vec![FromEntry { relation: table_ref(&["t"], None), joins: vec![] }],
    };
    let mut tables = vec![read(&["first"], None)];
    let mut items = vec![projected(&[], "first", None)];
    extract_items_and_tables(&statement, &mut tables, &mut items);
    assert_eq!(tables, vec![read(&["first"], None), read(&["t"], None)]);
    assert_eq!(items, vec![projected(&[], "first", None), projected(&[], "x", None)]);
}

#[test]
fn model_from_statements_reads_the_first_select() {
    let first = StatementShape::Select {
        projection: vec![Projection::Unnamed(column(&["a", "x"]))],
        from: vec![FromEntry { relation: table_ref(&["t1"], Some("a")), joins: vec![] }],
    };
    let second = StatementShape::Select {
        projection: vec![aliased(column(&["b", "y"]), "z")],
        from: vec![FromEntry { relation: table_ref(&["t2"], Some("b")), joins: vec![] }],
    };
    let model = SqlModel::from_statements("m", &vec![StatementShape::Other, first, second]);
    assert_eq!(
        model,
        SqlModel {
            name: "m".to_string(),
            tables: vec![read(&["t1"], Some("a"))],
            items: vec![projected(&["a"], "x", None)],
        }
    );
}

#[test]
fn model_from_other_statements_is_empty() {
    let model = SqlModel::from_statements("m", &vec![StatementShape::Other, StatementShape::Other]);
    assert_eq!(model, SqlModel { name: "m".to_string(), tables: vec![], items: vec![] });
}

#[test]
fn model_from_no_statement_is_empty() {
    let model = SqlModel::from_statements("empty", &vec![]);
    assert_eq!(model, SqlModel { name: "empty".to_string(), tables: vec![], items: vec![] });
}
