use sql_lineage::catalog::{DataField, Table, Tables};
use sql_lineage::datatype::DataType;
use sql_lineage::text::{path_clone, path_eq, str_eq};

fn segments(parts: &[&str]) -> Vec<String> {
    parts.iter().map(|s| s.to_string()).collect()
}

fn field(name: &str, datatype: DataType) -> DataField {
    DataField { name: name.to_string(), datatype }
}

fn table(namespace: &[&str], name: &str, fields: Vec<DataField>) -> Table {
    Table {
        name: name.to_string(),
        namespace: segments(namespace),
        description: String::new(),
        datafields: fields,
    }
}

fn sample() -> Tables {
    Tables(vec![
        table(
            &["public"],
            "users",
            vec![field("id", DataType::String), field("created", DataType::DateTime)],
        ),
        table(&["public"], "orders", vec![field("id", DataType::Object)]),
        table(&[], "events", vec![field("tags", DataType::Array)]),
    ])
}

#[test]
fn path_matches_namespace_and_name() {
    let t = table(&["a", "b"], "c", vec![]);
    assert!(t.path_matches(&segments(&["a", "b", "c"])));
    assert!(!t.path_matches(&segments(&["a", "b"])));
    assert!(!t.path_matches(&segments(&["b", "c"])));
    assert!(!t.path_matches(&segments(&["a", "b", "d"])));
    assert!(!t.path_matches(&segments(&["a", "x", "c"])));
    assert!(!t.path_matches(&segments(&["a", "b", "c", "d"])));
    assert!(!t.path_matches(&segments(&[])));
}

#[test]
fn path_matches_without_namespace() {
    let t = table(&[], "events", vec![]);
    assert!(t.path_matches(&segments(&["events"])));
    assert!(!t.path_matches(&segments(&["public", "events"])));
}

#[test]
fn lookup_by_identity_and_declared_column() {
    let catalog = sample();
    assert_eq!(catalog.data_type(&segments(&["public", "users"]), "id"), Some(DataType::String));
    assert_eq!(
        catalog.data_type(&segments(&["public", "users"]), "created"),
        Some(DataType::DateTime)
    );
    assert_eq!(catalog.data_type(&segments(&["public", "orders"]), "id"), Some(DataType::Object));
    assert_eq!(catalog.data_type(&segments(&["events"]), "tags"), Some(DataType::Array));
}

#[test]
fn lookup_by_another_identity_finds_nothing() {
    let catalog = sample();
    assert_eq!(catalog.data_type(&segments(&["users"]), "id"), None);
    assert_eq!(catalog.data_type(&segments(&["private", "users"]), "id"), None);
    assert_eq!(catalog.data_type(&segments(&["public", "users", "id"]), "id"), None);
    assert_eq!(catalog.data_type(&segments(&[]), "id"), None);
}

#[test]
fn lookup_by_another_column_finds_nothing() {
    let catalog = sample();
    assert_eq!(catalog.data_type(&segments(&["public", "users"]), "tags"), None);
    assert_eq!(catalog.data_type(&segments(&["public", "users"]), "ID"), None);
    assert_eq!(catalog.data_type(&segments(&["public", "users"]), ""), None);
}

#[test]
fn first_table_of_a_repeated_identity_decides() {
    let catalog = Tables(vec![
        table(&["s"], "t", vec![field("a", DataType::String)]),
        table(&["s"], "t", vec![field("a", DataType::Array), field("b", DataType::Object)]),
    ]);
    assert_eq!(catalog.data_type(&segments(&["s", "t"]), "a"), Some(DataType::String));
    assert_eq!(catalog.data_type(&segments(&["s", "t"]), "b"), None);
}

#[test]
fn first_column_of_a_repeated_name_decides() {
    let t = table(&[], "t", vec![field("a", DataType::Object), field("a", DataType::Array)]);
    assert_eq!(t.column_type("a"), Some(DataType::Object));
    assert_eq!(t.column_type("b"), None);
}

#[test]
fn empty_catalog_finds_nothing() {
    let catalog = Tables(vec![]);
    assert_eq!(catalog.data_type(&segments(&["public", "users"]), "id"), None);
}

#[test]
fn strings_compare_by_content() {
    assert!(str_eq("", ""));
    assert!(str_eq("users", "users"));
    assert!(!str_eq("users", "user"));
    assert!(!str_eq("users", "usert"));
    assert!(str_eq("né", "né"));
    assert!(!str_eq("né", "ne"));
}

#[test]
fn paths_compare_by_segments() {
    assert!(path_eq(&segments(&[]), &segments(&[])));
    assert!(path_eq(&segments(&["a", "b"]), &segments(&["a", "b"])));
    assert!(!path_eq(&segments(&["a", "b"]), &segments(&["a"])));
    assert!(!path_eq(&segments(&["a", "b"]), &segments(&["b", "a"])));
    assert!(!path_eq(&segments(&["ab"]), &segments(&["a", "b"])));
    assert_eq!(path_clone(&segments(&["x", "y"])), segments(&["x", "y"]));
}
