use embed_files::language_mapping::{get_language_for_extension, LanguageTable};

#[test]
fn test_embedded_mappings() {
    assert!(LanguageTable::embedded().contains_key("rs"));
}

#[test]
fn test_get_language() {
    assert_eq!(get_language_for_extension("rs").unwrap(), "rust");

    assert_eq!(get_language_for_extension("unknown"), None);
}

#[test]
fn embedded_table_corrections() {
    assert_eq!(get_language_for_extension("tsx").unwrap(), "typescript");
    assert_eq!(get_language_for_extension("md").unwrap(), "markdown");
    assert_eq!(get_language_for_extension("txt").unwrap(), "plaintext");
    assert_eq!(get_language_for_extension("yml").unwrap(), "yaml");
    assert_eq!(get_language_for_extension("json").unwrap(), "json");
    assert_eq!(get_language_for_extension("php").unwrap(), "php");
}

#[test]
fn extension_lookup_is_case_sensitive() {
    assert_eq!(get_language_for_extension("RS"), None);
    assert_eq!(get_language_for_extension(".rs"), None);
}

#[test]
fn table_read_from_ron() {
    let table = LanguageTable::from_ron("{\"a\": \"alpha\", \"b.c\": \"beta\"}");
    assert_eq!(table.get("a"), Some("alpha".to_string()));
    assert_eq!(table.get("b.c"), Some("beta".to_string()));
    assert_eq!(table.get("c"), None);
}

#[test]
fn unreadable_ron_gives_empty_table() {
    let table = LanguageTable::from_ron("not a map");
    assert!(!table.contains_key("rs"));
}

#[test]
fn first_entry_of_a_key_counts() {
    let table = LanguageTable::from_entries(vec![
        ("x".to_string(), "first".to_string()),
        ("x".to_string(), "second".to_string()),
    ]);
    assert_eq!(table.get("x"), Some("first".to_string()));
}
