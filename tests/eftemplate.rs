use embed_files::eftemplate::{EfTemplate, DEFAULT_TEMPLATE};
use embed_files::language_mapping::LanguageTable;

const CWD: &str = "/tmp/project";

fn cwd() -> Option<String> {
    Some(CWD.to_string())
}

#[test]
fn test_default_template() {
    let template = EfTemplate::default();
    let file_path = format!("{}/test.rs", CWD);
    let content = "fn main() {\n    println!(\"Hello\");\n}";

    let result = template.format(&file_path, &Some(file_path.clone()), &cwd(), content);

    assert!(result.contains("test.rs"));
    assert!(result.contains(content));
    assert_eq!(
        result,
        "test.rs\n```rust\nfn main() {\n    println!(\"Hello\");\n}\n```\n"
    );
}

#[test]
fn test_custom_template() {
    let template_content = "File: {filePath}\n---\n{content}\n---\n";
    let template = EfTemplate::from_config(Some(template_content.to_string()));
    let content = "fn main() {\n    println!(\"Hello\");\n}";

    let result = template.format("src/main.rs", &None, &cwd(), content);

    assert!(result.contains("File: src/main.rs"));
    assert!(result.contains(content));
}

#[test]
fn test_path_resolution() {
    let template = EfTemplate::default();

    // inside the working directory: shown relative to it
    let abs_path = format!("{}/src/main.rs", CWD);
    let result = template.format(&abs_path, &Some(abs_path.clone()), &cwd(), "content");
    assert!(
        result.starts_with("src/main.rs\n"),
        "Expected src/main.rs, got: {}",
        result
    );

    // relative: as given
    let result = template.format("src/lib.rs", &None, &cwd(), "content");
    assert!(
        result.contains("src/lib.rs"),
        "Expected src/lib.rs, got: {}",
        result
    );

    // outside the working directory: the canonical path
    let outside = "/tmp/outside/file.rs";
    let result = template.format(outside, &Some(outside.to_string()), &cwd(), "content");
    assert!(
        result.starts_with("/tmp/outside/file.rs\n"),
        "Expected {}, got: {}",
        outside,
        result
    );
}

#[test]
fn test_template_inheritance() {
    let root = "/tmp/root";
    let candidates = EfTemplate::config_candidates(&format!("{}/subdir", root));
    assert_eq!(candidates[0], "/tmp/root/subdir/.eftemplate");
    assert_eq!(candidates[1], "/tmp/root/.eftemplate");
    let mut present = vec![false; candidates.len()];
    present[0] = true;
    present[1] = true;
    let found = EfTemplate::find_template(&candidates, &present).unwrap();
    assert_eq!(found, "/tmp/root/subdir/.eftemplate");

    // the content of the file found
    let template = EfTemplate::from_config(Some("SUB: {filePath} ({language})\n{content}".to_string()));
    let result = template.format("subdir/test.rs", &None, &Some(root.to_string()), "content");

    assert!(result.contains("SUB: "));
    assert!(!result.contains("ROOT: "));
    assert!(result.contains("subdir/test.rs"));
    assert_eq!(result, "SUB: subdir/test.rs (rust)\ncontent");
}

#[test]
fn ancestor_configuration_applies_when_nearer_is_absent() {
    let candidates = EfTemplate::config_candidates("/a/b/c");
    assert_eq!(
        candidates,
        vec!["/a/b/c/.eftemplate", "/a/b/.eftemplate", "/a/.eftemplate", "/.eftemplate"]
    );
    let present = vec![false, false, true, true];
    assert_eq!(
        EfTemplate::find_template(&candidates, &present),
        Some("/a/.eftemplate".to_string())
    );
    let none = vec![false; 4];
    assert_eq!(EfTemplate::find_template(&candidates, &none), None);
    assert_eq!(EfTemplate::from_config(None).template(), DEFAULT_TEMPLATE);
}

#[test]
fn outside_file_keeps_canonical_path() {
    let shown = EfTemplate::display_path(
        "/elsewhere/../elsewhere/file.rs",
        &Some("/elsewhere/file.rs".to_string()),
        &Some("/home/user/project".to_string()),
    );
    assert_eq!(shown, "/elsewhere/file.rs");
    assert!(!shown.contains(".."));
}

#[test]
fn unknown_canonical_form_keeps_path() {
    let shown = EfTemplate::display_path("/x//y.rs", &None, &Some(CWD.to_string()));
    assert_eq!(shown, "/x/y.rs");
    let shown = EfTemplate::display_path("./a//b.rs", &None, &None);
    assert_eq!(shown, "./a/b.rs");
}

#[test]
fn file_in_working_directory_itself() {
    let shown = EfTemplate::display_path(
        "/tmp/project/notes.md",
        &Some("/tmp/project/notes.md".to_string()),
        &Some("/tmp/project".to_string()),
    );
    assert_eq!(shown, "notes.md");
}

#[test]
fn every_placeholder_occurrence_is_replaced() {
    let t = EfTemplate::from_config(Some(
        "{filePath}|{filePath}|{language}|{content}|{content}|{other}".to_string(),
    ));
    let result = t.format("a/b.py", &None, &None, "x");
    assert_eq!(result, "a/b.py|a/b.py|python|x|x|{other}");
}

#[test]
fn inserted_text_is_not_searched_again() {
    let t = EfTemplate::from_config(Some("[{content}] {filePath}".to_string()));
    let result = t.format("f.txt", &None, &None, "{filePath}");
    assert_eq!(result, "[{filePath}] f.txt");
}

#[test]
fn unmapped_extension_is_plaintext() {
    let t = EfTemplate::default();
    assert_eq!(t.language_of("a/b.unknownext"), "plaintext");
    assert_eq!(t.language_of("Makefile"), "plaintext");
    assert_eq!(t.language_of("notes.txt"), "plaintext");
    assert_eq!(t.language_of("x.md"), "markdown");
    let custom = EfTemplate::new(
        "{language}".to_string(),
        LanguageTable::from_entries(vec![("zz".to_string(), "zed".to_string())]),
    );
    assert_eq!(custom.format("f.zz", &None, &None, ""), "zed");
    assert_eq!(custom.format("f.rs", &None, &None, ""), "plaintext");
}
