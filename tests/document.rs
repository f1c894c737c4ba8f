use embed_files::document::{render_document, ExpandedFile};
use embed_files::eftemplate::EfTemplate;
use embed_files::path_resolver::{Candidate, GlobEntry, PathResolver};
use embed_files::template::{Directive, Template, TemplateLine};
use embed_files::warning::{Warning, Warnings};

const ROOT: &str = "/tmp/env";
const MAIN: &str = "fn main() {\n    println!(\"Hello, world!\");\n}";
const LIB: &str = "pub fn add(a: i32, b: i32) -> i32 {\n    a + b\n}";

fn read(path: &str) -> Option<String> {
    match path {
        "/tmp/env/src/main.rs" => Some(MAIN.to_string()),
        "/tmp/env/src/lib.rs" => Some(LIB.to_string()),
        _ => None,
    }
}

fn expand(template: &Template, resolver: &mut PathResolver) -> Vec<Vec<ExpandedFile>> {
    let mut all = Vec::new();
    for line in template.lines() {
        let mut files = Vec::new();
        if let TemplateLine::Directive(Directive::Glob(p)) = line {
            assert!(resolver.glob(p).is_ok());
            let entries: Vec<GlobEntry> = ["/tmp/env/src/lib.rs", "/tmp/env/src/main.rs"]
                .iter()
                .filter(|f| p == "src/*.rs" || f.ends_with(p.as_str()))
                .map(|f| {
                    GlobEntry::Found(Candidate {
                        path: f.to_string(),
                        head: read(f).map(|c| c.into_bytes()),
                    })
                })
                .collect();
            for path in resolver.resolve_glob(p, entries) {
                files.push(ExpandedFile {
                    canonical: Some(path.clone()),
                    content: read(&path),
                    path,
                });
            }
        }
        all.push(files);
    }
    all
}

#[test]
fn intro_and_two_rust_files_with_default_format() {
    let template = Template::parse("Intro\n#ef src/*.rs\n").unwrap();
    let mut resolver = PathResolver::new(ROOT.to_string());
    let expansions = expand(&template, &mut resolver);
    let mut warnings = Warnings::new();
    let out = render_document(
        &template,
        &EfTemplate::default(),
        &Some(ROOT.to_string()),
        &expansions,
        &mut warnings,
    );
    warnings.extend(resolver.take_warnings());
    assert!(out.starts_with("Intro\n"));
    assert!(out.contains("src/main.rs\n```rust\n"));
    assert!(out.contains("src/lib.rs\n```rust\n"));
    assert!(out.contains(MAIN));
    assert!(out.contains(LIB));
    assert!(warnings.is_empty());
    assert_eq!(
        out,
        format!(
            "Intro\nsrc/lib.rs\n```rust\n{}\n```\n\nsrc/main.rs\n```rust\n{}\n```\n\n",
            LIB, MAIN
        )
    );
}

#[test]
fn integration_test_basic_template_processing() {
    let template = Template::parse("Here is the main file:\n#ef src/main.rs\n").unwrap();
    let mut resolver = PathResolver::new(ROOT.to_string());
    let expansions = expand(&template, &mut resolver);
    let format = EfTemplate::from_config(Some("File: {filePath}\n{content}".to_string()));
    let mut warnings = Warnings::new();
    let output = render_document(
        &template,
        &format,
        &Some(ROOT.to_string()),
        &expansions,
        &mut warnings,
    );
    assert!(output.contains("Here is the main file:"));
    assert!(output.contains("File: src/main.rs"));
    assert!(output.contains(MAIN));
}

#[test]
fn integration_test_glob_pattern_expansion() {
    let template = Template::parse("All source files:\n#ef src/*.rs\n").unwrap();
    let mut resolver = PathResolver::new(ROOT.to_string());
    let expansions = expand(&template, &mut resolver);
    let format = EfTemplate::from_config(Some(
        "=== {filePath} ===\n{content}\n===========".to_string(),
    ));
    let mut warnings = Warnings::new();
    let output = render_document(
        &template,
        &format,
        &Some(ROOT.to_string()),
        &expansions,
        &mut warnings,
    );
    assert!(output.contains("All source files:"));
    assert!(output.contains("=== src/main.rs ==="));
    assert!(output.contains("=== src/lib.rs ==="));
    assert!(output.contains(MAIN));
    assert!(output.contains(LIB));
}

#[test]
fn literal_template_renders_to_itself() {
    let content = "first line\n\n  indented # not a directive\nlast\n";
    let template = Template::parse(content).unwrap();
    let expansions: Vec<Vec<ExpandedFile>> = template.lines().iter().map(|_| Vec::new()).collect();
    let mut warnings = Warnings::new();
    let out = render_document(
        &template,
        &EfTemplate::default(),
        &None,
        &expansions,
        &mut warnings,
    );
    assert_eq!(out, content);
    assert!(warnings.is_empty());
}

#[test]
fn unreadable_file_is_skipped_with_warning() {
    let template = Template::parse("#ef x\nend").unwrap();
    let expansions = vec![
        vec![
            ExpandedFile {
                path: "/tmp/env/gone.rs".to_string(),
                canonical: None,
                content: None,
            },
            ExpandedFile {
                path: "/tmp/env/a.rs".to_string(),
                canonical: Some("/tmp/env/a.rs".to_string()),
                content: Some("A".to_string()),
            },
        ],
        Vec::new(),
    ];
    let mut warnings = Warnings::new();
    let out = render_document(
        &template,
        &EfTemplate::from_config(Some("<{filePath}:{content}>".to_string())),
        &Some(ROOT.to_string()),
        &expansions,
        &mut warnings,
    );
    assert_eq!(out, "<a.rs:A>\nend\n");
    assert_eq!(
        warnings.as_slice(),
        &[Warning::FileNotFound {
            path: "/tmp/env/gone.rs".to_string()
        }]
    );
}

fn walked() -> Vec<Candidate> {
    ["/tmp/env/.eftemplate", "/tmp/env/src/lib.rs", "/tmp/env/src/main.rs", "/tmp/env/template.txt"]
        .iter()
        .map(|f| Candidate {
            path: f.to_string(),
            head: Some(read(f).unwrap_or_else(|| "text".to_string()).into_bytes()),
        })
        .collect()
}

#[test]
fn test_regex_pattern_expansion() {
    let template = Template::parse("All rust files:\n#efr .*\\.rs$\n").unwrap();
    let mut resolver = PathResolver::new(ROOT.to_string());
    let mut expansions = Vec::new();
    for line in template.lines() {
        let mut files = Vec::new();
        if let TemplateLine::Directive(Directive::Regex(p)) = line {
            let regex = embed_files::path_resolver::PathRegex::new(p).unwrap();
            for path in resolver.resolve_regex(&regex, walked()) {
                files.push(ExpandedFile {
                    canonical: Some(path.clone()),
                    content: read(&path),
                    path,
                });
            }
        }
        expansions.push(files);
    }
    let mut warnings = Warnings::new();
    let output = render_document(
        &template,
        &EfTemplate::default(),
        &Some(ROOT.to_string()),
        &expansions,
        &mut warnings,
    );
    assert!(output.contains("All rust files:"));
    assert!(output.contains("src/main.rs"));
    assert!(output.contains("src/lib.rs"));
    assert!(!output.contains("template.txt"));
    assert!(resolver.take_warnings().is_empty());
}

#[test]
fn test_no_eftemplate_uses_default() {
    let template = Template::parse("Main source:\n#ef src/main.rs\n").unwrap();
    let mut resolver = PathResolver::new(ROOT.to_string());
    let expansions = expand(&template, &mut resolver);
    let candidates = EfTemplate::config_candidates(ROOT);
    let present = vec![false; candidates.len()];
    let format = EfTemplate::from_config(match EfTemplate::find_template(&candidates, &present) {
        Some(_) => panic!("no configuration is present"),
        None => None,
    });
    let mut warnings = Warnings::new();
    let output = render_document(
        &template,
        &format,
        &Some(ROOT.to_string()),
        &expansions,
        &mut warnings,
    );
    assert!(output.contains("Main source:"));
    assert!(output.contains("src/main.rs"));
    assert!(output.contains("```rust"));
}

#[test]
fn test_eftemplate_inheritance() {
    let candidates = EfTemplate::config_candidates("/tmp/env/subdir");
    let present: Vec<bool> = candidates
        .iter()
        .map(|c| c == "/tmp/env/subdir/.eftemplate" || c == "/tmp/env/.eftemplate")
        .collect();
    let chosen = EfTemplate::find_template(&candidates, &present).unwrap();
    let text = if chosen == "/tmp/env/subdir/.eftemplate" {
        "SUB: {filePath}\n{content}"
    } else {
        "ROOT: {filePath}\n{content}"
    };
    let template = Template::parse("File content:\n#ef src/main.rs\n").unwrap();
    let mut resolver = PathResolver::new(ROOT.to_string());
    let expansions = expand(&template, &mut resolver);
    let mut warnings = Warnings::new();
    let output = render_document(
        &template,
        &EfTemplate::from_config(Some(text.to_string())),
        &Some(ROOT.to_string()),
        &expansions,
        &mut warnings,
    );
    assert!(output.contains("SUB: "));
    assert!(!output.contains("ROOT: "));
}

#[test]
fn test_debug_flag() {
    let template = Template::parse("Invalid pattern:\n#ef [invalid/*.rs\n").unwrap();
    let resolver = PathResolver::new(ROOT.to_string());
    let mut failed = false;
    for line in template.lines() {
        if let TemplateLine::Directive(Directive::Glob(p)) = line {
            failed = resolver.glob(p).is_err();
        }
    }
    assert!(failed);
}
