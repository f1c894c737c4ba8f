use embed_files::warning::{Warning, Warnings};

#[test]
fn warnings_keep_order_and_extend() {
    let mut a = Warnings::new();
    assert!(a.is_empty());
    a.push(Warning::FileNotFound {
        path: "x".to_string(),
    });
    let mut b = Warnings::default();
    b.push(Warning::FileNotFound {
        path: "y".to_string(),
    });
    b.push(Warning::FileNotFound {
        path: "z".to_string(),
    });
    a.extend(b);
    let paths: Vec<String> = a
        .into_vec()
        .into_iter()
        .map(|w| match w {
            Warning::FileNotFound { path } => path,
        })
        .collect();
    assert_eq!(paths, vec!["x", "y", "z"]);
}

#[test]
fn warning_message() {
    let w = Warning::FileNotFound {
        path: "src/*.rs".to_string(),
    };
    assert_eq!(w.message(), "File not found: src/*.rs");
}
