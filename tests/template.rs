use embed_files::template::{Directive, Template, TemplateLine};

#[test]
fn test_parse_glob_directive() {
    let template = Template::parse("#ef src/*.rs").unwrap();
    assert_eq!(
        template.lines(),
        &[TemplateLine::Directive(Directive::Glob(
            "src/*.rs".to_string()
        ))]
    );
}

#[test]
fn test_parse_regex_directive() {
    let template = Template::parse("#efr ^src/.*\\.rs$").unwrap();
    assert_eq!(
        template.lines(),
        &[TemplateLine::Directive(Directive::Regex(
            "^src/.*\\.rs$".to_string()
        ))]
    );
}

#[test]
fn test_parse_mixed_content() {
    let content = "Here is the content:\n#ef src/*.rs\nMore text";
    let template = Template::parse(content).unwrap();
    assert_eq!(
        template.lines(),
        &[
            TemplateLine::Text("Here is the content:".to_string()),
            TemplateLine::Directive(Directive::Glob("src/*.rs".to_string())),
            TemplateLine::Text("More text".to_string()),
        ]
    );
}

#[test]
fn test_unknown_directive() {
    let template = Template::parse("#unknown argument").unwrap();
    assert_eq!(
        template.lines(),
        &[TemplateLine::Text("#unknown argument".to_string())]
    );
}

#[test]
fn test_empty_directive() {
    let template = Template::parse("#ef").unwrap();
    assert_eq!(template.lines(), &[TemplateLine::Text("#ef".to_string())]);
}

#[test]
fn test_hash_only_line() {
    let template = Template::parse("#").unwrap();
    assert_eq!(template.lines(), &[TemplateLine::Text("#".to_string())]);
}

#[test]
fn test_directive_with_multiple_arguments() {
    let template = Template::parse("#ef src/*.rs test/*.rs").unwrap();
    assert_eq!(
        template.lines(),
        &[TemplateLine::Directive(Directive::Glob(
            "src/*.rs test/*.rs".to_string()
        ))]
    );
}

#[test]
fn directive_arguments_rejoined_with_single_spaces() {
    let template = Template::parse("#efr   a\t b  ").unwrap();
    assert_eq!(
        template.lines(),
        &[TemplateLine::Directive(Directive::Regex("a b".to_string()))]
    );
}

#[test]
fn keyword_with_only_white_space_after_is_text() {
    let template = Template::parse("#efr   \t").unwrap();
    assert_eq!(template.lines(), &[TemplateLine::Text("#efr   \t".to_string())]);
}

#[test]
fn directive_not_at_line_start_is_text() {
    let template = Template::parse("This is invalid:\n  #ef src/main.rs\n").unwrap();
    assert_eq!(
        template.lines(),
        &[
            TemplateLine::Text("This is invalid:".to_string()),
            TemplateLine::Text("  #ef src/main.rs".to_string()),
        ]
    );
}

#[test]
fn keyword_must_follow_hash_without_space_change() {
    let template = Template::parse("# ef src/*.rs\n#efx a").unwrap();
    assert_eq!(
        template.lines(),
        &[
            TemplateLine::Directive(Directive::Glob("src/*.rs".to_string())),
            TemplateLine::Text("#efx a".to_string()),
        ]
    );
}

#[test]
fn lines_split_like_str_lines() {
    let template = Template::parse("a\r\nb\n\nc\r").unwrap();
    assert_eq!(
        template.lines(),
        &[
            TemplateLine::Text("a".to_string()),
            TemplateLine::Text("b".to_string()),
            TemplateLine::Text("".to_string()),
            TemplateLine::Text("c\r".to_string()),
        ]
    );
}

#[test]
fn empty_template_has_no_lines() {
    let template = Template::parse("").unwrap();
    assert!(template.lines().is_empty());
    let template = Template::parse("\n").unwrap();
    assert_eq!(template.lines(), &[TemplateLine::Text("".to_string())]);
}

#[test]
fn text_line_reparses_to_itself() {
    let template = Template::parse("intro\n#unknown x\n#ef\n#efr\n#").unwrap();
    for line in template.lines() {
        if let TemplateLine::Text(t) = line {
            let again = Template::parse(t).unwrap();
            assert_eq!(again.lines(), &[line.clone()]);
        }
    }
}

#[test]
fn unicode_white_space_separates_words() {
    let template = Template::parse("#ef\u{3000}a\u{00a0}b").unwrap();
    assert_eq!(
        template.lines(),
        &[TemplateLine::Directive(Directive::Glob("a b".to_string()))]
    );
}
