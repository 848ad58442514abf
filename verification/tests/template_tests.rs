use funcfmt::{Render, ToFormatPieces};
use exifrename::template::{
    compile, render, sanitize, CompiledTemplate, Extractor, FieldRegistry, Piece, RenderError,
    TemplateError,
};

/// A record of the tests: a list of keys with their values.
struct Record {
    entries: Vec<(String, String)>,
}

/// Looks the key up that it holds.
#[derive(Debug)]
struct ByKey(String);

impl Extractor<Record> for ByKey {
    fn extract(&self, meta: &Record) -> Option<String> {
        meta.entries.iter().find(|entry| entry.0 == self.0).map(|entry| entry.1.clone())
    }
}

fn registry(keys: &[&str]) -> FieldRegistry<ByKey> {
    let mut registry = FieldRegistry::new();
    for key in keys {
        registry = registry.with_field(key.to_string(), ByKey(key.to_string()));
    }
    registry
}

fn record(entries: &[(&str, &str)]) -> Record {
    Record { entries: entries.iter().map(|e| (e.0.to_string(), e.1.to_string())).collect() }
}

fn rendered(template: &str, keys: &[&str], entries: &[(&str, &str)]) -> Result<String, RenderError> {
    let registry = registry(keys);
    let compiled = compile(template, &registry).expect("the template compiles");
    render(&compiled, &record(entries))
}

fn refusal(template: &str, keys: &[&str]) -> TemplateError {
    let registry = registry(keys);
    match compile(template, &registry) {
        Ok(compiled) => panic!("compiled to {:?}", compiled),
        Err(error) => error,
    }
}

fn literals_and_fields<'a>(compiled: &CompiledTemplate<'a, ByKey>) -> Vec<String> {
    compiled
        .pieces()
        .iter()
        .map(|piece| match piece {
            Piece::Literal(text) => format!("lit:{}", text),
            Piece::Field(field) => format!("field:{}", field.name),
        })
        .collect()
}

#[test]
fn escaped_braces_render_as_braces() {
    assert_eq!(rendered("{{literal}}", &[], &[]), Ok("{literal}".to_string()));
    assert_eq!(rendered("{{literal}}", &["literal"], &[("literal", "x")]), Ok("{literal}".to_string()));
}

#[test]
fn unknown_field_fails_at_compile_time() {
    assert_eq!(
        refusal("{unknown_field}", &["year"]),
        TemplateError::UnknownField("unknown_field".to_string())
    );
    assert_eq!(
        refusal("a{year}b{unknown_field}c", &["year"]),
        TemplateError::UnknownField("unknown_field".to_string())
    );
}

#[test]
fn unterminated_field_is_refused() {
    assert_eq!(refusal("{a}{", &["a"]), TemplateError::UnterminatedField);
    assert_eq!(refusal("{a", &["a"]), TemplateError::UnterminatedField);
    assert_eq!(refusal("x{", &[]), TemplateError::UnterminatedField);
}

#[test]
fn nested_brace_is_refused() {
    assert_eq!(refusal("{a{b}}", &["a", "b"]), TemplateError::NestedBrace);
    assert_eq!(refusal("{ab{", &["ab"]), TemplateError::NestedBrace);
}

#[test]
fn unmatched_close_brace_is_refused() {
    assert_eq!(refusal("}", &[]), TemplateError::UnmatchedCloseBrace);
    assert_eq!(refusal("a}b", &[]), TemplateError::UnmatchedCloseBrace);
    assert_eq!(refusal("{a}}", &["a"]), TemplateError::UnmatchedCloseBrace);
    assert_eq!(refusal("}{a}", &["a"]), TemplateError::UnmatchedCloseBrace);
}

#[test]
fn first_fault_is_reported() {
    assert_eq!(refusal("{x}}", &[]), TemplateError::UnknownField("x".to_string()));
    assert_eq!(refusal("}{x", &[]), TemplateError::UnmatchedCloseBrace);
}

#[test]
fn empty_field_name_is_looked_up() {
    assert_eq!(refusal("{}", &["a"]), TemplateError::UnknownField(String::new()));
    assert_eq!(rendered("<{}>", &[""], &[("", "empty")]), Ok("<empty>".to_string()));
}

#[test]
fn fields_are_substituted_in_order() {
    assert_eq!(
        rendered("{year}_{month}_{day}", &["year", "month", "day"], &[
            ("day", "03"),
            ("month", "02"),
            ("year", "2024")
        ]),
        Ok("2024_02_03".to_string())
    );
    assert_eq!(rendered("", &[], &[]), Ok(String::new()));
    assert_eq!(rendered("plain", &[], &[]), Ok("plain".to_string()));
}

#[test]
fn escapes_next_to_fields() {
    assert_eq!(rendered("{{{a}}}", &["a"], &[("a", "v")]), Ok("{v}".to_string()));
    assert_eq!(rendered("}}{{", &[], &[]), Ok("}{".to_string()));
    assert_eq!(rendered("{a}}}", &["a"], &[("a", "v")]), Ok("v}".to_string()));
}

#[test]
fn field_names_may_hold_any_character_but_braces() {
    assert_eq!(rendered("{a b/ü}", &["a b/ü"], &[("a b/ü", "v")]), Ok("v".to_string()));
}

#[test]
fn missing_field_aborts_the_render() {
    assert_eq!(
        rendered("x{a}y{b}z", &["a", "b"], &[("a", "1")]),
        Err(RenderError::MissingField("b".to_string()))
    );
    assert_eq!(
        rendered("{a}{b}", &["a", "b"], &[]),
        Err(RenderError::MissingField("a".to_string()))
    );
}

#[test]
fn field_values_are_sanitized_and_literals_are_not() {
    assert_eq!(
        rendered("dir/{make}", &["make"], &[("make", "a/b/c")]),
        Ok("dir/a_b_c".to_string())
    );
    assert_eq!(sanitize("/x//y/"), "_x__y_");
    assert_eq!(sanitize("ünï/cödé"), "ünï_cödé");
    assert_eq!(sanitize(""), "");
}

#[test]
fn adjacent_literal_characters_share_a_piece() {
    let registry = registry(&["a"]);
    let compiled = compile("ab{{{a}cd}}{a}{a}", &registry).unwrap();
    assert_eq!(
        literals_and_fields(&compiled),
        vec!["lit:ab{", "field:a", "lit:cd}", "field:a", "field:a"]
    );
    let compiled = compile("", &registry).unwrap();
    assert!(compiled.pieces().is_empty());
}

#[test]
fn a_template_is_rendered_many_times() {
    let registry = registry(&["n"]);
    let compiled = compile("img_{n}", &registry).unwrap();
    assert_eq!(render(&compiled, &record(&[("n", "1")])), Ok("img_1".to_string()));
    assert_eq!(render(&compiled, &record(&[("n", "2")])), Ok("img_2".to_string()));
    assert_eq!(render(&compiled, &record(&[])), Err(RenderError::MissingField("n".to_string())));
}

#[test]
fn registry_keeps_names_unique() {
    let registry = FieldRegistry::new()
        .with_field("a".to_string(), ByKey("first".to_string()))
        .with_field("b".to_string(), ByKey("second".to_string()))
        .with_field("a".to_string(), ByKey("third".to_string()));
    assert_eq!(registry.len(), 2);
    assert_eq!(registry.lookup("a").unwrap().extractor.0, "third");
    assert_eq!(registry.lookup("b").unwrap().extractor.0, "second");
    assert!(registry.lookup("c").is_none());
    let compiled = compile("{a}", &registry).unwrap();
    assert_eq!(render(&compiled, &record(&[("third", "yes"), ("first", "no")])), Ok("yes".to_string()));
}

fn with_funcfmt(template: &str, keys: &[&str], entries: &[(&str, &str)]) -> Option<String> {
    let mut map: funcfmt::FormatMap<Record> = funcfmt::FormatMap::default();
    for key in keys {
        let extractor = ByKey(key.to_string());
        let callback: funcfmt::FormatterCallback<Record> =
            std::sync::Arc::new(move |meta: &Record| extractor.extract(meta));
        map.insert((*key).into(), callback);
    }
    let pieces = map.to_format_pieces(template).ok()?;
    pieces.render(&record(entries)).ok()
}

#[test]
fn well_formed_templates_render_as_funcfmt_renders_them() {
    let keys = ["year", "month", "day", "a", ""];
    let entries = [("year", "2024"), ("month", "02"), ("day", "29"), ("a", "ä"), ("", "nil")];
    let templates = [
        "",
        "plain text",
        "{year}",
        "{year}_{month}_{day}",
        "x{a}y{a}z",
        "{{",
        "}}",
        "{{}}",
        "{{{year}}}",
        "{{year}}",
        "}}}}{{{{",
        "{a}{a}{a}",
        "{}",
        "a{}b",
        "{year}}}",
        "ünï{a}cödé",
    ];
    for template in templates {
        let ours = rendered(template, &keys, &entries);
        assert_eq!(ours.ok(), with_funcfmt(template, &keys, &entries), "{:?}", template);
    }
}

#[test]
fn funcfmt_refuses_what_is_refused_here() {
    let keys = ["a"];
    for template in ["{b}", "{a{a}}", "{ab{", "a}b", "}x", "{a}}x"] {
        let registry = registry(&keys);
        assert!(compile(template, &registry).is_err(), "{:?}", template);
        assert_eq!(with_funcfmt(template, &keys, &[("a", "1")]), None, "{:?}", template);
    }
}

/// Every text of the given length over the characters `a`, `{` and `}`.
fn small_templates(length: usize) -> Vec<String> {
    let mut all = vec![String::new()];
    for _ in 0..length {
        let mut longer = Vec::new();
        for text in &all {
            for c in ['a', '{', '}'] {
                let mut next = text.clone();
                next.push(c);
                longer.push(next);
            }
        }
        all = longer;
    }
    all
}

#[test]
fn every_small_template_that_compiles_renders_as_funcfmt_renders_it() {
    let keys = ["", "a", "aa", "aaa"];
    let entries = [("", "0"), ("a", "1"), ("aa", "2"), ("aaa", "3")];
    let mut compiled = 0;
    for length in 0..8 {
        for template in small_templates(length) {
            let registry = registry(&keys);
            if let Ok(ours) = compile(&template, &registry) {
                compiled += 1;
                let ours = render(&ours, &record(&entries)).ok();
                assert!(ours.is_some(), "{:?}", template);
                assert_eq!(ours, with_funcfmt(&template, &keys, &entries), "{:?}", template);
            }
        }
    }
    assert!(compiled > 100);
}

#[test]
fn every_small_template_is_refused_for_its_first_fault() {
    let keys = ["", "a", "aa"];
    for length in 0..7 {
        for template in small_templates(length) {
            let registry = registry(&keys);
            let chars: Vec<char> = template.chars().collect();
            let mut at = 0;
            let mut expected = None;
            while at < chars.len() && expected.is_none() {
                let next = chars.get(at + 1).copied();
                match chars[at] {
                    '{' if next == Some('{') => at += 2,
                    '}' if next == Some('}') => at += 2,
                    '}' => expected = Some(TemplateError::UnmatchedCloseBrace),
                    '{' => match chars[at + 1..].iter().position(|c| *c != 'a') {
                        None => expected = Some(TemplateError::UnterminatedField),
                        Some(end) if chars[at + 1 + end] == '{' => {
                            expected = Some(TemplateError::NestedBrace)
                        },
                        Some(end) if end > 2 => {
                            expected = Some(TemplateError::UnknownField("a".repeat(end)))
                        },
                        Some(end) => at += end + 2,
                    },
                    _ => at += 1,
                }
            }
            assert_eq!(compile(&template, &registry).err(), expected, "{:?}", template);
        }
    }
}
