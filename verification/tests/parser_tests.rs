use workflows::dict::Dict;
use workflows::engine::{Config, Context};
use workflows::parser::{enclosed, fulfill, parse, Expression, ResolveError, Text};

fn ctx_with_env(pairs: &[(&str, &str)]) -> Context {
    let mut env = Dict::new();
    for (k, v) in pairs {
        env.insert(k.to_string(), v.to_string());
    }
    Context::new(Config { workflows: Vec::new() }, env)
}

fn dict_of(pairs: &[(&str, &str)]) -> Dict {
    let mut d = Dict::new();
    for (k, v) in pairs {
        d.insert(k.to_string(), v.to_string());
    }
    d
}

fn expr(namespace: &str, field: &str) -> Text {
    Text::Expression(Expression {
        namespace: namespace.to_string(),
        field: field.to_string(),
    })
}

fn lit(s: &str) -> Text {
    Text::Literal(s.to_string())
}

#[test]
fn test_enclosed_expression() {
    let s = "{ env.gist_secret }";
    let (t, consumed) = enclosed(s).unwrap();
    assert_eq!(t, expr("env", "gist_secret"));
    assert_eq!(consumed, s.chars().count());

    let s = "{input.status_code}";
    let (t, consumed) = enclosed(s).unwrap();
    assert_eq!(t, expr("input", "status_code"));
    assert_eq!(consumed, s.chars().count());
}

#[test]
fn test_text() {
    assert_eq!(
        parse("hello {env.ttt}"),
        Some(vec![lit("hello "), expr("env", "ttt")])
    );

    assert_eq!(
        parse("这是 Server 结果 {input.status_code}, 今天天气是 {input.text}。"),
        Some(vec![
            lit("这是 Server 结果 "),
            expr("input", "status_code"),
            lit(", 今天天气是 "),
            expr("input", "text"),
            lit("。"),
        ])
    );
}

#[test]
fn literal_only_template_is_returned_unchanged() {
    let ctx = ctx_with_env(&[]);
    let input = Dict::new();
    let out = fulfill("plain text, no braces", &input, &ctx).unwrap();
    assert_eq!(out, "plain text, no braces");
    let out = fulfill("}closing braces are fine}", &input, &ctx).unwrap();
    assert_eq!(out, "}closing braces are fine}");
}

#[test]
fn env_expression_substitutes_present_key() {
    let ctx = ctx_with_env(&[("KEY", "value-7")]);
    let input = Dict::new();
    assert_eq!(fulfill("{env.KEY}", &input, &ctx).unwrap(), "value-7");
}

#[test]
fn env_expression_missing_key_fails_naming_it() {
    let ctx = ctx_with_env(&[]);
    let input = Dict::new();
    match fulfill("{env.KEY}", &input, &ctx) {
        Err(ResolveError::MissingKey(k)) => {
            assert_eq!(k, "KEY");
            assert_eq!(ResolveError::MissingKey(k).message(), "Missing KEY.");
        }
        other => panic!("expected a missing-key failure, got {:?}", other.is_ok()),
    }
}

#[test]
fn input_expression_substitutes_present_key() {
    let ctx = ctx_with_env(&[]);
    let input = dict_of(&[("status_code", "200")]);
    assert_eq!(fulfill("{input.status_code}", &input, &ctx).unwrap(), "200");
}

#[test]
fn input_expression_missing_key_fails_naming_it() {
    let ctx = ctx_with_env(&[]);
    let input = Dict::new();
    match fulfill("{input.status_code}", &input, &ctx) {
        Err(ResolveError::MissingKey(k)) => assert_eq!(k, "status_code"),
        other => panic!("expected a missing-key failure, got {:?}", other.is_ok()),
    }
}

#[test]
fn concatenated_segments_resolve_independently() {
    let ctx = ctx_with_env(&[("x", "1")]);
    let input = dict_of(&[("y", "2")]);
    let out = fulfill("a{env.x}b{input.y}c", &input, &ctx).unwrap();
    assert_eq!(out, "a1b2c");
    // literal text comes through byte for byte around every substitution
    let out = fulfill("{env.x}{input.y}", &input, &ctx).unwrap();
    assert_eq!(out, "12");
}

#[test]
fn unknown_namespace_fails_to_parse() {
    assert_eq!(parse("{weather.temp}"), None);
    let ctx = ctx_with_env(&[]);
    let input = Dict::new();
    match fulfill("{weather.temp}", &input, &ctx) {
        Err(ResolveError::UnableToParse(t)) => {
            assert_eq!(t, "{weather.temp}");
            assert_eq!(
                ResolveError::UnableToParse(t).message(),
                "Unable to parse expression {weather.temp}."
            );
        }
        other => panic!("expected a parse failure, got {:?}", other.is_ok()),
    }
}

#[test]
fn malformed_expressions_fail_to_parse() {
    assert_eq!(parse("{env.x"), None);
    assert_eq!(parse("{}"), None);
    assert_eq!(parse(""), None);
    assert_eq!(parse("{env.}"), None);
    assert_eq!(parse("{env x}"), None);
    assert_eq!(parse("abc{env.x"), None);
    let ctx = ctx_with_env(&[("x", "1")]);
    let input = Dict::new();
    assert!(matches!(
        fulfill("{env.x", &input, &ctx),
        Err(ResolveError::UnableToParse(_))
    ));
    assert!(matches!(
        fulfill("{}", &input, &ctx),
        Err(ResolveError::UnableToParse(_))
    ));
    assert!(matches!(
        fulfill("", &input, &ctx),
        Err(ResolveError::UnableToParse(_))
    ));
}

#[test]
fn whitespace_inside_braces_and_around_separator_is_allowed() {
    let ctx = ctx_with_env(&[("x", "1")]);
    let input = Dict::new();
    assert_eq!(fulfill("{ env.x }", &input, &ctx).unwrap(), "1");
    assert_eq!(fulfill("{ env . x }", &input, &ctx).unwrap(), "1");
    assert_eq!(fulfill("{env. x}", &input, &ctx).unwrap(), "1");
}
