use handlebars::Handlebars;
use serde_json::Value;

use template_eyre::helpers;
use template_eyre::helpers::{
    extend_scope, set_decorator, style_with, ConcatHelper, HelperError, InlineIfHelper,
    StyleHelper,
};
use template_eyre::indent::IndentHelper;
use template_eyre::json::{Json, JsonNumber};

fn object(pairs: &[(&str, Value)]) -> Value {
    let mut m = serde_json::Map::new();
    for (k, v) in pairs {
        m.insert(k.to_string(), v.clone());
    }
    Value::Object(m)
}

fn text(s: &str) -> Json {
    Json::String(s.to_string())
}

#[test]
fn inline_if() {
    let mut handlebars = Handlebars::new();
    handlebars.register_helper("_if", Box::new(InlineIfHelper));
    handlebars
        .register_template_string("test", r#"{{_if branch "a" "b"}}"#)
        .unwrap();
    assert_eq!(
        handlebars
            .render("test", &object(&[("branch", Value::Bool(true))]))
            .unwrap(),
        "a"
    );
    assert_eq!(
        handlebars
            .render("test", &object(&[("branch", Value::Bool(false))]))
            .unwrap(),
        "b"
    );
}

#[test]
fn style() {
    let mut handlebars = Handlebars::new();
    handlebars.register_helper("style", Box::new(StyleHelper));
    assert_eq!(
        handlebars
            .render_template(r#"{{style "cyan" "meow"}}"#, &Value::Null)
            .unwrap(),
        console::style("meow").cyan().to_string()
    );
}

#[test]
fn indent() {
    let mut handlebars = Handlebars::new();
    handlebars.register_helper("indent", Box::new(IndentHelper));
    assert_eq!(
        handlebars
            .render_template(r#"{{indent "meow"}}"#, &Value::Null)
            .unwrap(),
        "    meow"
    );
}

#[test]
fn set() {
    let mut handlebars = Handlebars::new();
    handlebars.register_decorator("set", Box::new(set_decorator));
    assert_eq!(
        handlebars
            .render_template("{{*set cat=\"meow\"}}\n{{cat}}", &object(&[]))
            .unwrap(),
        "meow"
    );
}

#[test]
fn concat() {
    let mut handlebars = Handlebars::new();
    handlebars.register_helper("concat", Box::new(ConcatHelper));
    assert_eq!(
        handlebars
            .render_template(
                r#"{{concat "a" b}}"#,
                &object(&[("b", Value::String("meow".to_string()))])
            )
            .unwrap(),
        r#"ameow"#
    );
}

#[test]
fn inline_if_returns_the_chosen_value() {
    assert_eq!(helpers::inline_if(true, 1, 2), 1);
    assert_eq!(helpers::inline_if(false, 1, 2), 2);
    assert_eq!(helpers::inline_if(true, "a", "b"), "a");
    assert_eq!(helpers::inline_if(false, "a", "b"), "b");
}

#[test]
fn inline_if_picks_a_position() {
    let h = InlineIfHelper;
    assert_eq!(h.pick(&vec![Json::Bool(true), text("a"), text("b")]), Ok(1));
    assert_eq!(h.pick(&vec![Json::Bool(false), text("a"), text("b")]), Ok(2));
    assert_eq!(
        h.pick(&vec![text("yes"), text("a"), text("b")]),
        Err(HelperError::ConditionNotBool)
    );
    assert_eq!(h.pick(&vec![Json::Bool(true)]), Err(HelperError::MissingParam));
}

#[test]
fn concat_joins_strings() {
    let h = ConcatHelper;
    assert_eq!(
        h.render_params(&vec![text("a"), text("b"), text("c")]),
        Ok("abc".to_string())
    );
    assert_eq!(h.render_params(&vec![]), Ok(String::new()));
}

#[test]
fn concat_refuses_non_strings() {
    let h = ConcatHelper;
    assert_eq!(
        h.render_params(&vec![text("a"), Json::Bool(true)]),
        Err(HelperError::ConcatNonString)
    );
    assert_eq!(
        h.render_params(&vec![Json::Null]),
        Err(HelperError::ConcatNonString)
    );
}

#[test]
fn style_without_colours_passes_text_through() {
    assert_eq!(style_with("yellow", "meow", false), Ok("meow".to_string()));
    assert_eq!(style_with("black.bright", "x", false), Ok("x".to_string()));
    assert_eq!(style_with("on_12.200.bold", "x", false), Ok("x".to_string()));
}

#[test]
fn style_with_colours_wraps_text() {
    console::set_colors_enabled(true);
    assert_eq!(
        style_with("yellow", "meow", true),
        Ok(console::style("meow").yellow().to_string())
    );
    assert_ne!(style_with("yellow", "meow", true), Ok("meow".to_string()));
}

#[test]
fn style_refuses_unknown_tokens() {
    assert_eq!(
        style_with("red.sparkly", "x", false),
        Err(HelperError::UnknownStyle("sparkly".to_string()))
    );
    assert_eq!(
        style_with("256", "x", false),
        Err(HelperError::UnknownStyle("256".to_string()))
    );
    assert_eq!(
        style_with("", "x", false),
        Err(HelperError::UnknownStyle(String::new()))
    );
}

#[test]
fn style_helper_wants_two_strings() {
    let h = StyleHelper;
    assert_eq!(h.render_params(&vec![text("red")]), Err(HelperError::MissingParam));
    assert_eq!(
        h.render_params(&vec![text("red"), Json::Bool(true)]),
        Err(HelperError::StyleParamNotString)
    );
}

#[test]
fn extend_scope_sets_over_a_copy() {
    let parent = Json::Object(vec![("a".to_string(), text("1")), ("b".to_string(), text("2"))]);
    let r = extend_scope(vec![("b".to_string(), text("3")), ("c".to_string(), text("4"))], parent);
    match r {
        Ok(Json::Object(e)) => {
            let last = |k: &str| e.iter().rev().find(|(x, _)| x == k).map(|(_, v)| v);
            assert!(matches!(last("a"), Some(Json::String(s)) if s == "1"));
            assert!(matches!(last("b"), Some(Json::String(s)) if s == "3"));
            assert!(matches!(last("c"), Some(Json::String(s)) if s == "4"));
        }
        _ => panic!("expected an object"),
    }
}

#[test]
fn extend_scope_refuses_non_objects() {
    assert!(matches!(
        extend_scope(vec![], Json::Array(vec![])),
        Err(HelperError::ExtendNonObject)
    ));
    assert!(matches!(
        extend_scope(vec![], text("x")),
        Err(HelperError::ExtendNonObject)
    ));
}

#[test]
fn set_decorator_fails_on_non_object_data() {
    let mut handlebars = Handlebars::new();
    handlebars.register_decorator("set", Box::new(set_decorator));
    assert!(handlebars
        .render_template("{{*set cat=\"meow\"}}{{cat}}", &Value::Bool(true))
        .is_err());
}

#[test]
fn indent_helper_modes() {
    let h = IndentHelper;
    assert_eq!(h.render_params(&vec![text("a\nb")]), Ok("    a\n    b".to_string()));
    assert_eq!(
        h.render_params(&vec![Json::Null, text("a")]),
        Ok("    a".to_string())
    );
    assert_eq!(
        h.render_params(&vec![Json::Number(JsonNumber::Unsigned(3)), text("a\nb")]),
        Ok("3: a\n4: b".to_string())
    );
    assert_eq!(
        h.render_params(&vec![text("> "), text("a\nb\n")]),
        Ok("> a\n> b\n".to_string())
    );
}

#[test]
fn indent_helper_errors() {
    let h = IndentHelper;
    assert_eq!(h.render_params(&vec![]), Err(HelperError::TooFewParams));
    assert_eq!(
        h.render_params(&vec![Json::Null, text("a"), text("b")]),
        Err(HelperError::TooManyParams)
    );
    assert_eq!(
        h.render_params(&vec![Json::Bool(true), text("a")]),
        Err(HelperError::UnexpectedParamType)
    );
    assert_eq!(h.render_params(&vec![Json::Null]), Err(HelperError::ContentNotString));
    assert_eq!(
        h.render_params(&vec![Json::Number(JsonNumber::Unsigned(1)), Json::Bool(false)]),
        Err(HelperError::ContentNotString)
    );
    let negative: serde_json::Number = serde_json::Number::from(-1i64);
    assert_eq!(
        h.render_params(&vec![Json::Number(JsonNumber::Other(negative)), text("a")]),
        Err(HelperError::NumberOutOfRange)
    );
}

#[test]
fn indent_helper_through_template_numbers_from_index() {
    let mut handlebars = Handlebars::new();
    handlebars.register_helper("indent", Box::new(IndentHelper));
    assert_eq!(
        handlebars
            .render_template(r#"{{indent 7 "x\ny"}}"#, &Value::Null)
            .unwrap(),
        "7: x\n8: y"
    );
    assert!(handlebars
        .render_template(r#"{{indent -1 "x"}}"#, &Value::Null)
        .is_err());
}

#[test]
fn error_messages_name_the_helper() {
    assert!(HelperError::ConcatNonString.message().contains("concat"));
    assert!(HelperError::TooFewParams.message().contains("indent"));
    assert!(HelperError::UnknownStyle("zz".to_string()).message().contains("zz"));
}

#[test]
fn error_messages_are_exact() {
    assert_eq!(
        HelperError::ConcatNonString.message(),
        "`concat` helper: only accepts string parameter(s)"
    );
    assert_eq!(
        HelperError::ExtendNonObject.message(),
        "`set` decorator: Cannot extend non-object data"
    );
    assert_eq!(
        HelperError::ContentNotString.message(),
        "`indent` helper: content is not a string"
    );
    assert_eq!(
        HelperError::UnknownStyle("zz".to_string()).message(),
        "`style` helper: unknown style token: zz"
    );
}

#[test]
fn concat_error_through_template_names_helper() {
    let mut handlebars = Handlebars::new();
    handlebars.register_helper("concat", Box::new(ConcatHelper));
    let err = handlebars
        .render_template(r#"{{concat "a" 1}}"#, &Value::Null)
        .unwrap_err();
    assert_eq!(err.desc, "`concat` helper: only accepts string parameter(s)");
}

#[test]
fn style_reports_first_unknown_token() {
    assert_eq!(
        style_with("red.zz.yy", "x", true),
        Err(HelperError::UnknownStyle("zz".to_string()))
    );
    assert_eq!(
        template_eyre::helpers::style("bold.qq", "x"),
        Err(HelperError::UnknownStyle("qq".to_string()))
    );
}
