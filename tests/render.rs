use template_eyre::templates::{COLORED_SIMPLE, SIMPLE};
use handlebars::RenderError;
use template_eyre::ext::Section;
use template_eyre::json::Json;
use template_eyre::trial_outcome;
use template_eyre::Hook;

fn chain(hook: &Hook, errors: &[&str]) -> String {
    let sources: Vec<String> = errors[1..].iter().map(|s| s.to_string()).collect();
    hook.make_handler()
        .render_chain(errors[0].to_string(), sources)
        .unwrap()
}

#[test]
fn simple() {
    let hook = Hook::new(SIMPLE).unwrap();
    assert_eq!(
        chain(&hook, &["Unable to talk to daemon"]),
        "Unable to talk to daemon"
    );
    assert_eq!(
        chain(
            &hook,
            &["Unable to talk to daemon", "Connection refused (os error 61)"]
        )
        ,
        "Unable to talk to daemon\nCaused by:\n    Connection refused (os error 61)"
    );
    assert_eq!(
        chain(
            &hook,
            &["Unable to talk to daemon", "Connection refused", "os error 61"]
        )
        ,
        "Unable to talk to daemon\nCaused by:\n0: Connection refused\n1: os error 61"
    );

    console::set_colors_enabled(true);
    let colored = Hook::new(COLORED_SIMPLE).unwrap();
    let red = console::style("Unable to talk to daemon").red().to_string();
    let caused = console::style("Caused by:").black().bright().to_string();
    assert_eq!(chain(&colored, &["Unable to talk to daemon"]), red);
    let one = console::style("Connection refused (os error 61)").yellow().to_string();
    assert_eq!(
        chain(
            &colored,
            &["Unable to talk to daemon", "Connection refused (os error 61)"]
        )
        ,
        format!("{}\n{}\n    {}", red, caused, one)
    );
    let a = console::style("Connection refused").yellow().to_string();
    let b = console::style("os error 61").yellow().to_string();
    assert_eq!(
        chain(
            &colored,
            &["Unable to talk to daemon", "Connection refused", "os error 61"]
        )
        ,
        format!("{}\n{}\n0: {}\n1: {}", red, caused, a, b)
    );
}

#[test]
fn simple_constructors_validate() {
    assert!(Hook::simple().is_ok());
    assert!(Hook::colored_simple().is_ok());
}

#[test]
fn no_cause_has_no_caused_by_block() {
    let hook = Hook::simple().unwrap();
    let out = chain(&hook, &["boom"]);
    assert!(!out.contains("Caused by"));
    assert_eq!(out, "boom");
}

#[test]
fn one_cause_is_not_numbered() {
    let hook = Hook::simple().unwrap();
    let out = chain(&hook, &["top", "inner"]);
    assert_eq!(out, "top\nCaused by:\n    inner");
}

#[test]
fn several_causes_are_numbered_from_zero() {
    let hook = Hook::simple().unwrap();
    let out = chain(&hook, &["top", "a", "b", "c"]);
    assert_eq!(out, "top\nCaused by:\n0: a\n1: b\n2: c");
}

#[test]
fn template_failing_for_two_causes_is_rejected() {
    let tmpl = "{{error}}{{#if (eq (len sources) 2)}}{{indent}}{{/if}}";
    assert!(Hook::new(tmpl).is_err());
}

#[test]
fn template_that_does_not_parse_is_rejected() {
    assert!(Hook::new("{{#if error}}").is_err());
}

#[test]
fn section() {
    let hook = Hook::new("{{error}} {{key}}").unwrap();
    let h = hook
        .make_handler()
        .section("key", Json::String("somevalue".to_string()));
    assert_eq!(h.render_chain("boom".to_string(), vec![]).unwrap(), "boom somevalue");
    let h = hook
        .make_handler()
        .section("key", Json::String("somevalue".to_string()));
    assert_eq!(h.render_chain("e".to_string(), vec![]).unwrap(), "e somevalue");
}

#[test]
fn section_cannot_replace_error_text() {
    let hook = Hook::new("{{error}}").unwrap();
    let h = hook
        .make_handler()
        .section("error", Json::String("other".to_string()));
    assert_eq!(h.render_chain("real".to_string(), vec![]).unwrap(), "real");
}

#[test]
fn unclosed_block_is_rejected() {
    assert!(Hook::new("{{#if error}}unclosed").is_err());
}

#[test]
fn template_failing_only_with_exactly_two_causes_is_rejected() {
    let tmpl = "{{#if sources.[1]}}{{#unless sources.[2]}}{{indent 1 2 3}}{{/unless}}{{/if}}";
    assert!(Hook::new(tmpl).is_err());
}

#[test]
fn trial_outcome_fails_on_any_failed_trial() {
    assert!(trial_outcome(vec![]).is_ok());
    assert!(trial_outcome(vec![Ok("a".to_string()), Ok("b".to_string())]).is_ok());
    let r = trial_outcome(vec![
        Ok("a".to_string()),
        Err(RenderError::new("second")),
        Err(RenderError::new("third")),
    ]);
    assert_eq!(r.unwrap_err().desc, "second");
}

#[test]
fn handler_payload_carries_sections() {
    let h = Hook::simple()
        .unwrap()
        .make_handler()
        .section("extra", Json::String("x".to_string()));
    match h.payload("boom".to_string(), vec!["c".to_string()]) {
        Json::Object(e) => {
            let last = |k: &str| e.iter().rev().find(|(x, _)| x == k).map(|(_, v)| v);
            assert!(matches!(last("extra"), Some(Json::String(s)) if s == "x"));
            assert!(matches!(last("error"), Some(Json::String(s)) if s == "boom"));
            assert!(matches!(last("sources"), Some(Json::Array(v)) if v.len() == 1));
        }
        _ => panic!("expected an object"),
    }
}
