use template_eyre::ext::{Section, Sections};
use template_eyre::json::{Json, JsonNumber};
use template_eyre::{id_escape, synthetic_payload, synthetic_sources, Hook};

fn get<'a>(e: &'a [(String, Json)], k: &str) -> Option<&'a Json> {
    e.iter().rev().find(|(x, _)| x == k).map(|(_, v)| v)
}

#[test]
fn attach_to_report() {
    let report = Hook::simple()
        .unwrap()
        .make_handler()
        .section("a", Json::Bool(true))
        .section("b", Json::String("key b".to_string()));
    assert!(matches!(report.get_section("a").unwrap(), Json::Bool(true)));
    assert!(matches!(report.get_section("b").unwrap(), Json::String(s) if s == "key b"));
    assert!(report.get_section_str("a").is_none());
    assert_eq!(report.get_section_str("b").unwrap(), "key b");
}

#[test]
fn absent_section_is_not_found() {
    let s = Sections::new();
    assert!(s.get("nope").is_none());
    assert!(s.get_str("nope").is_none());
}

#[test]
fn last_attach_wins() {
    let mut s = Sections::new();
    s.attach("k".to_string(), Json::String("one".to_string()));
    s.attach("k".to_string(), Json::String("two".to_string()));
    assert_eq!(s.get_str("k"), Some("two"));
    s.attach("k".to_string(), Json::Number(JsonNumber::Unsigned(3)));
    assert!(s.get_str("k").is_none());
    assert!(matches!(s.get("k"), Some(Json::Number(JsonNumber::Unsigned(3)))));
}

#[test]
fn payload_holds_error_sources_and_sections() {
    let mut s = Sections::new();
    s.attach("extra".to_string(), Json::Bool(false));
    s.attach("error".to_string(), Json::Null);
    let p = s.into_payload("boom".to_string(), vec!["a".to_string(), "b".to_string()]);
    match p {
        Json::Object(e) => {
            assert!(matches!(get(&e, "error"), Some(Json::String(t)) if t == "boom"));
            assert!(matches!(get(&e, "extra"), Some(Json::Bool(false))));
            match get(&e, "sources") {
                Some(Json::Array(items)) => {
                    assert_eq!(items.len(), 2);
                    assert!(matches!(&items[0], Json::String(t) if t == "a"));
                    assert!(matches!(&items[1], Json::String(t) if t == "b"));
                }
                _ => panic!("sources missing"),
            }
        }
        _ => panic!("expected an object"),
    }
}

#[test]
fn synthetic_payloads_have_the_asked_causes() {
    assert_eq!(synthetic_sources(3).len(), 3);
    match synthetic_payload(2) {
        Json::Object(e) => match get(&e, "sources") {
            Some(Json::Array(items)) => assert_eq!(items.len(), 2),
            _ => panic!("sources missing"),
        },
        _ => panic!("expected an object"),
    }
}

#[test]
fn copy_keeps_sections() {
    let mut s = Sections::new();
    s.attach("k".to_string(), Json::Array(vec![Json::Null, Json::String("v".to_string())]));
    let c = s.copy();
    assert!(matches!(c.get("k"), Some(Json::Array(v)) if v.len() == 2));
}

#[test]
fn escape_is_identity() {
    assert_eq!(id_escape("<a & b>"), "<a & b>");
}
