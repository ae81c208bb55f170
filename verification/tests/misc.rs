use kourain_media::assoc::Assoc;
use kourain_media::attributes::{AppCommonComponentProps, Attribute, AttributeValue};
use kourain_media::process::{is_alive, WaitOutcome};
use kourain_media::progress_view::refresh_progress_view;
use kourain_media::slug::{key_prefix, progress_key};

fn attr(name: &str, value: &str) -> Attribute {
    Attribute { name: name.to_string(), value: value.to_string() }
}

fn props(attributes: Vec<Attribute>) -> AppCommonComponentProps {
    AppCommonComponentProps { attributes, disabled: false, placeholder: None, value: None, input_type: None }
}

#[test]
fn progress_keys() {
    assert_eq!(progress_key("Xin Chào Thế Giới"), "xin-chao-the-gioi");
    assert_eq!(progress_key("Hello@World!"), "helloworld");
    let long = "a".repeat(80);
    assert_eq!(progress_key(&long), "a".repeat(50));
    assert_eq!(key_prefix(&progress_key(&long)), "a".repeat(50));
}

#[test]
fn progress_view_moves_forward() {
    let mut shown: Assoc<i32> = Assoc::new();
    let changes = refresh_progress_view(&mut shown, &[("a".to_string(), 30), ("b".to_string(), 0)], false);
    assert_eq!(changes, vec![("a".to_string(), 30)]);
    let changes = refresh_progress_view(&mut shown, &[("a".to_string(), 20), ("b".to_string(), 5)], false);
    assert_eq!(changes, vec![("b".to_string(), 5)]);
    let changes = refresh_progress_view(&mut shown, &[("a".to_string(), -1), ("b".to_string(), 5)], true);
    assert_eq!(changes, vec![("a".to_string(), 100), ("b".to_string(), 100)]);
    assert_eq!(shown.get("a"), Some(100));
    assert_eq!(shown.len(), 2);
}

#[test]
fn component_attributes() {
    let p = props(vec![attr("id", "x"), attr("class", "big"), attr("on_click", "f"), attr("class", "small")]);
    assert_eq!(p.class("btn"), "btn big");
    assert_eq!(props(vec![]).class("btn"), "btn ");
    assert_eq!(p.get_attribute_value_string("id", "none"), "x");
    assert_eq!(p.get_attribute_value_string("title", "none"), "none");
    let rendered: Vec<(String, String)> = p.render_attribute().into_iter().map(|a| (a.name, a.value)).collect();
    assert_eq!(rendered, vec![("id".to_string(), "x".to_string())]);
}

#[test]
fn assoc_map_operations() {
    let mut m: Assoc<i32> = Assoc::new();
    assert_eq!(m.insert("k".to_string(), 1), None);
    assert_eq!(m.insert("k".to_string(), 2), Some(1));
    assert_eq!(m.get("k"), Some(2));
    assert_eq!(m.remove("k"), Some(2));
    assert_eq!(m.remove("k"), None);
    assert_eq!(m.len(), 0);
}

#[test]
fn input_fallbacks() {
    let p = props(vec![attr("aria_placeholder", "Search"), attr("type", "password")]);
    assert_eq!(p.input_placeholder(), "Search");
    assert_eq!(p.input_value(), "");
    assert_eq!(p.input_type_text(), "password");
    let bare = props(vec![]);
    assert_eq!(bare.input_placeholder(), "Type here...");
    assert_eq!(bare.input_type_text(), "text");
    let given = AppCommonComponentProps {
        attributes: vec![attr("value", "from attribute")],
        disabled: false,
        placeholder: Some("Given".to_string()),
        value: Some("typed".to_string()),
        input_type: Some("number".to_string()),
    };
    assert_eq!(given.input_placeholder(), "Given");
    assert_eq!(given.input_value(), "typed");
    assert_eq!(given.input_type_text(), "number");
    assert_eq!(props(vec![attr("value", "v")]).input_value(), "v");
}

#[test]
fn child_liveness() {
    assert!(is_alive(WaitOutcome::Running));
    assert!(!is_alive(WaitOutcome::Exited));
    assert!(!is_alive(WaitOutcome::Failed));
}

fn text_of(v: AttributeValue) -> String {
    kourain_media::attributes::ToString::to_string(&v)
}

#[test]
fn attribute_values_as_text() {
    assert_eq!(text_of(AttributeValue::Text("big".to_string())), "big");
    assert_eq!(text_of(AttributeValue::Int(42)), "42");
    assert_eq!(text_of(AttributeValue::Int(-7)), "-7");
    assert_eq!(text_of(AttributeValue::Int(i64::MIN)), i64::MIN.to_string());
    assert_eq!(text_of(AttributeValue::Bool(true)), "true");
    assert_eq!(text_of(AttributeValue::Bool(false)), "false");
    assert_eq!(text_of(AttributeValue::NoValue), "");
}
