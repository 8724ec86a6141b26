use rddns::addresses::AddressMap;
use rddns::render::{render, RenderError};

#[test]
fn renders_every_placeholder() {
    let mut m = AddressMap::new();
    m.insert("a".to_string(), "1.2.3.4".to_string());
    m.insert("b".to_string(), "2001:db8::1".to_string());
    let r = render("http://x.example/{a}?y={b}", &m).unwrap();
    assert_eq!(r, "http://x.example/1.2.3.4?y=2001:db8::1".to_string());
}

#[test]
fn unresolved_placeholder_fails_without_partial_output() {
    let mut m = AddressMap::new();
    m.insert("a".to_string(), "1.2.3.4".to_string());
    let r = render("http://x.example/{a}/{c}", &m);
    match r {
        Err(RenderError::UnresolvedPlaceholder { placeholder }) => {
            assert_eq!(placeholder, "c".to_string());
        },
        other => panic!("expected UnresolvedPlaceholder, got {:?}", other),
    }
}

#[test]
fn template_without_placeholders_is_unchanged() {
    let r = render("https://plain.example/update", &AddressMap::new()).unwrap();
    assert_eq!(r, "https://plain.example/update".to_string());
}

#[test]
fn empty_template_renders_empty() {
    let r = render("", &AddressMap::new()).unwrap();
    assert_eq!(r, "".to_string());
}

#[test]
fn unterminated_brace_stays_literal() {
    let mut m = AddressMap::new();
    m.insert("b".to_string(), "9.9.9.9".to_string());
    let r = render("a{b", &m).unwrap();
    assert_eq!(r, "a{b".to_string());
}

#[test]
fn repeated_placeholder_is_substituted_everywhere() {
    let mut m = AddressMap::new();
    m.insert("a".to_string(), "7.7.7.7".to_string());
    let r = render("{a}/{a}", &m).unwrap();
    assert_eq!(r, "7.7.7.7/7.7.7.7".to_string());
}

#[test]
fn later_binding_of_the_same_identifier_wins() {
    let mut m = AddressMap::new();
    m.insert("a".to_string(), "1.1.1.1".to_string());
    m.insert("a".to_string(), "2.2.2.2".to_string());
    let r = render("{a}", &m).unwrap();
    assert_eq!(r, "2.2.2.2".to_string());
}
