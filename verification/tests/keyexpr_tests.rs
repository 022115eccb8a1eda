use reliability_cache::keyexpr::{InvalidKeyExpr, KeyExpr};
use reliability_cache::locator::{CustomConfigurator, CustomLocatorInspector};

fn ke(s: &str) -> KeyExpr {
    KeyExpr::new(&s.as_bytes().to_vec()).unwrap()
}

fn parses(s: &str) -> bool {
    KeyExpr::new(&s.as_bytes().to_vec()).is_ok()
}

#[test]
fn parse_accepts_canonical_keys() {
    assert!(parses("a"));
    assert!(parses("a/b"));
    assert!(parses("a/b/c"));
    assert!(parses("*"));
    assert!(parses("**"));
    assert!(parses("a/*/c"));
    assert!(parses("a/**"));
    assert!(parses("demo/example/pub-1"));
}

#[test]
fn parse_rejects_malformed_keys() {
    assert!(!parses(""));
    assert!(!parses("/a"));
    assert!(!parses("a/"));
    assert!(!parses("a//b"));
    assert!(!parses("a*b"));
    assert!(!parses("***"));
    assert!(!parses("a/**b"));
    match KeyExpr::new(&b"a//b".to_vec()) {
        Err(e) => assert_eq!(e, InvalidKeyExpr),
        Ok(_) => panic!("an empty segment must be refused"),
    }
}

#[test]
fn key_eq_is_segment_wise() {
    assert!(ke("a/b").key_eq(&ke("a/b")));
    assert!(!ke("a/b").key_eq(&ke("a/c")));
    assert!(!ke("a/b").key_eq(&ke("a")));
    assert!(ke("a/b").clone().key_eq(&ke("a/b")));
}

#[test]
fn join_concatenates_with_separator() {
    assert!(ke("cache").join(&ke("a/b")).key_eq(&ke("cache/a/b")));
    assert!(ke("p/q").join(&ke("r")).key_eq(&ke("p/q/r")));
}

#[test]
fn has_wildcard_detects_star_segments() {
    assert!(!ke("a/b").has_wildcard());
    assert!(ke("a/*").has_wildcard());
    assert!(ke("**").has_wildcard());
    assert!(ke("a/**/b").has_wildcard());
}

#[test]
fn intersects_literal_keys() {
    assert!(ke("a/b").intersects(&ke("a/b")));
    assert!(!ke("a/b").intersects(&ke("a/c")));
    assert!(!ke("a/b").intersects(&ke("a")));
}

#[test]
fn intersects_single_segment_wildcard() {
    assert!(ke("a/*").intersects(&ke("a/b")));
    assert!(ke("a/b").intersects(&ke("a/*")));
    assert!(!ke("a/*").intersects(&ke("b/b")));
    assert!(!ke("a/*").intersects(&ke("a/b/c")));
    assert!(ke("*/b").intersects(&ke("a/*")));
}

#[test]
fn intersects_multi_segment_wildcard() {
    assert!(ke("a/**").intersects(&ke("a")));
    assert!(ke("a/**").intersects(&ke("a/b/c")));
    assert!(ke("**").intersects(&ke("x/y/z")));
    assert!(!ke("a/**").intersects(&ke("b/x")));
    assert!(ke("a/**/d").intersects(&ke("a/b/c/d")));
    assert!(!ke("a/**/d").intersects(&ke("a/b/c/e")));
}

#[test]
fn intersects_is_commutative_and_reflexive() {
    let keys = ["a/b", "a/*", "a/**", "**", "x", "a/**/d"];
    for p in keys.iter() {
        assert!(ke(p).intersects(&ke(p)));
        for q in keys.iter() {
            assert_eq!(ke(p).intersects(&ke(q)), ke(q).intersects(&ke(p)));
        }
    }
}

#[test]
fn includes_orders_generality() {
    assert!(ke("a/**").includes(&ke("a/b/c")));
    assert!(ke("a/*").includes(&ke("a/b")));
    assert!(ke("**").includes(&ke("a/**")));
    assert!(!ke("a/b").includes(&ke("a/*")));
    assert!(!ke("a/b/c").includes(&ke("a/**")));
    assert!(ke("a/b").includes(&ke("a/b")));
}

#[test]
fn includes_implies_intersects() {
    let keys = ["a/b", "a/*", "a/**", "**", "a/b/c", "a/**/d"];
    for p in keys.iter() {
        for q in keys.iter() {
            if ke(p).includes(&ke(q)) {
                assert!(ke(p).intersects(&ke(q)));
            }
        }
    }
}

#[test]
fn locator_inspector_protocol_and_multicast() {
    let inspector = CustomLocatorInspector;
    assert_eq!(inspector.protocol(), "custom");
    assert!(!inspector.is_multicast(&b"custom/localhost:7447".to_vec()));
}

#[test]
fn configurator_renders_file_mask() {
    let c = CustomConfigurator;
    assert_eq!(c.inspect_config(None), b"".to_vec());
    assert_eq!(c.inspect_config(Some(511)), b"file_mask=511".to_vec());
    assert_eq!(c.inspect_config(Some(0)), b"file_mask=0".to_vec());
    assert_eq!(c.inspect_config(Some(4294967295)), b"file_mask=4294967295".to_vec());
}
