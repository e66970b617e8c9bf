use std::collections::hash_map::DefaultHasher;
use std::hash::{Hash, Hasher};

use valence::ident::Ident;

fn ident(s: &str) -> Ident {
    Ident::new(s.to_owned()).unwrap()
}

#[test]
fn check_namespace_and_path() {
    let id = ident("namespace:path");
    assert_eq!(id.namespace(), "namespace");
    assert_eq!(id.path(), "path");
}

#[test]
fn parse_valid() {
    ident("minecraft:whatever");
    ident("_what-ever55_:.whatever/whatever123456789_");
    ident("valence:frobnicator");
}

#[test]
#[should_panic]
fn parse_invalid_0() {
    ident("");
}

#[test]
#[should_panic]
fn parse_invalid_1() {
    ident(":");
}

#[test]
#[should_panic]
fn parse_invalid_2() {
    ident("foo:bar:baz");
}

#[test]
fn equality() {
    assert_eq!(ident("minecraft:my.identifier"), ident("my.identifier"));
}

#[test]
fn equal_hash() {
    let mut h1 = DefaultHasher::new();
    ident("minecraft:my.identifier").hash(&mut h1);

    let mut h2 = DefaultHasher::new();
    ident("my.identifier").hash(&mut h2);

    assert_eq!(h1.finish(), h2.finish());
}

#[test]
fn ident_default_namespace_is_minecraft() {
    let id = ident("apple");
    assert_eq!(id.namespace(), "minecraft");
    assert_eq!(id.path(), "apple");
    assert_eq!(id.into_string(), "minecraft:apple");
}

#[test]
fn ident_rejects_bad_characters() {
    assert!(Ident::new("Upper:case".to_owned()).is_err());
    assert!(Ident::new("ns:pa th".to_owned()).is_err());
    assert!(Ident::new("ns/x:path".to_owned()).is_err());
    assert!(Ident::new("ns:".to_owned()).is_err());
    let e = Ident::new("a:b:c".to_owned()).unwrap_err();
    assert_eq!(e.0, "a:b:c");
}

#[test]
fn ident_different_namespaces_differ() {
    assert_ne!(ident("a:x"), ident("b:x"));
    assert_ne!(ident("a:x"), ident("a:y"));
}

#[test]
fn ident_encode_decode() {
    let mut buf = Vec::new();
    ident("valence:frobnicator").encode(&mut buf).unwrap();
    assert_eq!(buf[0] as usize, "valence:frobnicator".len());
    let mut r = &buf[..];
    let id = Ident::decode(&mut r).unwrap();
    assert!(r.is_empty());
    assert_eq!(id.as_str(), "valence:frobnicator");

    let mut buf = Vec::new();
    valence::protocol::encode_string_bounded("Bad Ident", 0, 100, &mut buf).unwrap();
    assert!(Ident::decode(&mut &buf[..]).is_err());
}

#[test]
fn borrowed_and_owned_views_keep_the_identifier() {
    let id = Ident::new("ns:path/x".to_string()).unwrap();
    let b = id.as_str_ident();
    assert_eq!(b.as_str(), "ns:path/x");
    assert_eq!(b.namespace(), "ns");
    assert_eq!(b.path(), "path/x");
    let o = id.to_owned_ident();
    assert_eq!(o.as_str(), "ns:path/x");
    assert_eq!(o.path(), "path/x");
    let bare = Ident::new("stone".to_string()).unwrap();
    assert_eq!(bare.to_owned_ident().namespace(), "minecraft");
}
