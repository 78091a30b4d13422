use wok::addr::{parse_listen_addr, Proto};
use wok::reference::{ImageReference, Reference};

#[test]
fn correctly_parses_string() {
    let reference = Reference::parse("webassembly.azurecr.io/hello:v1".to_owned())
        .expect("Could not parse reference");

    assert_eq!(reference.registry(), "webassembly.azurecr.io");
    assert_eq!(reference.repository(), "hello");
    assert_eq!(reference.tag(), "v1");
}

#[test]
fn parse_keeps_whole_string() {
    let reference = Reference::parse("webassembly.azurecr.io/hello:v1".to_owned()).unwrap();
    assert_eq!(reference.whole(), "webassembly.azurecr.io/hello:v1");
}

#[test]
fn parse_rejects_missing_slash() {
    assert!(Reference::parse("webassembly.azurecr.io:v1".to_owned()).is_err());
    assert!(Reference::parse("hello".to_owned()).is_err());
}

#[test]
fn parse_rejects_missing_colon() {
    assert!(Reference::parse("webassembly.azurecr.io/hello".to_owned()).is_err());
}

#[test]
fn parse_rejects_empty_parts() {
    assert!(Reference::parse("/hello:v1".to_owned()).is_err());
    assert!(Reference::parse("registry/:v1".to_owned()).is_err());
    assert!(Reference::parse("registry/hello:".to_owned()).is_err());
    assert!(Reference::parse("".to_owned()).is_err());
}

#[test]
fn parse_takes_first_separators() {
    let reference = Reference::parse("a.io/b:c:d".to_owned()).unwrap();
    assert_eq!(reference.registry(), "a.io");
    assert_eq!(reference.repository(), "b");
    assert_eq!(reference.tag(), "c:d");
}

#[test]
fn image_reference_splits_borrowed() {
    let whole = "foo/bar:baz".to_owned();
    let image_ref = ImageReference::parse(&whole).expect("Image ref is malformed");
    assert_eq!(image_ref.whole, "foo/bar:baz");
    assert_eq!(image_ref.registry, "foo");
    assert_eq!(image_ref.repo, "bar");
    assert_eq!(image_ref.tag, "baz");

    let bad = "foobar".to_owned();
    assert!(ImageReference::parse(&bad).is_err());
}

#[test]
fn listen_addr_accepts_unix_and_tcp() {
    let (proto, addr) = parse_listen_addr("unix:///tmp/wok.sock").expect("unix address");
    assert_eq!(proto, Proto::Unix);
    assert_eq!(addr, "/tmp/wok.sock");

    let (proto, addr) = parse_listen_addr("tcp://0.0.0.0:50051").expect("tcp address");
    assert_eq!(proto, Proto::Tcp);
    assert_eq!(addr, "0.0.0.0:50051");
}

#[test]
fn listen_addr_rejects_bad_shapes() {
    assert!(parse_listen_addr("http://example").is_err());
    assert!(parse_listen_addr("no-separator").is_err());
    assert!(parse_listen_addr("unix://a://b").is_err());
    assert!(parse_listen_addr("://addr").is_err());
}
