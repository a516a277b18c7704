//! The hash family: string hash, case-insensitive hash, URI hash and the
//! MD5-base36 archive key, held to the managed runtime's known values.
use javabox::digest::{hash_hex, md5decimal};
use javabox::java_hash::{hash, hash_ignoring_case, java_string_hash, normalized_hash};
use javabox::uri::{java_uri_hash, parse_url, UriHashError, UriParts};

#[test]
fn test_parts() {
    assert_eq!(99617003, hash_ignoring_case(0, "https"));
    assert_eq!(-1920266189, java_string_hash("seznam.cz"));
    assert_eq!(47, java_string_hash("/"));
    assert_eq!(0, java_string_hash(""));
    assert_eq!(
        -851661731,
        java_string_hash("/maven2/org/apache/maven/apache-maven/3.8.6/apache-maven-3.8.6-bin.zip")
    );
}

#[test]
fn test_mvn_hasher() {
    let url = parse_url(
        "https://repo.maven.apache.org/maven2/org/apache/maven/apache-maven/3.8.6/apache-maven-3.8.6-bin.zip",
    )
    .unwrap();
    let h = java_uri_hash(&url).unwrap();
    assert_eq!(1733723188, h);
}

#[test]
fn test_seznam_hasher() {
    let url = parse_url("https://seznam.cz/").unwrap();
    assert_eq!(-1242908590, java_uri_hash(&url).unwrap());
    let url = parse_url("https://seznam.cz/Hello").unwrap();
    assert_eq!(-150014690, java_uri_hash(&url).unwrap());
}

#[test]
fn test_md5radix36() {
    assert_eq!(
        "260hg96vuh6ex27h9vo47iv4d",
        md5decimal("https://services.gradle.org/distributions/gradle-7.2-all.zip")
    )
}

#[test]
fn parse_url_decomposes() {
    let url = parse_url("https://seznam.cz:8443/Hello?q=1#frag").unwrap();
    assert_eq!("https", url.scheme);
    assert_eq!(Some("seznam.cz".to_string()), url.host);
    assert_eq!(Some(8443), url.port);
    assert_eq!("/Hello", url.path);
    assert_eq!(Some("q=1".to_string()), url.query);
    assert_eq!(Some("frag".to_string()), url.fragment);
    assert_eq!("https://seznam.cz:8443/Hello?q=1#frag", url.full);
    assert!(parse_url("not a url").is_none());
}

#[test]
fn uri_hash_with_explicit_port() {
    // port folds in as port * 1949 instead of -1949
    let with_port = parse_url("https://seznam.cz:80/").unwrap();
    let no_port = parse_url("https://seznam.cz/").unwrap();
    let hp = java_uri_hash(&with_port).unwrap();
    let h = java_uri_hash(&no_port).unwrap();
    assert_eq!(
        (hp as i64 - 80 * 1949) as i32,
        (h as i64 - (-1949)) as i32
    );
}

#[test]
fn uri_hash_with_query_and_fragment() {
    let url = parse_url("https://seznam.cz/p?q=1#frag").unwrap();
    assert_eq!(837075787, java_uri_hash(&url).unwrap());
}

#[test]
fn uri_hash_with_percent_encoded_path() {
    // the path holds a %, so its percent-normalized hash is folded in
    let url = parse_url("https://seznam.cz/a%2fb").unwrap();
    assert_eq!(621364902, java_uri_hash(&url).unwrap());
}

#[test]
fn uri_hash_unsupported_inputs() {
    let opaque = UriParts {
        scheme: "mailto".to_string(),
        host: None,
        port: None,
        path: "user@example.org".to_string(),
        query: None,
        fragment: None,
        full: "mailto:user@example.org".to_string(),
    };
    assert_eq!(Err(UriHashError::OpaqueScheme), java_uri_hash(&opaque));
    let hostless = UriParts {
        scheme: "file".to_string(),
        host: None,
        port: None,
        path: "/tmp/x.zip".to_string(),
        query: None,
        fragment: None,
        full: "file:///tmp/x.zip".to_string(),
    };
    assert_eq!(Err(UriHashError::NoAuthority), java_uri_hash(&hostless));
}

#[test]
fn percent_normalization_uppercases_escapes() {
    // the two characters after each % are upper-cased before hashing
    assert_eq!(hash(7, "a%2fb"), hash(7, "a%2Fb"));
    assert_eq!(normalized_hash(7, "x%aay"), normalized_hash(7, "x%AAy"));
    // without a %, the combinator hashes the component verbatim
    assert_eq!(
        hash(3, "abc"),
        3i32.wrapping_mul(127).wrapping_add(java_string_hash("abc"))
    );
}

#[test]
fn hash_hex_renders_unsigned() {
    assert_eq!("67568434", hash_hex(1733723188));
    assert_eq!("0", hash_hex(0));
    assert_eq!("ffffffff", hash_hex(-1));
}
