use repo_mirror::json::Json;
use repo_mirror::listing::{
    listing_result, parse_error_object, parse_listing, remote_error_from_json,
    repositories_from_documents, repository_from_json, ListError, RemoteError, Repository,
};

fn pairs(v: &[Repository]) -> Vec<(String, String)> {
    v.iter().map(|r| (r.name.clone(), r.ssh_url.clone())).collect()
}

fn owned(v: &[(&str, &str)]) -> Vec<(String, String)> {
    v.iter().map(|(a, b)| (a.to_string(), b.to_string())).collect()
}

#[test]
fn pages_are_flattened_in_order() {
    let out = br#"[{"name":"a","ssh_url":"git@host:alice/a.git"}]
[{"name":"b","ssh_url":"git@host:alice/b.git","id":7},{"name":"c","ssh_url":"git@host:alice/c.git","private":false}]"#;
    let repos = parse_listing(out).unwrap();
    assert_eq!(
        pairs(&repos),
        owned(&[
            ("a", "git@host:alice/a.git"),
            ("b", "git@host:alice/b.git"),
            ("c", "git@host:alice/c.git"),
        ])
    );
}

#[test]
fn same_items_whatever_the_page_split() {
    let one = br#"[{"name":"a","ssh_url":"u1"},{"name":"b","ssh_url":"u2"},{"name":"c","ssh_url":"u3"}]"#;
    let three = br#"[{"name":"a","ssh_url":"u1"}][][{"name":"b","ssh_url":"u2"}] [{"name":"c","ssh_url":"u3"}]"#;
    let a = parse_listing(one).unwrap();
    let b = parse_listing(three).unwrap();
    assert_eq!(a.len(), 3);
    assert_eq!(pairs(&a), pairs(&b));
}

#[test]
fn empty_output_is_an_empty_listing() {
    assert_eq!(parse_listing(b"").unwrap().len(), 0);
    assert_eq!(parse_listing(b"[]\n[]\n").unwrap().len(), 0);
}

#[test]
fn nested_members_are_ignored() {
    let out = br#"[{"owner":{"login":"alice","ids":[1,2.5,null]},"name":"x","ssh_url":"git@host:alice/x.git"}]"#;
    let repos = parse_listing(out).unwrap();
    assert_eq!(pairs(&repos), owned(&[("x", "git@host:alice/x.git")]));
}

#[test]
fn malformed_listing_is_a_syntax_error() {
    let r = parse_listing(br#"[{"name":"a","ssh_url":"u1"}][{"name":"#);
    assert!(matches!(r, Err(ListError::Syntax(_))));
}

#[test]
fn page_that_is_not_an_array_is_refused() {
    let r = parse_listing(br#"[{"name":"a","ssh_url":"u1"}]{"message":"x"}"#);
    assert!(matches!(r, Err(ListError::UnexpectedListing)));
}

#[test]
fn item_without_url_is_refused() {
    let r = parse_listing(br#"[{"name":"a","ssh_url":"u1"},{"name":"b"}]"#);
    assert!(matches!(r, Err(ListError::UnexpectedListing)));
    let r = parse_listing(br#"[{"name":"a","ssh_url":5}]"#);
    assert!(matches!(r, Err(ListError::UnexpectedListing)));
}

#[test]
fn failed_listing_reports_remote_error() {
    let out = br#"{"message":"Not Found","documentation_url":"https://docs.example/rest"}"#;
    match listing_result(false, out) {
        Err(ListError::Remote(e)) => {
            assert_eq!(e.message, "Not Found");
            assert_eq!(e.documentation_url.as_deref(), Some("https://docs.example/rest"));
        }
        other => panic!("unexpected {other:?}"),
    }
}

#[test]
fn remote_error_without_link() {
    match parse_error_object(br#"{"message":"Bad credentials"}"#) {
        ListError::Remote(e) => {
            assert_eq!(e.message, "Bad credentials");
            assert_eq!(e.documentation_url, None);
        }
        other => panic!("unexpected {other:?}"),
    }
    match parse_error_object(br#"{"message":"Gone","documentation_url":null}"#) {
        ListError::Remote(e) => assert_eq!(e.documentation_url, None),
        other => panic!("unexpected {other:?}"),
    }
}

#[test]
fn failed_listing_with_garbage_is_a_syntax_error() {
    let r = listing_result(false, b"gh: command failed");
    assert!(matches!(r, Err(ListError::Syntax(_))));
}

#[test]
fn failed_listing_never_yields_repositories() {
    let r = listing_result(false, br#"[{"name":"a","ssh_url":"u1"}]"#);
    assert!(matches!(r, Err(ListError::UnexpectedErrorObject)));
    let r = listing_result(false, br#"{"message":3}"#);
    assert!(matches!(r, Err(ListError::UnexpectedErrorObject)));
}

#[test]
fn successful_listing_goes_through_the_page_decoder() {
    let r = listing_result(true, br#"[{"name":"a","ssh_url":"u1"}]"#).unwrap();
    assert_eq!(pairs(&r), owned(&[("a", "u1")]));
}

#[test]
fn remote_error_text() {
    let e = RemoteError {
        message: "Not Found".to_string(),
        documentation_url: Some("https://docs".to_string()),
    };
    assert_eq!(e.to_text(), "GitHub error: Not Found (https://docs)");
    let e = RemoteError { message: "Oops".to_string(), documentation_url: None };
    assert_eq!(e.to_text(), "GitHub error: Oops");
}

fn repo_json(name: &str, url: &str) -> Json {
    Json::Object(vec![
        ("name".to_string(), Json::Str(name.to_string())),
        ("ssh_url".to_string(), Json::Str(url.to_string())),
        ("size".to_string(), Json::Number("12".to_string())),
    ])
}

#[test]
fn documents_to_repositories() {
    let docs = vec![
        Json::Array(vec![repo_json("a", "u1"), repo_json("b", "u2")]),
        Json::Array(vec![]),
        Json::Array(vec![repo_json("c", "u3")]),
    ];
    let v = repositories_from_documents(&docs).unwrap();
    assert_eq!(pairs(&v), owned(&[("a", "u1"), ("b", "u2"), ("c", "u3")]));
    let bad = vec![Json::Array(vec![repo_json("a", "u1")]), Json::Null];
    assert!(repositories_from_documents(&bad).is_none());
}

#[test]
fn repository_object_fields() {
    let r = repository_from_json(&repo_json("a", "u1")).unwrap();
    assert_eq!((r.name.as_str(), r.ssh_url.as_str()), ("a", "u1"));
    assert!(repository_from_json(&Json::Str("a".to_string())).is_none());
    let e = remote_error_from_json(&Json::Object(vec![
        ("message".to_string(), Json::Str("m".to_string())),
        ("documentation_url".to_string(), Json::Bool(true)),
    ]));
    assert!(e.is_none());
}
