//! Announcing endpoints.
use peppylib::endpoints::{
    AnnouncedEndpoint, AnnouncedEndpoints, EndpointAddress, EndpointBinding,
};
use peppylib::error::Error;

fn declared(labels: &[&str]) -> AnnouncedEndpoints {
    AnnouncedEndpoints::new(labels.iter().map(|label| label.to_string()).collect())
}

fn binding(scheme: &str, address: &str, path: &str) -> EndpointBinding {
    let (host, port) = address.split_once(':').expect("a socket address");
    EndpointBinding {
        scheme: scheme.to_string(),
        address: EndpointAddress {
            host: host.to_string(),
            port: port.parse().expect("a port"),
        },
        path: path.to_string(),
    }
}

#[test]
fn a_declared_label_is_announced_once_and_sealed_in_label_order() {
    let mut endpoints = declared(&["viewer", "panel"]);
    endpoints.announce("viewer", binding("https", "0.0.0.0:8080", "/")).expect("declared");
    endpoints.announce("panel", binding("http", "127.0.0.1:8765", "")).expect("declared");
    assert!(!endpoints.is_sealed());
    let sealed = endpoints.seal().expect("every declared label is announced");
    assert!(endpoints.is_sealed());
    assert_eq!(
        sealed,
        vec![
            AnnouncedEndpoint {
                label: "panel".to_string(),
                binding: binding("http", "127.0.0.1:8765", ""),
            },
            AnnouncedEndpoint {
                label: "viewer".to_string(),
                binding: binding("https", "0.0.0.0:8080", "/"),
            },
        ]
    );
    assert_eq!(endpoints.seal().expect("sealing again answers the set"), sealed);
}

#[test]
fn an_undeclared_label_is_refused() {
    let mut endpoints = declared(&["panel"]);
    let error = endpoints
        .announce("viewer", binding("http", "127.0.0.1:8765", ""))
        .expect_err("undeclared");
    assert!(matches!(error, Error::UndeclaredEndpoint { ref label } if label == "viewer"));
    assert!(error.describe().contains("`viewer`"), "{error:?}");
}

#[test]
fn a_second_announcement_of_one_label_is_refused() {
    let mut endpoints = declared(&["panel"]);
    endpoints.announce("panel", binding("http", "127.0.0.1:8765", "")).expect("first");
    let error = endpoints
        .announce("panel", binding("http", "127.0.0.1:8766", ""))
        .expect_err("second");
    assert!(matches!(error, Error::EndpointAlreadyAnnounced { ref label } if label == "panel"));
    assert_eq!(
        endpoints.snapshot()[0].binding.address.port, 8765,
        "the first announcement stands"
    );
}

#[test]
fn an_announcement_after_the_seal_is_refused() {
    let mut endpoints = declared(&["panel", "viewer"]);
    endpoints.announce("panel", binding("http", "127.0.0.1:8765", "")).expect("first");
    endpoints.announce("viewer", binding("https", "127.0.0.1:8080", "/")).expect("second");
    endpoints.seal().expect("complete");
    let error = endpoints
        .announce("panel", binding("http", "127.0.0.1:8765", ""))
        .expect_err("sealed");
    assert!(matches!(error, Error::EndpointsSealed { ref label } if label == "panel"));
}

#[test]
fn a_malformed_scheme_or_path_is_refused_naming_the_label() {
    for scheme in ["Http", "1http", ""] {
        let mut endpoints = declared(&["panel"]);
        let error = endpoints
            .announce("panel", binding(scheme, "127.0.0.1:8765", ""))
            .expect_err("malformed scheme");
        assert!(
            matches!(error, Error::InvalidEndpointBinding { ref label, .. } if label == "panel"),
            "{error:?}"
        );
        assert!(error.describe().contains("scheme"), "{error:?}");
    }
    let mut endpoints = declared(&["panel"]);
    let error = endpoints
        .announce("panel", binding("http", "127.0.0.1:8765", "mcp"))
        .expect_err("path without a leading slash");
    assert!(matches!(error, Error::InvalidEndpointBinding { .. }), "{error:?}");
    assert!(error.describe().contains("path"), "{error:?}");
    assert!(
        endpoints.snapshot().is_empty(),
        "a refused announcement leaves nothing behind"
    );
}

#[test]
fn a_scheme_token_admits_the_uri_alphabet() {
    for scheme in ["http", "https", "ws", "coap+tcp", "x-custom.1"] {
        let mut endpoints = declared(&["panel"]);
        endpoints
            .announce("panel", binding(scheme, "127.0.0.1:8765", "/"))
            .unwrap_or_else(|error| panic!("scheme `{scheme}` is a token: {error:?}"));
    }
}

#[test]
fn a_declared_label_left_unannounced_fails_the_seal() {
    let mut endpoints = declared(&["panel", "viewer"]);
    endpoints.announce("panel", binding("http", "127.0.0.1:8765", "")).expect("first");
    let error = endpoints.seal().expect_err("viewer is missing");
    assert!(matches!(error, Error::EndpointNotAnnounced { ref label } if label == "viewer"));
    assert!(error.describe().contains("`viewer`"), "{error:?}");
    endpoints.announce("viewer", binding("http", "h:1", "")).expect("an incomplete set stays open");
    assert_eq!(endpoints.seal().expect("complete now").len(), 2);
}

#[test]
fn a_manifest_declaring_nothing_seals_empty() {
    let mut endpoints = declared(&[]);
    assert!(!endpoints.declares_any());
    assert!(endpoints.seal().expect("nothing to check").is_empty());
    assert!(declared(&["panel"]).declares_any());
}

#[test]
fn a_refused_binding_says_why() {
    assert_eq!(
        binding("Http", "h:1", "").validate(),
        Err("scheme `Http` is not a URI scheme token (lowercase letters, digits, `+`, `.` and `-`, starting with a letter)".to_string())
    );
    assert_eq!(
        binding("http", "h:1", "mcp").validate(),
        Err("path `mcp` must be empty or start with `/`".to_string())
    );
    assert_eq!(binding("http", "h:1", "/mcp").validate(), Ok(()));
}
