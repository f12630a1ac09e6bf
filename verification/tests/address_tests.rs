use lan_speed_test::address::{
    apply_default_path, candidate_url_text, is_root_path, normalize_address, socket_url,
    AddressError, MAX_URL_CHARS,
};
use lan_speed_test::net::{Ipv4Address, SocketAddress};

#[test]
fn bare_socket_address_becomes_http_url_with_stream_path() {
    assert_eq!(
        normalize_address("192.0.2.5:30000"),
        Ok(String::from("http://192.0.2.5:30000/stream"))
    );
}

#[test]
fn url_with_root_path_gets_stream_path() {
    assert_eq!(
        normalize_address("http://host.example/"),
        Ok(String::from("http://host.example/stream"))
    );
}

#[test]
fn url_with_custom_path_is_unchanged() {
    assert_eq!(
        normalize_address("http://host.example/custom"),
        Ok(String::from("http://host.example/custom"))
    );
}

#[test]
fn url_without_path_gets_stream_path() {
    assert_eq!(
        normalize_address("http://host.example"),
        Ok(String::from("http://host.example/stream"))
    );
}

#[test]
fn query_is_kept_when_path_is_replaced() {
    assert_eq!(
        normalize_address("http://host.example/?a=1#frag"),
        Ok(String::from("http://host.example/stream?a=1#frag"))
    );
}

#[test]
fn text_that_is_no_url_is_rejected() {
    match normalize_address("not a url") {
        Err(AddressError::InvalidUrl { message }) => {
            assert_eq!(message, "relative URL without a base")
        }
        other => panic!("unexpected {:?}", other),
    }
}

#[test]
fn bracketed_ipv6_socket_address_is_rejected() {
    assert!(matches!(
        normalize_address("[::1]:30000"),
        Err(AddressError::InvalidUrl { .. })
    ));
}

#[test]
fn port_with_leading_zeros_is_written_without_them() {
    assert_eq!(
        normalize_address("10.0.0.1:0081"),
        Ok(String::from("http://10.0.0.1:81/stream"))
    );
}

#[test]
fn candidate_text_of_socket_address() {
    assert_eq!(candidate_url_text("192.0.2.5:30000"), "http://192.0.2.5:30000");
    assert_eq!(candidate_url_text("http://host.example/"), "http://host.example/");
    assert_eq!(candidate_url_text("256.0.0.1:80"), "256.0.0.1:80");
}

#[test]
fn socket_url_of_address() {
    let address = SocketAddress { ip: Ipv4Address(127, 0, 0, 1), port: 8080 };
    assert_eq!(socket_url(address), "http://127.0.0.1:8080");
}

#[test]
fn root_path_is_recognised() {
    assert!(is_root_path("/"));
    assert!(!is_root_path("/stream"));
    assert!(!is_root_path(""));
    assert!(!is_root_path("//"));
}

#[test]
fn default_path_applies_to_root_only() {
    assert_eq!(
        apply_default_path("http://h/", String::from("http://h/"), "/"),
        Ok(String::from("http://h/stream"))
    );
    assert_eq!(
        apply_default_path("http://h/x", String::from("http://h/x"), "/x"),
        Ok(String::from("http://h/x"))
    );
}

#[test]
fn overlong_url_with_root_path_is_refused() {
    let mut text = String::from("http://host.example/?");
    while text.chars().count() <= MAX_URL_CHARS {
        text.push_str(&"a".repeat(1 << 20));
    }
    assert_eq!(normalize_address(&text), Err(AddressError::TooLong));
}

#[test]
fn overlong_url_with_other_path_is_kept() {
    let mut text = String::from("http://host.example/x?");
    while text.chars().count() <= MAX_URL_CHARS {
        text.push_str(&"a".repeat(1 << 20));
    }
    assert_eq!(normalize_address(&text), Ok(text.clone()));
}

#[test]
fn url_at_the_length_limit_gets_stream_path() {
    let head = "http://host.example/?";
    let mut text = String::from(head);
    text.push_str(&"a".repeat(MAX_URL_CHARS - head.len()));
    assert_eq!(text.chars().count(), MAX_URL_CHARS);
    let mut expected = String::from("http://host.example/stream?");
    expected.push_str(&"a".repeat(MAX_URL_CHARS - head.len()));
    assert_eq!(normalize_address(&text), Ok(expected));
}
