use lan_speed_test::server::{
    filler_chunk, listening_port, next_chunk, parse_port, CHUNK_BYTES, DEFAULT_PORT,
    REQUEST_BODY_LIMIT,
};

#[test]
fn server_defaults() {
    assert_eq!(DEFAULT_PORT, 30000);
    assert_eq!(CHUNK_BYTES, 64 * 1024);
    assert_eq!(REQUEST_BODY_LIMIT, 64 * 1024);
    assert_eq!(listening_port(None), Some(30000));
}

#[test]
fn port_argument_is_read() {
    assert_eq!(listening_port(Some("8080")), Some(8080));
    assert_eq!(listening_port(Some("0")), Some(0));
    assert_eq!(listening_port(Some("65535")), Some(65535));
    assert_eq!(listening_port(Some("+443")), Some(443));
    assert_eq!(listening_port(Some("00080")), Some(80));
}

#[test]
fn port_that_is_no_number_is_refused() {
    let texts = ["", "+", "-1", "65536", "http", "80 ", " 80", "8o", "++1", "1+", "99999999999", "٣"];
    for text in texts {
        assert_eq!(parse_port(text), None, "{:?}", text);
        assert_eq!(parse_port(text), text.parse::<u16>().ok(), "{:?}", text);
    }
}

#[test]
fn port_reading_agrees_with_the_integer_parser() {
    let texts = ["0", "1", "30000", "65535", "65536", "+0", "+65535", "+65536", "007", "+007", "-0", "1e3"];
    for text in texts {
        assert_eq!(parse_port(text), text.parse::<u16>().ok(), "{:?}", text);
    }
}

#[test]
fn filler_is_sixty_four_kibibytes_of_zeros() {
    let chunk = filler_chunk();
    assert_eq!(chunk.len(), 65536);
    assert!(chunk.iter().all(|b| *b == 0));
}

#[test]
fn stream_ends_when_shutdown_is_requested() {
    assert_eq!(next_chunk(true), None);
    assert_eq!(next_chunk(false), Some(vec![0u8; 65536]));
}
