use filum::node_id::{format_node_id, generate_alpn, parse_node_id, NodeIdError, ALPN_SIZE};

fn sample_key() -> [u8; 32] {
    let mut k = [0u8; 32];
    for (i, b) in k.iter_mut().enumerate() {
        *b = (i as u8).wrapping_mul(7).wrapping_add(3);
    }
    k
}

#[test]
fn format_node_id_of_zero_key() {
    let id = format_node_id(&[0u8; 32], "abc");
    assert_eq!(id, format!("{}=.abc", "A".repeat(43)));
}

#[test]
fn format_then_parse_gives_back_key_and_alpn() {
    let alpn = generate_alpn();
    let id = format_node_id(&sample_key(), &alpn);
    let ticket = parse_node_id(&id).unwrap();
    assert_eq!(ticket.key, sample_key());
    assert_eq!(ticket.alpn, alpn.as_bytes().to_vec());
}

#[test]
fn parse_decodes_the_base64_segment() {
    let id = format!("{}=.proto", "A".repeat(43));
    let ticket = parse_node_id(&id).unwrap();
    assert_eq!(ticket.key, [0u8; 32]);
    assert_eq!(ticket.alpn, b"proto".to_vec());
}

#[test]
fn parse_refuses_identifier_without_dot() {
    let id = format!("{}=", "A".repeat(43));
    assert_eq!(parse_node_id(&id).err(), Some(NodeIdError::Segments));
}

#[test]
fn parse_refuses_identifier_with_two_dots() {
    let id = format!("{}=.ab.cd", "A".repeat(43));
    assert_eq!(parse_node_id(&id).err(), Some(NodeIdError::Segments));
    assert_eq!(parse_node_id("..").err(), Some(NodeIdError::Segments));
}

#[test]
fn parse_refuses_short_key() {
    let id = format_node_id(&[1u8; 32], "x");
    let short = format!("{}.x", "AQEBAQEBAQEBAQEBAQEBAQEBAQEBAQEBAQEB");
    assert!(parse_node_id(&id).is_ok());
    assert_eq!(parse_node_id(&short).err(), Some(NodeIdError::KeyLength));
}

#[test]
fn parse_refuses_long_key() {
    let long = format!("{}.x", "A".repeat(48));
    assert_eq!(parse_node_id(&long).err(), Some(NodeIdError::KeyLength));
}

#[test]
fn parse_refuses_bad_base64() {
    assert_eq!(parse_node_id("!!!!.alpn").err(), Some(NodeIdError::Encoding));
}

#[test]
fn parse_empty_key_segment() {
    assert_eq!(parse_node_id(".alpn").err(), Some(NodeIdError::KeyLength));
}

#[test]
fn generated_alpn_is_32_safe_characters() {
    let alpn = generate_alpn();
    assert_eq!(alpn.chars().count(), ALPN_SIZE);
    assert!(alpn.chars().all(|c| c.is_ascii_alphanumeric() || c == '_' || c == '-'));
    assert_ne!(generate_alpn(), alpn);
}
