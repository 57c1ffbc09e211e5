//! The IPP wire codec: round trips and each rejection.

use airprinter::errors::ParseError;
use airprinter::ipp_msg::{encode, Attribute, AttributeGroup, IppMessage};
use airprinter::ipp_decode::decode;

fn attr(vtag: u8, name: &str, value: &[u8]) -> Attribute {
    Attribute { vtag, name: name.as_bytes().to_vec(), value: value.to_vec() }
}

fn sample_message(payload: Option<Vec<u8>>) -> IppMessage {
    IppMessage {
        version_major: 2,
        version_minor: 0,
        op_or_status: 0x0002,
        request_id: 44,
        groups: vec![
            AttributeGroup {
                gtag: 0x01,
                attributes: vec![
                    attr(0x47, "attributes-charset", b"utf-8"),
                    attr(0x48, "attributes-natural-language", b"en"),
                ],
            },
            AttributeGroup {
                gtag: 0x02,
                attributes: vec![
                    attr(0x21, "copies", &[0, 0, 0, 3]),
                    attr(0x44, "sides", b"two-sided-long-edge"),
                ],
            },
        ],
        payload,
    }
}

#[test]
fn encode_then_decode_reproduces_message() {
    let m = sample_message(Some(vec![9, 8, 7, 6]));
    let bytes = encode(&m);
    let back = decode(&bytes).expect("well-formed message must decode");
    assert_eq!(back.version_major, 2);
    assert_eq!(back.version_minor, 0);
    assert_eq!(back.op_or_status, 0x0002);
    assert_eq!(back.request_id, 44);
    assert_eq!(back.groups.len(), 2);
    assert_eq!(back.groups[0].gtag, 0x01);
    assert_eq!(back.groups[0].attributes.len(), 2);
    assert_eq!(back.groups[0].attributes[0].name, b"attributes-charset".to_vec());
    assert_eq!(back.groups[0].attributes[0].value, b"utf-8".to_vec());
    assert_eq!(back.groups[1].attributes[1].value, b"two-sided-long-edge".to_vec());
    assert_eq!(back.payload, Some(vec![9, 8, 7, 6]));
}

#[test]
fn decode_then_encode_reproduces_bytes_exactly() {
    let m = sample_message(None);
    let bytes = encode(&m);
    let back = decode(&bytes).expect("decodes");
    let again = encode(&back);
    assert_eq!(bytes, again);
}

#[test]
fn hand_written_bytes_survive_decode_encode() {
    // header | operation group | one keyword attribute | end | payload
    let mut b: Vec<u8> = vec![2, 0, 0x00, 0x0B, 0, 0, 0, 42];
    b.push(0x01); // operation group
    b.push(0x44); // keyword
    b.extend_from_slice(&[0, 5]); // name length
    b.extend_from_slice(b"sides");
    b.extend_from_slice(&[0, 9]); // value length
    b.extend_from_slice(b"one-sided");
    b.push(0x03); // end of attributes
    b.extend_from_slice(&[1, 2, 3]);
    let m = decode(&b).expect("decodes");
    assert_eq!(encode(&m), b);
}

#[test]
fn header_is_big_endian() {
    let b: Vec<u8> = vec![2, 0, 0x04, 0x01, 0x00, 0x00, 0x01, 0x00, 0x03];
    let m = decode(&b).expect("decodes");
    assert_eq!(m.op_or_status, 0x0401);
    assert_eq!(m.request_id, 256);
    assert_eq!(m.groups.len(), 0);
    assert_eq!(m.payload, None);
}

#[test]
fn short_input_is_rejected() {
    assert_eq!(decode(&vec![]).unwrap_err(), ParseError::Short);
    assert_eq!(decode(&vec![2, 0, 0, 11, 0, 0, 0, 42]).unwrap_err(), ParseError::Short);
}

#[test]
fn unknown_delimiter_is_rejected() {
    let b: Vec<u8> = vec![2, 0, 0, 11, 0, 0, 0, 42, 0x07];
    assert_eq!(decode(&b).unwrap_err(), ParseError::BadTag);
}

#[test]
fn truncated_attribute_is_rejected() {
    let b: Vec<u8> = vec![2, 0, 0, 11, 0, 0, 0, 42, 0x01, 0x47, 0x00];
    assert_eq!(decode(&b).unwrap_err(), ParseError::Truncated);
}

#[test]
fn missing_end_tag_is_rejected() {
    let b: Vec<u8> = vec![2, 0, 0, 11, 0, 0, 0, 42, 0x01];
    assert_eq!(decode(&b).unwrap_err(), ParseError::Truncated);
}

#[test]
fn boolean_of_wrong_length_is_rejected() {
    let mut b: Vec<u8> = vec![2, 0, 0, 11, 0, 0, 0, 42, 0x01];
    b.push(0x22); // boolean
    b.extend_from_slice(&[0, 1]);
    b.push(b'x');
    b.extend_from_slice(&[0, 2]); // two value bytes: invalid for a boolean
    b.extend_from_slice(&[1, 1]);
    b.push(0x03);
    assert_eq!(decode(&b).unwrap_err(), ParseError::BadValue);
}

#[test]
fn integer_of_wrong_length_is_rejected() {
    let mut b: Vec<u8> = vec![2, 0, 0, 11, 0, 0, 0, 42, 0x01];
    b.push(0x21); // integer
    b.extend_from_slice(&[0, 6]);
    b.extend_from_slice(b"copies");
    b.extend_from_slice(&[0, 2]); // two value bytes: invalid for an integer
    b.extend_from_slice(&[0, 3]);
    b.push(0x03);
    assert_eq!(decode(&b).unwrap_err(), ParseError::BadValue);
}

#[test]
fn unknown_value_tags_are_preserved() {
    let mut b: Vec<u8> = vec![2, 0, 0, 11, 0, 0, 0, 42, 0x01];
    b.push(0x30); // octetString: carried through untouched
    b.extend_from_slice(&[0, 3]);
    b.extend_from_slice(b"odd");
    b.extend_from_slice(&[0, 2]);
    b.extend_from_slice(&[0xFF, 0xFE]);
    b.push(0x03);
    let m = decode(&b).expect("unknown value tags still parse");
    assert_eq!(m.groups[0].attributes[0].vtag, 0x30);
    assert_eq!(m.groups[0].attributes[0].value, vec![0xFF, 0xFE]);
    assert_eq!(encode(&m), b);
}

#[test]
fn multi_valued_attribute_members_round_trip() {
    let mut b: Vec<u8> = vec![2, 0, 0, 11, 0, 0, 0, 7, 0x04];
    b.push(0x44);
    b.extend_from_slice(&[0, 13]);
    b.extend_from_slice(b"urf-supported");
    b.extend_from_slice(&[0, 4]);
    b.extend_from_slice(b"V1.4");
    b.push(0x44);
    b.extend_from_slice(&[0, 0]); // continuation member: empty name
    b.extend_from_slice(&[0, 2]);
    b.extend_from_slice(b"W8");
    b.push(0x03);
    let m = decode(&b).expect("decodes");
    assert_eq!(m.groups[0].attributes.len(), 2);
    assert_eq!(m.groups[0].attributes[1].name.len(), 0);
    assert_eq!(m.groups[0].attributes[1].value, b"W8".to_vec());
    assert_eq!(encode(&m), b);
}
