use hcidoc::gap::{GapData, GapDataType, GapParseError};

#[test]
fn parse_empty_buffer_is_an_error() {
    let r = GapData::parse(&[]);
    assert_eq!(r.err(), Some("no data to parse".to_string()));
    assert_eq!(GapData::decode(&[]).err(), Some(GapParseError::NoData));
}

#[test]
fn parse_single_zero_is_padding() {
    let g = GapData::parse(&[0]).unwrap();
    assert_eq!(g.data_type, GapDataType::Invalid);
    assert_eq!(g.data, Vec::<u8>::new());
}

#[test]
fn parse_single_nonzero_is_an_error() {
    let r = GapData::parse(&[7]);
    assert_eq!(r.err(), Some("can't parse 1 byte of data: 7".to_string()));
    assert_eq!(GapData::decode(&[255]).err(), Some(GapParseError::LoneByte(255)));
    assert_eq!(GapParseError::LoneByte(255).to_string(), "can't parse 1 byte of data: 255");
}

#[test]
fn parse_zero_length_is_padding() {
    let g = GapData::parse(&[0, 0, 0, 0, 0]).unwrap();
    assert_eq!(g.data_type, GapDataType::Invalid);
    assert_eq!(g.data, Vec::<u8>::new());
    let g = GapData::parse(&[0, 9]).unwrap();
    assert_eq!(g.data_type, GapDataType::Invalid);
    assert_eq!(g.data, Vec::<u8>::new());
}

#[test]
fn parse_length_beyond_buffer_is_an_error() {
    let r = GapData::parse(&[5, 9, 65, 66]);
    assert_eq!(r.err(), Some("size 5 is bigger than remaining length 3".to_string()));
    assert_eq!(
        GapData::decode(&[5, 9, 65, 66]).err(),
        Some(GapParseError::SizeExceedsData { size: 5, remaining: 3 })
    );
    // the length may take all that is left, and no more
    assert!(GapData::parse(&[3, 9, 65, 66]).is_ok());
    assert!(GapData::parse(&[4, 9, 65, 66]).is_err());
}

#[test]
fn parse_unknown_type_is_an_error() {
    let r = GapData::parse(&[2, 0x0B, 1]);
    assert_eq!(r.err(), Some("can't parse data type 11".to_string()));
    assert_eq!(GapData::decode(&[2, 0x0B, 1]).err(), Some(GapParseError::UnknownType(0x0B)));
}

#[test]
fn parse_record_with_payload() {
    let g = GapData::parse(&[4, 0x09, b'a', b'b', b'c', 2, 1, 6]).unwrap();
    assert_eq!(g.data_type, GapDataType::CompleteLocalName);
    assert_eq!(g.data, b"abc".to_vec());
}

#[test]
fn parse_record_without_payload() {
    let g = GapData::parse(&[1, 0x01, 9, 9]).unwrap();
    assert_eq!(g.data_type, GapDataType::Flags);
    assert_eq!(g.data, Vec::<u8>::new());
}

#[test]
fn type_codes_round_trip() {
    let mut known = 0;
    for code in 0..=255u8 {
        if let Some(t) = GapDataType::from_code(code) {
            assert_eq!(t.to_code(), code);
            known += 1;
        }
    }
    assert_eq!(known, 45);
    assert_eq!(GapDataType::from_code(0x08), Some(GapDataType::ShortenedLocalName));
    assert_eq!(GapDataType::from_code(0x09), Some(GapDataType::CompleteLocalName));
    assert_eq!(GapDataType::from_code(0xFF), Some(GapDataType::ManufacturerSpecificData));
    assert_eq!(GapDataType::from_code(0x0B), None);
    assert!(GapDataType::CompleteLocalName.is_local_name());
    assert!(GapDataType::ShortenedLocalName.is_local_name());
    assert!(!GapDataType::Flags.is_local_name());
}

#[test]
fn records_are_decoded_in_turn() {
    let bytes = [2, 1, 6, 4, 9, b'a', b'b', b'c', 3, 0xFF, 1, 2];
    let recs = GapData::parse_records(&bytes);
    assert_eq!(recs.len(), 3);
    assert_eq!(recs[0].data_type, GapDataType::Flags);
    assert_eq!(recs[0].data, vec![6]);
    assert_eq!(recs[1].data_type, GapDataType::CompleteLocalName);
    assert_eq!(recs[1].data, b"abc".to_vec());
    assert_eq!(recs[2].data_type, GapDataType::ManufacturerSpecificData);
    assert_eq!(recs[2].data, vec![1, 2]);
}

#[test]
fn records_stop_at_first_malformed() {
    let bytes = [2, 1, 6, 9, 9, b'a'];
    let recs = GapData::parse_records(&bytes);
    assert_eq!(recs.len(), 1);
    assert_eq!(recs[0].data, vec![6]);
    assert_eq!(GapData::parse_records(&[]).len(), 0);
    assert_eq!(GapData::parse_records(&[3]).len(), 0);
}

#[test]
fn padding_is_passed_over_two_octets_at_a_time() {
    let bytes = [2, 1, 6, 0, 0, 2, 9, b'a'];
    let recs = GapData::parse_records(&bytes);
    assert_eq!(recs.len(), 3);
    assert_eq!(recs[1].data_type, GapDataType::Invalid);
    assert_eq!(recs[1].data, Vec::<u8>::new());
    assert_eq!(recs[2].data_type, GapDataType::CompleteLocalName);
    assert_eq!(recs[2].data, vec![b'a']);
    // padding to the end of the buffer, of even and odd length
    let recs = GapData::parse_records(&[2, 1, 6, 0, 0, 0, 0]);
    assert_eq!(recs.len(), 3);
    let recs = GapData::parse_records(&[2, 1, 6, 0, 0, 0]);
    assert_eq!(recs.len(), 3);
    assert!(recs[1..].iter().all(|r| r.data_type == GapDataType::Invalid && r.data.is_empty()));
    // a lone zero at the end is padding too
    let recs = GapData::parse_records(&[2, 1, 6, 0]);
    assert_eq!(recs.len(), 2);
    assert_eq!(recs[1].data, Vec::<u8>::new());
}

#[test]
fn decoded_records_reconstruct_the_buffer() {
    let bytes = [2, 1, 6, 4, 9, b'a', b'b', b'c', 1, 0x0A];
    let recs = GapData::parse_records(&bytes);
    let mut again: Vec<u8> = Vec::new();
    for rec in &recs {
        again.push((rec.data.len() + 1) as u8);
        again.push(rec.data_type.to_code());
        again.extend_from_slice(&rec.data);
    }
    assert_eq!(again, bytes.to_vec());
}
