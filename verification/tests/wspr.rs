use wspr::convolve;
use wspr::interleave;
use wspr::wspr::prepend_space;
use wspr::wspr::source_encode_callsign;
use wspr::wspr::source_encode_locator_power;
use wspr::ErrorCode;
use wspr::SourceFrame;
use wspr::WSPRMessage;

#[test]
fn test_src_encode_error_callsign_too_short() {
    let callsign = "DB"; // too short
    let e = source_encode_callsign(callsign);
    assert_eq!(e.unwrap_err(), ErrorCode::CallsignEncodeError);
}

#[test]
fn test_src_encode_error_callsign_too_long() {
    let callsign = "XXXXXXX"; // longer than 6 chars
    let e = source_encode_callsign(callsign);
    assert_eq!(e.unwrap_err(), ErrorCode::CallsignEncodeError);
}

#[test]
fn test_src_encode_error_callsign_3rd_not_none() {
    let callsign = "DDDDDD"; // 3rd char is NaN
    let e = source_encode_callsign(callsign);
    assert_eq!(e.unwrap_err(), ErrorCode::CallsignEncodeError);
}

#[test]
fn test_src_encode_error_callsign_3rd_nan_after_move() {
    let callsign = "2XYZ"; // 3rd char is NaN even after move
    let e = source_encode_callsign(callsign);
    assert_eq!(e.unwrap_err(), ErrorCode::CallsignEncodeError);
}

#[test]
fn test_src_encode_error_callsign_illegal_chars() {
    let callsign = "   "; // spaces only allowed in first place
    let e = source_encode_callsign(callsign);
    assert_eq!(e.unwrap_err(), ErrorCode::CallsignEncodeError);
}

#[test]
fn test_src_encode_error_callsign_not_ascii() {
    let callsign = "\u{c4}B2LA"; // letters outside A-Z are not in the alphabet
    let e = source_encode_callsign(callsign);
    assert_eq!(e.unwrap_err(), ErrorCode::CallsignEncodeError);
}

#[test]
fn test_src_encode_prepend() {
    let mut callsign: [char; 6] = ['K', '1', 'J', 'T', ' ', ' '];
    prepend_space(&mut callsign);
    assert_eq!(callsign[2], '1');
}

#[test]
fn test_src_encode_callsign() {
    let callsign = "DB2LA";
    let src_encoded = source_encode_callsign(callsign).unwrap();
    assert_eq!(src_encoded, 0x59f5895);
}

#[test]
fn test_src_encode_mixed_case_callsign() {
    let callsign = "dB2La";
    let src_encoded = source_encode_callsign(callsign).unwrap();
    assert_eq!(src_encoded, 0x59f5895);
}

#[test]
fn test_src_encode_locator_power() {
    let src_encoded = source_encode_locator_power("JO43", 30).unwrap();
    assert_eq!(src_encoded, 0x1e29de);
}

#[test]
fn test_src_encode_error_locator() {
    let src_encoded = source_encode_locator_power("ZZ43", 30); // Illegal chars in locator (only A-R)
    assert_eq!(src_encoded.unwrap_err(), ErrorCode::LocatorEncodeError);
    let locator = "JO3Z"; // Illegal chars in locator (only A-R)
    let src_encoded = source_encode_locator_power(locator, 30);
    assert_eq!(src_encoded.unwrap_err(), ErrorCode::LocatorEncodeError);
}

#[test]
fn test_src_encode_error_power() {
    let src_encoded = source_encode_locator_power("JO43", 61); // power value >60
    assert_eq!(src_encoded.unwrap_err(), ErrorCode::PowerEncodeError);
}

#[test]
fn test_packed_src_frame() {
    let src_frame = SourceFrame::new(&WSPRMessage::new("DB2LA", "JO43", 30)).unwrap();
    let packed_src_frame = src_frame.packed_src_frame();
    let reference_src_frame: [u8; 50] = [
        0, 1, 0, 1, 1, 0, 0, 1, 1, 1, 1, 1, 0, 1, 0, 1, 1, 0, 0, 0, 1, 0, 0, 1, 0, 1, 0, 1, 0, 1,
        1, 1, 1, 0, 0, 0, 1, 0, 1, 0, 0, 1, 1, 1, 0, 1, 1, 1, 1, 0,
    ];
    for (left, right) in packed_src_frame.iter().zip(reference_src_frame.iter()) {
        assert_eq!(left, right);
    }
}

#[test]
fn test_data_symbols() {
    let src_frame = SourceFrame::new(&WSPRMessage::new("DB2LA", "JO43", 30)).unwrap();
    let convolved = convolve(src_frame.packed_src_frame()).unwrap();
    let interleaved = interleave(convolved);
    let reference_data_symbols = [
        0, 1, 0, 1, 0, 0, 1, 1, 0, 1, 1, 1, 1, 1, 0, 0, 1, 0, 0, 0, 1, 0, 1, 1, 0, 0, 0, 0, 1, 1,
        1, 0, 1, 1, 0, 1, 1, 1, 1, 0, 1, 0, 0, 1, 1, 1, 0, 1, 0, 1, 1, 0, 1, 0, 0, 1, 0, 1, 0, 1,
        1, 1, 0, 0, 1, 1, 0, 0, 0, 1, 1, 0, 1, 1, 1, 1, 1, 0, 0, 1, 1, 0, 0, 0, 0, 0, 1, 1, 1, 0,
        1, 0, 1, 1, 1, 1, 1, 1, 0, 0, 1, 1, 1, 0, 0, 0, 0, 1, 0, 0, 1, 0, 1, 1, 1, 0, 0, 1, 1, 0,
        1, 0, 0, 0, 0, 0, 0, 0, 0, 0, 1, 1, 1, 1, 1, 1, 0, 0, 0, 0, 1, 0, 1, 1, 0, 1, 0, 1, 1, 1,
        1, 1, 0, 0, 0, 0, 1, 0, 1, 1, 0, 1,
    ];
    for (left, right) in interleaved.iter().zip(reference_data_symbols.iter()) {
        assert_eq!(left, right);
    }
}

#[test]
fn test_channel_symbols() {
    let encoded_wspr_msg = WSPRMessage::new("DB2LA", "JO43", 30).encode().unwrap();
    let reference_channel_symbols = [
        1, 3, 0, 2, 0, 0, 2, 2, 1, 2, 2, 2, 3, 3, 1, 0, 2, 0, 1, 0, 2, 1, 2, 3, 1, 1, 1, 0, 2, 2,
        2, 0, 2, 2, 1, 2, 2, 3, 2, 1, 2, 0, 0, 2, 2, 2, 1, 2, 1, 3, 2, 0, 3, 1, 0, 3, 0, 2, 0, 3,
        3, 2, 1, 0, 2, 2, 0, 1, 1, 2, 3, 0, 3, 2, 3, 2, 3, 0, 0, 3, 2, 0, 1, 0, 1, 1, 2, 2, 2, 1,
        3, 0, 3, 2, 3, 2, 2, 2, 1, 0, 2, 2, 2, 0, 1, 0, 0, 3, 0, 0, 3, 1, 3, 2, 3, 1, 0, 2, 3, 1,
        2, 1, 0, 0, 0, 1, 1, 1, 0, 0, 2, 2, 2, 3, 2, 3, 0, 0, 1, 1, 2, 0, 2, 2, 0, 2, 0, 3, 3, 2,
        3, 2, 1, 1, 0, 0, 2, 1, 3, 2, 0, 2,
    ];
    for (left, right) in encoded_wspr_msg
        .iter()
        .zip(reference_channel_symbols.iter())
    {
        assert_eq!(left, right);
    }
}

#[test]
fn test_sync_vector_in_symbols() {
    // the low bit of every channel symbol is the protocol's sync vector
    let symbols = WSPRMessage::new("DB2LA", "JO43", 30).encode().unwrap();
    let sync_vector: [u8; 162] = [
        1, 1, 0, 0, 0, 0, 0, 0, 1, 0, 0, 0, 1, 1, 1, 0, 0, 0, 1, 0, 0, 1, 0, 1, 1, 1, 1, 0, 0, 0,
        0, 0, 0, 0, 1, 0, 0, 1, 0, 1, 0, 0, 0, 0, 0, 0, 1, 0, 1, 1, 0, 0, 1, 1, 0, 1, 0, 0, 0, 1,
        1, 0, 1, 0, 0, 0, 0, 1, 1, 0, 1, 0, 1, 0, 1, 0, 1, 0, 0, 1, 0, 0, 1, 0, 1, 1, 0, 0, 0, 1,
        1, 0, 1, 0, 1, 0, 0, 0, 1, 0, 0, 0, 0, 0, 1, 0, 0, 1, 0, 0, 1, 1, 1, 0, 1, 1, 0, 0, 1, 1,
        0, 1, 0, 0, 0, 1, 1, 1, 0, 0, 0, 0, 0, 1, 0, 1, 0, 0, 1, 1, 0, 0, 0, 0, 0, 0, 0, 1, 1, 0,
        1, 0, 1, 1, 0, 0, 0, 1, 1, 0, 0, 0,
    ];
    for (symbol, sync) in symbols.iter().zip(sync_vector.iter()) {
        assert_eq!(symbol % 2, *sync);
    }
}

#[test]
fn test_encode_deterministic() {
    // the same message encodes to the same symbols, call after call
    let first = WSPRMessage::new("DB2LA", "JO43", 30).encode().unwrap();
    let second = WSPRMessage::new("DB2LA", "JO43", 30).encode().unwrap();
    for (left, right) in first.iter().zip(second.iter()) {
        assert_eq!(left, right);
    }
}

#[test]
fn test_encode_symbols_in_alphabet() {
    let symbols = WSPRMessage::new("K1JT", "FN20", 37).encode().unwrap();
    assert_eq!(symbols.len(), 162);
    assert!(symbols.iter().all(|&s| s <= 3));
}

#[test]
fn test_encode_error_callsign() {
    let e = WSPRMessage::new("DB", "JO43", 30).encode();
    assert_eq!(e.unwrap_err(), ErrorCode::CallsignEncodeError);
}

#[test]
fn test_encode_error_locator() {
    let e = WSPRMessage::new("DB2LA", "ZZ43", 30).encode();
    assert_eq!(e.unwrap_err(), ErrorCode::LocatorEncodeError);
}

#[test]
fn test_encode_error_power() {
    let e = WSPRMessage::new("DB2LA", "JO43", 61).encode();
    assert_eq!(e.unwrap_err(), ErrorCode::PowerEncodeError);
}

#[test]
fn test_callsign_code_fits_28_bits() {
    // valid callsigns of every permitted length stay below 2^28
    for callsign in ["A1A", "K1JT", "DB2LA", "DB2LAX"] {
        let code = source_encode_callsign(callsign).unwrap();
        assert!(code < (1 << 28));
    }
}

#[test]
fn test_locator_power_succeeds_for_valid_range() {
    // every power 0..=60 succeeds on a structurally valid locator
    for power in 0..=60u8 {
        assert!(source_encode_locator_power("AA00", power).is_ok());
        assert!(source_encode_locator_power("RR99", power).is_ok());
    }
    // and every power above 60 fails with the power error
    for power in 61u16..=255 {
        let e = source_encode_locator_power("AA00", power as u8);
        assert_eq!(e.unwrap_err(), ErrorCode::PowerEncodeError);
    }
}
