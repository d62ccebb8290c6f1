use wspr::convcode::parity;
use wspr::convolve;

#[test]
fn test_parity() {
    let p = parity(0xFF01);
    assert_eq!(p, 1);
    let p = parity(0xFFFF0000);
    assert_eq!(p, 0);
}

#[test]
fn test_convolve() {
    // expected values verified by infallible manual calculation
    let mut d = [0u8; 50];
    for i in 0..8 {
        d[50 - 8 + i] = (0xDB >> (7 - i)) & 0x01;
    }

    let e = convolve(d).unwrap();
    assert_eq!(e[49 * 2], 1);
    assert_eq!(e[49 * 2 + 1], 1);

    let mut d = [0u8; 50];
    for i in 0..8 {
        d[50 - 8 + i] = (0xAF >> (7 - i)) & 0x01;
    }

    let e = convolve(d).unwrap();
    assert_eq!(e[49 * 2], 1);
    assert_eq!(e[49 * 2 + 1], 1);
}

#[test]
fn test_convolve_error() {
    let mut d = [0u8; 50];
    d[0] = 0x02;
    let e = convolve(d);
    assert!(e.is_err());
}

#[test]
fn test_convolve_error_anywhere() {
    // a non-binary element anywhere in the input is rejected
    for pos in [0usize, 17, 49] {
        let mut d = [0u8; 50];
        d[pos] = 3;
        assert_eq!(convolve(d).unwrap_err(), wspr::ErrorCode::ConvolutionBitSetError);
    }
}

#[test]
fn test_convolve_output_is_bits() {
    // all-ones payload: output has 162 elements, each 0 or 1
    let d = [1u8; 50];
    let e = convolve(d).unwrap();
    assert_eq!(e.len(), 162);
    assert!(e.iter().all(|&b| b == 0 || b == 1));
}
