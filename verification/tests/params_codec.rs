use batch_router::params::{decode_mira_params, encode_mira_params, encode_mira_params_with_dex_address};

#[test]
fn encode_mira_params_three_byte_layout() {
    assert_eq!(encode_mira_params(30, false), vec![0, 30, 0]);
    assert_eq!(encode_mira_params(30, true), vec![0, 30, 1]);
    assert_eq!(encode_mira_params(300, false), vec![1, 44, 0]);
}

#[test]
fn encode_mira_params_truncates_wide_fee() {
    assert_eq!(encode_mira_params(0x1_0005, false), vec![0, 5, 0]);
}

#[test]
fn encode_mira_params_with_dex_address_layout() {
    let addr = [0xABu8; 32];
    let blob = encode_mira_params_with_dex_address(30, true, &addr);
    assert_eq!(blob.len(), 35);
    assert_eq!(&blob[0..3], &[0, 30, 1]);
    assert_eq!(&blob[3..35], &addr[..]);
}

#[test]
fn decode_inverts_encode() {
    assert_eq!(decode_mira_params(&encode_mira_params(30, false)), Some((30, false)));
    assert_eq!(decode_mira_params(&encode_mira_params(9_999, true)), Some((9_999, true)));
    let addr = [3u8; 32];
    assert_eq!(
        decode_mira_params(&encode_mira_params_with_dex_address(30, false, &addr)),
        Some((30, false))
    );
}

#[test]
fn decode_nine_byte_little_endian_form() {
    let blob = vec![30, 0, 0, 0, 0, 0, 0, 0, 1];
    assert_eq!(decode_mira_params(&blob), Some((30, true)));
    let blob2 = vec![0x2C, 0x01, 0, 0, 0, 0, 0, 0, 0];
    assert_eq!(decode_mira_params(&blob2), Some((300, false)));
}

#[test]
fn decode_rejects_unknown_flag_byte() {
    assert_eq!(decode_mira_params(&vec![0, 30, 2]), None);
    assert_eq!(decode_mira_params(&vec![30, 0, 0, 0, 0, 0, 0, 0, 9]), None);
}

#[test]
fn decode_rejects_unknown_length() {
    assert_eq!(decode_mira_params(&vec![]), None);
    assert_eq!(decode_mira_params(&vec![0, 30]), None);
    assert_eq!(decode_mira_params(&vec![0, 30, 0, 1]), None);
}
