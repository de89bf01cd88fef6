use aead::generic_array::GenericArray;
use aead::{Aead, KeyInit, Payload};
use domo_wot_bridge::bleutils::{
    atc_from_plaintext, contact_from_plaintext, decrypt_aes_ccm, decrypt_atc, decrypt_contact, parse_atc,
    parse_contact_sensor, AtcResult, BleError, ContactStatus,
};

const KEY: &str = "6b1db353566f01c6d3585100b9d348f4";
const MAC: &str = "E4:AA:EC:53:9E:2B";

fn key_bytes() -> Vec<u8> {
    hex::decode(KEY).unwrap()
}

fn mac_reversed() -> Vec<u8> {
    vec![0x2b, 0x9e, 0x53, 0xec, 0xaa, 0xe4]
}

/// An advertisement of a thermometer around a plaintext: two bytes of
/// flags, the length byte, the preamble, a counter byte and the sealed
/// message.
fn atc_advertisement(plain: &[u8], counter: u8) -> String {
    let length = (4 + plain.len() + 4) as u8;
    let head = vec![length, 0x16, 0x1a, 0x18, counter];
    let mut nonce = mac_reversed();
    nonce.extend_from_slice(&head);
    let cipher = ccm::Ccm::<aes::Aes128, ccm::consts::U4, ccm::consts::U11>::new(GenericArray::from_slice(
        &key_bytes(),
    ));
    let sealed = cipher
        .encrypt(GenericArray::from_slice(&nonce), Payload { msg: plain, aad: &[0x11] })
        .unwrap();
    let mut frame = vec![0x02, 0x01, 0x06];
    frame.extend_from_slice(&head);
    frame.extend_from_slice(&sealed);
    hex::encode(frame)
}

#[test]
fn test_contact_parse() {
    let mac = "e4:aa:ec:53:9e:2b";
    let key = "6b1db353566f01c6d3585100b9d348f4";
    let data = "1d020106191695fe58588b09482b9e53ecaae46db81e190d00007d32b33ccb";

    let ret = parse_contact_sensor(mac, data, key);
    assert_eq!(ret.unwrap().state, ContactStatus::Close);
}

#[test]
fn contact_with_flipped_ciphertext_fails_to_decrypt() {
    let mac = "e4:aa:ec:53:9e:2b";
    let data = "1d020106191695fe58588b09482b9e53ecaae46db81e180d00007d32b33ccb";

    let ret = parse_contact_sensor(mac, data, KEY);
    assert_eq!(ret.unwrap_err(), BleError::DecryptFailed);
}

#[test]
fn contact_accepts_an_address_without_colons_and_upper_case_text() {
    let data = "1D020106191695FE58588B09482B9E53ECAAE46DB81E190D00007D32B33CCB";
    let ret = parse_contact_sensor("E4AAEC539E2B", data, KEY);
    assert_eq!(ret.unwrap().state, ContactStatus::Close);
}

#[test]
fn contact_without_preamble_is_malformed() {
    let data = "1d020106191695ff58588b09482b9e53ecaae46db81e190d00007d32b33ccb";
    assert_eq!(parse_contact_sensor(MAC, data, KEY).unwrap_err(), BleError::Malformed);
}

#[test]
fn contact_too_short_is_malformed() {
    // the preamble and 18 bytes after it: one byte short of a frame
    let data = "1695fe58588b09482b9e53ecaae46db81e190d0000";
    assert_eq!(parse_contact_sensor(MAC, data, KEY).unwrap_err(), BleError::Malformed);
}

#[test]
fn contact_with_text_that_is_not_hexadecimal_is_malformed() {
    assert_eq!(parse_contact_sensor(MAC, "1695fezz", KEY).unwrap_err(), BleError::Malformed);
    assert_eq!(parse_contact_sensor(MAC, "1695f", KEY).unwrap_err(), BleError::Malformed);
    let data = "1d020106191695fe58588b09482b9e53ecaae46db81e190d00007d32b33ccb";
    assert_eq!(parse_contact_sensor("e4:aa:ec:53:9e:2g", data, KEY).unwrap_err(), BleError::Malformed);
    assert_eq!(parse_contact_sensor(MAC, data, "6b1d").unwrap_err(), BleError::Malformed);
    assert_eq!(parse_contact_sensor("e4:aa:ec:53:9e", data, KEY).unwrap_err(), BleError::Malformed);
}

#[test]
fn contact_plaintext_gives_the_state() {
    assert_eq!(contact_from_plaintext(&vec![0x19, 0x10, 0x01, 0x00]).unwrap().state, ContactStatus::Open);
    assert_eq!(contact_from_plaintext(&vec![0x19, 0x10, 0x01, 0x01]).unwrap().state, ContactStatus::Close);
    assert_eq!(contact_from_plaintext(&vec![0x30]).unwrap().state, ContactStatus::Open);
    assert_eq!(contact_from_plaintext(&vec![0x0f]).unwrap().state, ContactStatus::Close);
    assert_eq!(contact_from_plaintext(&vec![]).unwrap_err(), BleError::Malformed);
}

#[test]
fn decrypt_contact_checks_the_lengths() {
    let sealed = vec![0u8; 8];
    assert_eq!(decrypt_contact(&sealed, &vec![0u8; 15], &vec![0u8; 12]).unwrap_err(), BleError::Malformed);
    assert_eq!(decrypt_contact(&sealed, &vec![0u8; 16], &vec![0u8; 11]).unwrap_err(), BleError::Malformed);
    assert_eq!(decrypt_contact(&sealed, &vec![0u8; 16], &vec![0u8; 12]).unwrap_err(), BleError::DecryptFailed);
}

#[test]
fn atc_three_byte_plaintext() {
    // 0x7f / 2 - 40 = 23.5 degrees, 0x5b / 2 = 45.5 percent, 0xe4 & 0x7f = 100
    let r = atc_from_plaintext(&vec![0x7f, 0x5b, 0xe4]).unwrap();
    assert_eq!(r, AtcResult { temperature: 2350, humidity: 4550, battery: 100 });
    let cold = atc_from_plaintext(&vec![0x00, 0x00, 0x00]).unwrap();
    assert_eq!(cold, AtcResult { temperature: -4000, humidity: 0, battery: 0 });
}

#[test]
fn atc_six_byte_plaintext() {
    // 0x0929 = 2345 hundredths of a degree, 0x1388 = 5000 hundredths of a percent
    let r = atc_from_plaintext(&vec![0x29, 0x09, 0x88, 0x13, 0x55, 0x00]).unwrap();
    assert_eq!(r, AtcResult { temperature: 2345, humidity: 5000, battery: 0x55 });
}

#[test]
fn atc_plaintext_of_another_length_is_malformed() {
    assert_eq!(atc_from_plaintext(&vec![1, 2, 3, 4]).unwrap_err(), BleError::Malformed);
    assert_eq!(atc_from_plaintext(&vec![]).unwrap_err(), BleError::Malformed);
}

#[test]
fn atc_advertisement_with_three_bytes_decodes_to_the_reference() {
    let data = atc_advertisement(&[0x7f, 0x5b, 0xe4], 0x42);
    let r = parse_atc(MAC, &data, KEY).unwrap();
    let temperature = r.temperature as f32 / 100.0;
    let humidity = r.humidity as f32 / 100.0;
    let battery = r.battery as f32;
    assert!((temperature - 23.5).abs() <= 0.01);
    assert!((humidity - 45.5).abs() <= 0.01);
    assert!((battery - 100.0).abs() <= 0.01);
}

#[test]
fn atc_advertisement_with_six_bytes_decodes_to_the_reference() {
    let data = atc_advertisement(&[0x29, 0x09, 0x88, 0x13, 0x55, 0x00], 0x07);
    let r = parse_atc("e4:aa:ec:53:9e:2b", &data, KEY).unwrap();
    assert_eq!(r, AtcResult { temperature: 2345, humidity: 5000, battery: 85 });
}

#[test]
fn atc_advertisement_with_a_wrong_key_fails_to_decrypt() {
    let data = atc_advertisement(&[0x7f, 0x5b, 0xe4], 0x42);
    let r = parse_atc(MAC, &data, "6b1db353566f01c6d3585100b9d348f5");
    assert_eq!(r.unwrap_err(), BleError::DecryptFailed);
}

#[test]
fn atc_advertisement_with_a_flipped_bit_fails_to_decrypt() {
    let mut data = atc_advertisement(&[0x7f, 0x5b, 0xe4], 0x42).into_bytes();
    let last = data.len() - 1;
    data[last] = if data[last] == b'0' { b'1' } else { b'0' };
    let r = parse_atc(MAC, &String::from_utf8(data).unwrap(), KEY);
    assert_eq!(r.unwrap_err(), BleError::DecryptFailed);
}

#[test]
fn atc_advertisement_of_another_plaintext_length_is_malformed() {
    let data = atc_advertisement(&[1, 2, 3, 4], 0x42);
    assert_eq!(parse_atc(MAC, &data, KEY).unwrap_err(), BleError::Malformed);
}

#[test]
fn atc_malformed_frames() {
    // no preamble
    assert_eq!(parse_atc(MAC, "0201060b161a19", KEY).unwrap_err(), BleError::Malformed);
    // the preamble at the very start: no length byte before it
    assert_eq!(parse_atc(MAC, "161a180102030405060708", KEY).unwrap_err(), BleError::Malformed);
    // a length byte of 7 or less
    assert_eq!(parse_atc(MAC, "07161a1800112233", KEY).unwrap_err(), BleError::Malformed);
    // a length byte that reaches beyond the frame
    assert_eq!(parse_atc(MAC, "0b161a18001122334455", KEY).unwrap_err(), BleError::Malformed);
    // not hexadecimal
    assert_eq!(parse_atc(MAC, "0b161a18zz", KEY).unwrap_err(), BleError::Malformed);
    // an address of five bytes
    let data = atc_advertisement(&[0x7f, 0x5b, 0xe4], 0x42);
    assert_eq!(parse_atc("e4:aa:ec:53:9e", &data, KEY).unwrap_err(), BleError::Malformed);
}

#[test]
fn decrypt_aes_ccm_takes_the_packet_from_its_length_byte() {
    let data = hex::decode(atc_advertisement(&[0x7f, 0x5b, 0xe4], 0x42)).unwrap();
    let packet = data[3..].to_vec();
    let r = decrypt_aes_ccm(&key_bytes(), &mac_reversed(), &packet).unwrap();
    assert_eq!(r, AtcResult { temperature: 2350, humidity: 4550, battery: 100 });
    // bytes behind the packet do not count
    let mut longer = packet.clone();
    longer.push(0xaa);
    assert_eq!(decrypt_aes_ccm(&key_bytes(), &mac_reversed(), &longer).unwrap(), r);
}

#[test]
fn decrypt_atc_checks_the_lengths() {
    let sealed = vec![0u8; 7];
    assert_eq!(decrypt_atc(&sealed, &vec![0u8; 17], &vec![0u8; 11]).unwrap_err(), BleError::Malformed);
    assert_eq!(decrypt_atc(&sealed, &vec![0u8; 16], &vec![0u8; 12]).unwrap_err(), BleError::Malformed);
    assert_eq!(decrypt_atc(&sealed, &vec![0u8; 16], &vec![0u8; 11]).unwrap_err(), BleError::DecryptFailed);
    assert_eq!(decrypt_atc(&vec![0u8; 3], &vec![0u8; 16], &vec![0u8; 11]).unwrap_err(), BleError::DecryptFailed);
}
