//! Decoding of the advertisements of BLE thermometers and contact sensors.

use crate::hexcode::{hex_bytes, hex_to_bytes, is_hex_text};
use crate::text::{occurs_at, str_without, without_seq};
use aead::generic_array::GenericArray;
use aead::{Aead, KeyInit, Payload};
use vstd::prelude::*;

verus! {

/// Why an advertisement gave no reading.
#[derive(Clone, Copy, Debug, PartialEq, Eq, Structural)]
pub enum BleError {
    /// The frame, the address or the key does not have the expected shape.
    Malformed,
    /// The authentication tag does not match.
    DecryptFailed,
}

/// A thermometer reading. Temperature and humidity are in hundredths, of a
/// degree Celsius and of a percent; the battery is in percent.
#[derive(Clone, Copy, Debug, PartialEq, Eq, Structural)]
pub struct AtcResult {
    pub temperature: i32,
    pub humidity: i32,
    pub battery: u8,
}

/// The state of a contact sensor.
#[derive(Clone, Copy, Debug, PartialEq, Eq, Structural)]
pub enum ContactStatus {
    Open,
    Close,
}

/// A reading of a contact sensor.
#[derive(Clone, Copy, Debug, PartialEq, Eq, Structural)]
pub struct ContactResult {
    pub state: ContactStatus,
}

/// The longest sealed message that is handed to a cipher. The ciphers count
/// blocks in 32 bits and do not take more than they can count.
pub const MAX_SEALED_LEN: usize = 0xffff_ffff;

/// The associated data of both ciphers: the one byte `0x11`.
pub open spec fn associated_data() -> Seq<u8> {
    seq![0x11u8]
}

/// What AES-128-CCM with a tag of 4 bytes and a nonce of 11 bytes gives for a
/// sealed message: the plaintext, or nothing where the tag does not match.
pub uninterp spec fn atc_opened(key: Seq<u8>, nonce: Seq<u8>, aad: Seq<u8>, sealed: Seq<u8>) -> Option<
    Seq<u8>,
>;

/// What AES-128-CCM with a tag of 4 bytes and a nonce of 12 bytes gives for a
/// sealed message: the plaintext, or nothing where the tag does not match.
pub uninterp spec fn contact_opened(key: Seq<u8>, nonce: Seq<u8>, aad: Seq<u8>, sealed: Seq<u8>) -> Option<
    Seq<u8>,
>;

/// `aead::Error`, held as a value that is not looked into.
#[verifier::external_type_specification]
#[verifier::external_body]
pub struct ExAeadError(aead::Error);

/// `Aead::decrypt` of `ccm::Ccm<aes::Aes128, U4, U11>`, made with
/// `KeyInit::new`. Trusted: its outcome depends on the key, the nonce, the
/// associated data and the sealed message alone. The key has to be 16 bytes
/// and the nonce 11, since `GenericArray::from_slice` panics on other
/// lengths, and the message no longer than the cipher's counter of blocks
/// reaches, since the key stream panics at its end.
#[verifier::external_body]
fn open_atc(key: &Vec<u8>, nonce: &Vec<u8>, aad: &Vec<u8>, sealed: &Vec<u8>) -> (r: Result<
    Vec<u8>,
    aead::Error,
>)
    requires
        key.len() == 16,
        nonce.len() == 11,
        sealed.len() <= MAX_SEALED_LEN,
    ensures
        match r {
            Ok(plain) => atc_opened(key@, nonce@, aad@, sealed@) == Some(plain@),
            Err(_) => atc_opened(key@, nonce@, aad@, sealed@) is None,
        },
{
    let cipher = ccm::Ccm::<aes::Aes128, ccm::consts::U4, ccm::consts::U11>::new(
        GenericArray::from_slice(key),
    );
    cipher.decrypt(GenericArray::from_slice(nonce), Payload { aad, msg: sealed })
}

/// `Aead::decrypt` of `ccm::Ccm<aes::Aes128, U4, U12>`, made with
/// `KeyInit::new`. Trusted: its outcome depends on the key, the nonce, the
/// associated data and the sealed message alone. The key has to be 16 bytes
/// and the nonce 12, since `GenericArray::from_slice` panics on other
/// lengths, and the message no longer than the cipher's counter of blocks
/// reaches, since the key stream panics at its end.
#[verifier::external_body]
fn open_contact(key: &Vec<u8>, nonce: &Vec<u8>, aad: &Vec<u8>, sealed: &Vec<u8>) -> (r: Result<
    Vec<u8>,
    aead::Error,
>)
    requires
        key.len() == 16,
        nonce.len() == 12,
        sealed.len() <= MAX_SEALED_LEN,
    ensures
        match r {
            Ok(plain) => contact_opened(key@, nonce@, aad@, sealed@) == Some(plain@),
            Err(_) => contact_opened(key@, nonce@, aad@, sealed@) is None,
        },
{
    let cipher = ccm::Ccm::<aes::Aes128, ccm::consts::U4, ccm::consts::U12>::new(
        GenericArray::from_slice(key),
    );
    cipher.decrypt(GenericArray::from_slice(nonce), Payload { aad, msg: sealed })
}

/// The reading that a thermometer's plaintext holds. Three bytes are halves
/// of a degree above -40, halves of a percent, and the battery in the low
/// seven bits. Six bytes are hundredths, low byte first, and the battery.
pub open spec fn atc_reading(plain: Seq<u8>) -> Result<AtcResult, BleError> {
    if plain.len() == 3 {
        Ok(
            (AtcResult {
                temperature: (plain[0] * 50 - 4000) as i32,
                humidity: (plain[1] * 50) as i32,
                battery: plain[2] & 0x7f,
            }),
        )
    } else if plain.len() == 6 {
        Ok(
            (AtcResult {
                temperature: (plain[0] + 256 * plain[1]) as i32,
                humidity: (plain[2] + 256 * plain[3]) as i32,
                battery: plain[4],
            }),
        )
    } else {
        Err(BleError::Malformed)
    }
}

/// The reading of a thermometer, given what the cipher made of its message.
pub open spec fn atc_decoded(opened: Option<Seq<u8>>) -> Result<AtcResult, BleError> {
    match opened {
        Some(plain) => atc_reading(plain),
        None => Err(BleError::DecryptFailed),
    }
}

/// The state that a contact sensor's plaintext holds: open where the low half
/// of the last byte is zero, closed otherwise. An empty plaintext holds none.
pub open spec fn contact_reading(plain: Seq<u8>) -> Result<ContactResult, BleError> {
    if plain.len() == 0 {
        Err(BleError::Malformed)
    } else if plain.last() & 0x0f == 0 {
        Ok((ContactResult { state: ContactStatus::Open }))
    } else {
        Ok((ContactResult { state: ContactStatus::Close }))
    }
}

/// The state of a contact sensor, given what the cipher made of its message.
pub open spec fn contact_decoded(opened: Option<Seq<u8>>) -> Result<ContactResult, BleError> {
    match opened {
        Some(plain) => contact_reading(plain),
        None => Err(BleError::DecryptFailed),
    }
}

/// Reads a thermometer's plaintext.
pub fn atc_from_plaintext(plain: &Vec<u8>) -> (r: Result<AtcResult, BleError>)
    ensures
        r == atc_reading(plain@),
{
    if plain.len() == 3 {
        let temperature: i32 = plain[0] as i32 * 50 - 4000;
        let humidity: i32 = plain[1] as i32 * 50;
        Ok(AtcResult { temperature, humidity, battery: plain[2] & 0x7f })
    } else if plain.len() == 6 {
        let temperature: i32 = plain[0] as i32 + 256 * (plain[1] as i32);
        let humidity: i32 = plain[2] as i32 + 256 * (plain[3] as i32);
        Ok(AtcResult { temperature, humidity, battery: plain[4] })
    } else {
        Err(BleError::Malformed)
    }
}

/// Reads a contact sensor's plaintext.
pub fn contact_from_plaintext(plain: &Vec<u8>) -> (r: Result<ContactResult, BleError>)
    ensures
        r == contact_reading(plain@),
{
    if plain.len() == 0 {
        Err(BleError::Malformed)
    } else if plain[plain.len() - 1] & 0x0f == 0 {
        Ok(ContactResult { state: ContactStatus::Open })
    } else {
        Ok(ContactResult { state: ContactStatus::Close })
    }
}

/// The reading of a sealed thermometer message under a key of 16 bytes and
/// a nonce of 11 bytes.
pub open spec fn atc_decrypted(payload: Seq<u8>, key: Seq<u8>, nonce: Seq<u8>) -> Result<
    AtcResult,
    BleError,
> {
    if key.len() != 16 || nonce.len() != 11 || payload.len() > MAX_SEALED_LEN {
        Err(BleError::Malformed)
    } else {
        atc_decoded(atc_opened(key, nonce, associated_data(), payload))
    }
}

/// The state of a sealed contact message under a key of 16 bytes and a
/// nonce of 12 bytes.
pub open spec fn contact_decrypted(payload: Seq<u8>, key: Seq<u8>, nonce: Seq<u8>) -> Result<
    ContactResult,
    BleError,
> {
    if key.len() != 16 || nonce.len() != 12 || payload.len() > MAX_SEALED_LEN {
        Err(BleError::Malformed)
    } else {
        contact_decoded(contact_opened(key, nonce, associated_data(), payload))
    }
}

fn associated_bytes() -> (r: Vec<u8>)
    ensures
        r@ == associated_data(),
{
    let mut aad: Vec<u8> = Vec::new();
    aad.push(0x11u8);
    assert(aad@ =~= associated_data());
    aad
}

/// Opens a thermometer message and reads it.
pub fn decrypt_atc(payload: &Vec<u8>, key: &Vec<u8>, nonce: &Vec<u8>) -> (r: Result<AtcResult, BleError>)
    ensures
        r == atc_decrypted(payload@, key@, nonce@),
{
    if key.len() != 16 || nonce.len() != 11 || payload.len() > MAX_SEALED_LEN {
        return Err(BleError::Malformed);
    }
    let aad = associated_bytes();
    match open_atc(key, nonce, &aad, payload) {
        Ok(plain) => atc_from_plaintext(&plain),
        Err(_) => Err(BleError::DecryptFailed),
    }
}

/// Opens a contact sensor message and reads it.
pub fn decrypt_contact(payload: &Vec<u8>, key: &Vec<u8>, nonce: &Vec<u8>) -> (r: Result<
    ContactResult,
    BleError,
>)
    ensures
        r == contact_decrypted(payload@, key@, nonce@),
{
    if key.len() != 16 || nonce.len() != 12 || payload.len() > MAX_SEALED_LEN {
        return Err(BleError::Malformed);
    }
    let aad = associated_bytes();
    match open_contact(key, nonce, &aad, payload) {
        Ok(plain) => contact_from_plaintext(&plain),
        Err(_) => Err(BleError::DecryptFailed),
    }
}

/// The index of the first occurrence of `p` in `h` at or after `from`.
pub open spec fn first_occurrence_from(h: Seq<u8>, p: Seq<u8>, from: int) -> Option<int>
    decreases h.len() + 1 - from,
{
    if 0 <= from && from + p.len() <= h.len() {
        if occurs_at(h, p, from) {
            Some(from)
        } else {
            first_occurrence_from(h, p, from + 1)
        }
    } else {
        None
    }
}

/// The preamble of a thermometer advertisement.
pub open spec fn atc_preamble() -> Seq<u8> {
    seq![0x16u8, 0x1au8, 0x18u8]
}

/// The preamble of a contact sensor advertisement.
pub open spec fn contact_preamble() -> Seq<u8> {
    seq![0x16u8, 0x95u8, 0xfeu8]
}

fn bytes_match_at(h: &Vec<u8>, p: &Vec<u8>, i: usize) -> (r: bool)
    ensures
        r == occurs_at(h@, p@, i as int),
{
    if p.len() > h.len() || i > h.len() - p.len() {
        return false;
    }
    let mut k: usize = 0;
    while k < p.len()
        invariant
            k <= p.len(),
            i + p.len() <= h.len(),
            forall|j: int| 0 <= j < k ==> h@[i + j] == p@[j],
        decreases p.len() - k,
    {
        if h[i + k] != p[k] {
            assert(h@.subrange(i as int, i + p.len())[k as int] == h@[i + k]);
            return false;
        }
        k += 1;
    }
    assert(h@.subrange(i as int, i + p.len()) =~= p@);
    true
}

fn find_bytes(h: &Vec<u8>, p: &Vec<u8>) -> (r: Option<usize>)
    ensures
        match r {
            Some(i) => first_occurrence_from(h@, p@, 0) == Some(i as int) && i + p.len() <= h.len(),
            None => first_occurrence_from(h@, p@, 0) is None,
        },
{
    if p.len() > h.len() {
        return None;
    }
    let last = h.len() - p.len();
    let mut i: usize = 0;
    while i <= last
        invariant
            i <= last + 1,
            last == h.len() - p.len(),
            first_occurrence_from(h@, p@, 0) == first_occurrence_from(h@, p@, i as int),
        decreases last + 1 - i,
    {
        if bytes_match_at(h, p, i) {
            return Some(i);
        }
        if i == last {
            assert(first_occurrence_from(h@, p@, i + 1) is None);
            return None;
        }
        i += 1;
    }
    None
}

/// The bytes of `v` from `from` up to `to`.
fn part(v: &Vec<u8>, from: usize, to: usize) -> (r: Vec<u8>)
    requires
        from <= to <= v.len(),
    ensures
        r@ == v@.subrange(from as int, to as int),
{
    let mut out: Vec<u8> = Vec::new();
    let mut i: usize = from;
    while i < to
        invariant
            from <= i <= to <= v.len(),
            out@ == v@.subrange(from as int, i as int),
        decreases to - i,
    {
        out.push(v[i]);
        i += 1;
        assert(out@ =~= v@.subrange(from as int, i as int));
    }
    out
}

fn joined(a: &Vec<u8>, b: &Vec<u8>) -> (r: Vec<u8>)
    ensures
        r@ == a@ + b@,
{
    let mut out: Vec<u8> = part(a, 0, a.len());
    assert(out@ =~= a@);
    let mut i: usize = 0;
    while i < b.len()
        invariant
            i <= b.len(),
            out@ == a@ + b@.take(i as int),
        decreases b.len() - i,
    {
        out.push(b[i]);
        i += 1;
        assert(out@ =~= a@ + b@.take(i as int));
    }
    assert(b@.take(i as int) =~= b@);
    out
}

fn reversed(v: &Vec<u8>) -> (r: Vec<u8>)
    ensures
        r@ == v@.reverse(),
{
    let mut out: Vec<u8> = Vec::new();
    let mut i: usize = v.len();
    while i > 0
        invariant
            i <= v.len(),
            out.len() == v.len() - i,
            forall|j: int| 0 <= j < out.len() ==> out@[j] == v@[v.len() - 1 - j],
        decreases i,
    {
        i -= 1;
        out.push(v[i]);
    }
    assert(out@ =~= v@.reverse());
    out
}

/// The bytes of a device address, last byte first. The address is written in
/// hexadecimal digits, with or without colons between the bytes.
pub open spec fn mac_reversed(mac: Seq<char>) -> Option<Seq<u8>> {
    let digits = without_seq(mac, ":"@);
    if is_hex_text(digits) {
        Some(hex_bytes(digits).reverse())
    } else {
        None
    }
}

fn reverse_mac(mac: &str) -> (r: Option<Vec<u8>>)
    ensures
        r is Some <==> mac_reversed(mac@) is Some,
        r matches Some(v) ==> mac_reversed(mac@) == Some(v@),
{
    let digits = str_without(mac, ":");
    match hex_to_bytes(digits.as_str()) {
        Some(bytes) => Some(reversed(&bytes)),
        None => None,
    }
}

/// The reading of a thermometer packet: its length byte, the preamble and
/// what follows. The length byte counts what follows it and is above 7; the
/// nonce is the reversed address and the first five bytes of the packet; the
/// rest of the packet is the sealed message.
pub open spec fn atc_packet_decrypted(key: Seq<u8>, mac_rev: Seq<u8>, data: Seq<u8>) -> Result<
    AtcResult,
    BleError,
> {
    if data.len() < 4 || data[0] <= 7 || data[0] + 1 > data.len() || data.subrange(1, 4) != atc_preamble() {
        Err(BleError::Malformed)
    } else {
        let packet = data.take(data[0] + 1);
        atc_decrypted(packet.skip(5), key, mac_rev + packet.take(5))
    }
}

/// Opens a thermometer packet that starts at its length byte.
pub fn decrypt_aes_ccm(key: &Vec<u8>, mac_inverted: &Vec<u8>, data: &Vec<u8>) -> (r: Result<
    AtcResult,
    BleError,
>)
    ensures
        r == atc_packet_decrypted(key@, mac_inverted@, data@),
{
    if data.len() < 4 || data[0] <= 7 || data[0] as usize + 1 > data.len() {
        return Err(BleError::Malformed);
    }
    if data[1] != 0x16 || data[2] != 0x1a || data[3] != 0x18 {
        assert(data@.subrange(1, 4)[0] == data@[1]);
        assert(data@.subrange(1, 4)[1] == data@[2]);
        assert(data@.subrange(1, 4)[2] == data@[3]);
        return Err(BleError::Malformed);
    }
    assert(data@.subrange(1, 4) =~= atc_preamble());
    let length: usize = data[0] as usize + 1;
    let head = part(data, 0, 5);
    let payload = part(data, 5, length);
    let nonce = joined(mac_inverted, &head);
    assert(head@ =~= data@.take(length as int).take(5));
    assert(payload@ =~= data@.take(length as int).skip(5));
    decrypt_atc(&payload, key, &nonce)
}

/// The reading of a thermometer frame: the packet starts one byte before the
/// first preamble.
pub open spec fn atc_framed(mac_rev: Seq<u8>, frame: Seq<u8>, key: Seq<u8>) -> Result<AtcResult, BleError> {
    match first_occurrence_from(frame, atc_preamble(), 0) {
        Some(start) => if start < 1 {
            Err(BleError::Malformed)
        } else {
            atc_packet_decrypted(key, mac_rev, frame.skip(start - 1))
        },
        None => Err(BleError::Malformed),
    }
}

/// The reading of a thermometer advertisement given as hexadecimal text,
/// with the device's address and its key.
pub open spec fn atc_parsed(mac: Seq<char>, data: Seq<char>, token: Seq<char>) -> Result<
    AtcResult,
    BleError,
> {
    if !is_hex_text(data) || !is_hex_text(token) || mac_reversed(mac) is None {
        Err(BleError::Malformed)
    } else {
        atc_framed(mac_reversed(mac).unwrap(), hex_bytes(data), hex_bytes(token))
    }
}

fn atc_preamble_bytes() -> (r: Vec<u8>)
    ensures
        r@ == atc_preamble(),
{
    let mut p: Vec<u8> = Vec::new();
    p.push(0x16u8);
    p.push(0x1au8);
    p.push(0x18u8);
    assert(p@ =~= atc_preamble());
    p
}

fn contact_preamble_bytes() -> (r: Vec<u8>)
    ensures
        r@ == contact_preamble(),
{
    let mut p: Vec<u8> = Vec::new();
    p.push(0x16u8);
    p.push(0x95u8);
    p.push(0xfeu8);
    assert(p@ =~= contact_preamble());
    p
}

/// Decodes the advertisement of a thermometer.
pub fn parse_atc(mac: &str, data: &str, token: &str) -> (r: Result<AtcResult, BleError>)
    ensures
        r == atc_parsed(mac@, data@, token@),
{
    let frame = match hex_to_bytes(data) {
        Some(f) => f,
        None => {
            return Err(BleError::Malformed);
        },
    };
    let key = match hex_to_bytes(token) {
        Some(k) => k,
        None => {
            return Err(BleError::Malformed);
        },
    };
    let mac_rev = match reverse_mac(mac) {
        Some(m) => m,
        None => {
            return Err(BleError::Malformed);
        },
    };
    let preamble = atc_preamble_bytes();
    match find_bytes(&frame, &preamble) {
        Some(start) => {
            if start < 1 {
                return Err(BleError::Malformed);
            }
            let packet = part(&frame, start - 1, frame.len());
            assert(packet@ =~= frame@.skip(start - 1));
            decrypt_aes_ccm(&key, &mac_rev, &packet)
        },
        None => Err(BleError::Malformed),
    }
}

/// The state of a contact sensor frame. Counted from the first preamble, the
/// bytes 5 to 7 are the device type and the frame counter; the sealed part
/// runs from byte 14 to the last byte but one and ends in three bytes of
/// payload counter and four bytes of tag.
pub open spec fn contact_framed(mac_rev: Seq<u8>, frame: Seq<u8>, key: Seq<u8>) -> Result<
    ContactResult,
    BleError,
> {
    match first_occurrence_from(frame, contact_preamble(), 0) {
        Some(start) => if start + 22 > frame.len() {
            Err(BleError::Malformed)
        } else {
            let body = frame.subrange(start + 14, frame.len() - 1);
            let n = body.len() as int;
            let nonce = mac_rev + frame.subrange(start + 5, start + 8) + body.subrange(n - 7, n - 4);
            let sealed = body.take(n - 7) + body.skip(n - 4);
            contact_decrypted(sealed, key, nonce)
        },
        None => Err(BleError::Malformed),
    }
}

/// The state of a contact sensor advertisement given as hexadecimal text,
/// with the device's address and its key.
pub open spec fn contact_parsed(mac: Seq<char>, data: Seq<char>, key: Seq<char>) -> Result<
    ContactResult,
    BleError,
> {
    if !is_hex_text(data) || !is_hex_text(key) || mac_reversed(mac) is None {
        Err(BleError::Malformed)
    } else {
        contact_framed(mac_reversed(mac).unwrap(), hex_bytes(data), hex_bytes(key))
    }
}

/// Decodes the advertisement of a contact sensor.
pub fn parse_contact_sensor(mac: &str, data: &str, key: &str) -> (r: Result<ContactResult, BleError>)
    ensures
        r == contact_parsed(mac@, data@, key@),
{
    let frame = match hex_to_bytes(data) {
        Some(f) => f,
        None => {
            return Err(BleError::Malformed);
        },
    };
    let key_bytes = match hex_to_bytes(key) {
        Some(k) => k,
        None => {
            return Err(BleError::Malformed);
        },
    };
    let mac_rev = match reverse_mac(mac) {
        Some(m) => m,
        None => {
            return Err(BleError::Malformed);
        },
    };
    let preamble = contact_preamble_bytes();
    match find_bytes(&frame, &preamble) {
        Some(start) => {
            if frame.len() < 22 || start > frame.len() - 22 {
                return Err(BleError::Malformed);
            }
            let body = part(&frame, start + 14, frame.len() - 1);
            let n = body.len();
            let kind = part(&frame, start + 5, start + 8);
            let counter = part(&body, n - 7, n - 4);
            let nonce = joined(&joined(&mac_rev, &kind), &counter);
            let sealed = joined(&part(&body, 0, n - 7), &part(&body, n - 4, n));
            decrypt_contact(&sealed, &key_bytes, &nonce)
        },
        None => Err(BleError::Malformed),
    }
}

} // verus!
