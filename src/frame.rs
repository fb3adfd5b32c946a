//! Frame codec: the request envelope, the scan that finds a reply's envelope
//! in whatever bytes arrived, and the length-driven decoding of its payload.
//!
//! A frame is `[HEADER, HEADER, len, genre, payload.., FOOTER]`, where
//! `len` is the payload's length plus two (it counts the genre byte and the
//! footer) and `genre` is the operation's opcode.

use vstd::prelude::*;
use byteorder::{BigEndian, ByteOrder};
use crate::command::{FOOTER, HEADER, IS_SERVO_ENABLE};

verus! {

/// The signed 16-bit integer whose big-endian bytes are `hi`, `lo`.
pub open spec fn be_i16(hi: u8, lo: u8) -> i16 {
    let u = hi as int * 256 + lo as int;
    (if u >= 32768 {
        u - 65536
    } else {
        u
    }) as i16
}

/// High byte of the big-endian form of `v`.
pub open spec fn hi_byte(v: i16) -> u8 {
    (((v as int + 65536) % 65536) / 256) as u8
}

/// Low byte of the big-endian form of `v`.
pub open spec fn lo_byte(v: i16) -> u8 {
    ((v as int + 65536) % 256) as u8
}

/// The signed value of one byte.
pub open spec fn signed_byte(b: u8) -> i8 {
    (if b >= 128 {
        b as int - 256
    } else {
        b as int
    }) as i8
}

/// The big-endian bytes of a sequence of 16-bit values, two per value.
pub open spec fn int16_bytes(vals: Seq<i16>) -> Seq<u8> {
    Seq::new(
        2 * vals.len(),
        |j: int|
            if j % 2 == 0 {
                hi_byte(vals[j / 2])
            } else {
                lo_byte(vals[j / 2])
            },
    )
}

/// The 16-bit values read two bytes at a time, big-endian.
pub open spec fn int16_values(bytes: Seq<u8>) -> Seq<i16> {
    Seq::new(bytes.len() / 2, |k: int| be_i16(bytes[2 * k], bytes[2 * k + 1]))
}

/// The length byte of a frame whose payload has `n` bytes (wrapping past 255).
pub open spec fn length_byte(n: nat) -> u8 {
    ((n + 2) % 256) as u8
}

/// The frame that carries `payload` under opcode `genre`.
pub open spec fn frame(genre: u8, payload: Seq<u8>) -> Seq<u8> {
    seq![HEADER, HEADER, length_byte(payload.len()), genre] + payload + seq![FOOTER]
}

/// Two header bytes stand at `i` and `i + 1`.
pub open spec fn header_at(raw: Seq<u8>, i: int) -> bool {
    0 <= i && i + 1 < raw.len() && raw[i] == HEADER && raw[i + 1] == HEADER
}

/// `i` is the first position of `raw` where two header bytes stand.
pub open spec fn first_header(raw: Seq<u8>, i: int) -> bool {
    header_at(raw, i) && forall|j: int| 0 <= j < i ==> !#[trigger] header_at(raw, j)
}

/// The payload of the frame whose header stands at `i`, if the frame is
/// complete, its length byte is at least two and it carries `genre`; else empty.
pub open spec fn payload_at(raw: Seq<u8>, i: int, genre: u8) -> Seq<u8> {
    if i + 3 < raw.len() && raw[i + 2] >= 2 && raw[i + 3] == genre && i + 2 + raw[i + 2] <= raw.len() {
        raw.subrange(i + 4, i + 2 + raw[i + 2])
    } else {
        seq![]
    }
}

/// The payload that a reply carries for `genre`: that of the frame at the
/// first header pair, or empty where there is no header pair.
pub open spec fn parsed(raw: Seq<u8>, genre: u8) -> Seq<u8> {
    if exists|i: int| first_header(raw, i) {
        payload_at(raw, choose|i: int| first_header(raw, i), genre)
    } else {
        seq![]
    }
}

/// The values of a payload, by its length: twelve bytes are six 16-bit values;
/// two bytes one 16-bit value, or the signed second byte for the servo-enabled
/// query; any other non-empty payload is its signed first byte.
pub open spec fn decoded(payload: Seq<u8>, genre: u8) -> Seq<i16> {
    if payload.len() == 12 {
        int16_values(payload)
    } else if payload.len() == 2 {
        if genre == IS_SERVO_ENABLE {
            seq![signed_byte(payload[1]) as i16]
        } else {
            seq![be_i16(payload[0], payload[1])]
        }
    } else if payload.len() == 0 {
        seq![]
    } else {
        seq![signed_byte(payload[0]) as i16]
    }
}

/// The values that a raw reply carries for `genre`.
pub open spec fn received(raw: Seq<u8>, genre: u8) -> Seq<i16> {
    decoded(parsed(raw, genre), genre)
}


/// Relies on byteorder's `BigEndian::read_i16`: reads two bytes, most
/// significant first, as a signed 16-bit integer.
#[verifier::external_body]
fn read_be_i16(hi: u8, lo: u8) -> (r: i16)
    ensures
        r == be_i16(hi, lo),
{
    BigEndian::read_i16(&[hi, lo])
}

/// The two big-endian bytes of `data`.
///
/// Relies on byteorder's `BigEndian::write_i16`: writes `n` as two bytes,
/// most significant first.
#[verifier::external_body]
pub(crate) fn encode_int16(data: i16) -> (r: [u8; 2])
    ensures
        r@ == seq![hi_byte(data), lo_byte(data)],
{
    let mut buf = [0u8; 2];
    BigEndian::write_i16(&mut buf, data);
    buf
}

/// The big-endian bytes of each value in turn.
pub fn encode_int16_vec(data: &[i16]) -> (r: Vec<u8>)
    ensures
        r@ == int16_bytes(data@),
{
    let mut r: Vec<u8> = Vec::new();
    let mut i: usize = 0;
    while i < data.len()
        invariant
            i <= data@.len(),
            r@ =~= int16_bytes(data@.subrange(0, i as int)),
        decreases data@.len() - i,
    {
        let b = encode_int16(data[i]);
        r.push(b[0]);
        r.push(b[1]);
        i = i + 1;
        assert(r@ =~= int16_bytes(data@.subrange(0, i as int)));
    }
    assert(data@.subrange(0, i as int) =~= data@);
    r
}

/// The signed 16-bit value of the first two bytes.
pub fn decode_int16(data: &[u8]) -> (r: i16)
    requires
        data@.len() >= 2,
    ensures
        r == be_i16(data@[0], data@[1]),
{
    read_be_i16(data[0], data[1])
}

/// The signed value of the first byte.
pub fn decode_int8(data: &[u8]) -> (r: i8)
    requires
        data@.len() >= 1,
    ensures
        r == signed_byte(data@[0]),
{
    let b = data[0];
    if b >= 128 {
        (b as i16 - 256) as i8
    } else {
        b as i8
    }
}

/// The 16-bit values of a payload of even length, read pairwise.
pub fn decode_int16_vec(data: &[u8]) -> (r: Vec<i16>)
    requires
        data@.len() % 2 == 0,
    ensures
        r@ == int16_values(data@),
{
    let mut r: Vec<i16> = Vec::new();
    let mut idx: usize = 0;
    while idx < data.len()
        invariant
            idx <= data@.len(),
            idx % 2 == 0,
            data@.len() % 2 == 0,
            r@.len() == idx / 2,
            forall|k: int| 0 <= k < idx / 2 ==> #[trigger] r@[k] == be_i16(data@[2 * k], data@[2 * k + 1]),
        decreases data@.len() - idx,
    {
        r.push(read_be_i16(data[idx], data[idx + 1]));
        idx = idx + 2;
    }
    assert(r@ =~= int16_values(data@));
    r
}

/// Wraps `command_data` in a frame under opcode `genre`.
pub fn concat_message(genre: u8, command_data: &[u8]) -> (r: Vec<u8>)
    ensures
        r@ == frame(genre, command_data@),
{
    let n: usize = command_data.len();
    let len: u8 = (((n % 256) + 2) % 256) as u8;
    assert(((n % 256) + 2) % 256 == (n + 2) % 256) by {
        vstd::arithmetic::div_mod::lemma_add_mod_noop(n as int, 2, 256);
        vstd::arithmetic::div_mod::lemma_mod_twice(n as int, 256);
        vstd::arithmetic::div_mod::lemma_small_mod(2, 256);
    }
    let mut r: Vec<u8> = Vec::new();
    r.push(HEADER);
    r.push(HEADER);
    r.push(len);
    r.push(genre);
    let mut i: usize = 0;
    while i < n
        invariant
            n == command_data@.len(),
            i <= n,
            r@ =~= seq![HEADER, HEADER, length_byte(n as nat), genre] + command_data@.subrange(0, i as int),
        decreases n - i,
    {
        r.push(command_data[i]);
        i = i + 1;
        assert(r@ =~= seq![HEADER, HEADER, length_byte(n as nat), genre] + command_data@.subrange(0, i as int));
    }
    r.push(FOOTER);
    assert(command_data@.subrange(0, n as int) =~= command_data@);
    assert(r@ =~= frame(genre, command_data@));
    r
}

/// Whether two header bytes stand at `pos` and `pos + 1`.
pub fn is_frame_header(data: &[u8], pos: usize) -> (r: bool)
    requires
        pos + 1 < data@.len(),
    ensures
        r == header_at(data@, pos as int),
{
    data[pos] == HEADER && data[pos + 1] == HEADER
}

proof fn lemma_first_header_unique(raw: Seq<u8>, a: int, b: int)
    requires
        first_header(raw, a),
        first_header(raw, b),
    ensures
        a == b,
{
    if a < b {
        assert(!header_at(raw, a));
    } else if b < a {
        assert(!header_at(raw, b));
    }
}

/// The payload of the reply frame for `genre` found in `data`; empty where no
/// header pair is found, the first frame carries another opcode, its length
/// byte is under two or it is cut short.
pub fn parse_frame(data: &[u8], genre: u8) -> (r: Vec<u8>)
    ensures
        r@ == parsed(data@, genre),
{
    let n: usize = data.len();
    let mut i: usize = 0;
    let mut found: bool = false;
    while !found && n > 0 && i < n - 1
        invariant
            n == data@.len(),
            i <= n,
            found ==> header_at(data@, i as int),
            forall|j: int| 0 <= j < i ==> !#[trigger] header_at(data@, j),
        decreases n - i + (if found { 0int } else { 1int }),
    {
        if is_frame_header(data, i) {
            found = true;
        } else {
            i = i + 1;
        }
    }
    if !found {
        assert forall|k: int| !#[trigger] first_header(data@, k) by {
            if first_header(data@, k) {
                assert(k < i);
            }
        }
        return Vec::new();
    }
    assert(first_header(data@, i as int));
    proof {
        let c = choose|k: int| first_header(data@, k);
        lemma_first_header_unique(data@, c, i as int);
    }
    let mut r: Vec<u8> = Vec::new();
    if n - i <= 3 || data[i + 2] < 2 || data[i + 3] != genre {
        return r;
    }
    let len: usize = data[i + 2] as usize;
    if len > n - i - 2 {
        return r;
    }
    let end: usize = i + 2 + len;
    let mut k: usize = i + 4;
    while k < end
        invariant
            i + 4 <= k <= end,
            end <= n == data@.len(),
            r@ =~= data@.subrange(i + 4, k as int),
        decreases end - k,
    {
        r.push(data[k]);
        k = k + 1;
        assert(r@ =~= data@.subrange(i + 4, k as int));
    }
    r
}

/// The values of a reply payload for `genre`, decided by its length alone.
pub fn decode_payload(payload: &[u8], genre: u8) -> (r: Vec<i16>)
    ensures
        r@ == decoded(payload@, genre),
{
    let mut r: Vec<i16> = Vec::new();
    let n: usize = payload.len();
    if n == 12 {
        return decode_int16_vec(payload);
    } else if n == 2 {
        if genre == IS_SERVO_ENABLE {
            r.push(decode_int8(&[payload[1]]) as i16);
        } else {
            r.push(decode_int16(payload));
        }
    } else if n > 0 {
        r.push(decode_int8(payload) as i16);
    }
    assert(r@ =~= decoded(payload@, genre));
    r
}

/// The values that the raw reply `data` carries for `genre`.
pub fn process_received(data: &[u8], genre: u8) -> (r: Vec<i16>)
    ensures
        r@ == received(data@, genre),
{
    let payload = parse_frame(data, genre);
    decode_payload(payload.as_slice(), genre)
}

proof fn lemma_parsed_at_first(raw: Seq<u8>, i: int, genre: u8)
    requires
        first_header(raw, i),
    ensures
        parsed(raw, genre) == payload_at(raw, i, genre),
{
    let c = choose|k: int| first_header(raw, k);
    lemma_first_header_unique(raw, c, i);
}

/// A frame built for a payload of at most 253 bytes parses back, under its
/// own opcode, to that payload.
pub proof fn lemma_frame_round_trip(genre: u8, payload: Seq<u8>)
    requires
        payload.len() <= 253,
    ensures
        parsed(frame(genre, payload), genre) == payload,
{
    let f = frame(genre, payload);
    assert(first_header(f, 0));
    lemma_parsed_at_first(f, 0, genre);
    assert(f[2] == payload.len() + 2);
    assert(f.subrange(4, 4 + payload.len() as int) =~= payload);
}

/// A frame parsed under any opcode other than its own yields no payload.
pub proof fn lemma_frame_other_genre(genre: u8, expected: u8, payload: Seq<u8>)
    requires
        genre != expected,
    ensures
        parsed(frame(genre, payload), expected) == Seq::<u8>::empty(),
{
    let f = frame(genre, payload);
    assert(first_header(f, 0));
    lemma_parsed_at_first(f, 0, expected);
}

/// Bytes in front of a frame do not change what it parses to, provided they
/// hold no header pair and do not end in a header byte (which would pair with
/// the frame's first byte).
pub proof fn lemma_frame_after_noise(noise: Seq<u8>, genre: u8, expected: u8, payload: Seq<u8>)
    requires
        forall|j: int| !#[trigger] header_at(noise, j),
        noise.len() == 0 || noise[noise.len() - 1] != HEADER,
    ensures
        parsed(noise + frame(genre, payload), expected) == parsed(frame(genre, payload), expected),
{
    let f = frame(genre, payload);
    let raw = noise + f;
    let m = noise.len() as int;
    assert(first_header(f, 0));
    lemma_parsed_at_first(f, 0, expected);
    assert forall|j: int| 0 <= j < m implies !#[trigger] header_at(raw, j) by {
        if j + 1 < m {
            assert(!header_at(noise, j));
        } else {
            assert(raw[j] == noise[m - 1]);
        }
    }
    assert(header_at(raw, m));
    assert(first_header(raw, m));
    lemma_parsed_at_first(raw, m, expected);
    assert(raw.subrange(m, raw.len() as int) =~= f);
    if m + 3 < raw.len() && raw[m + 2] >= 2 && raw[m + 3] == expected && m + 2 + raw[m + 2] <= raw.len() {
        assert(raw.subrange(m + 4, m + 2 + raw[m + 2]) =~= f.subrange(4, 2 + f[2]));
    }
}

} // verus!
