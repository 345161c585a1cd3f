//! Fixed-size binary packets: a two-byte header (version, then two bits of
//! encoding and six bits of packet type) followed by a payload whose size is
//! fixed by the packet type.

use vstd::prelude::*;
use vstd::utf8::{
    char_u32_cast, decode_first_scalar, decode_utf8, encode_utf8, encode_utf8_decode_utf8,
    encode_utf8_first_scalar, encode_utf8_valid_utf8, valid_utf8,
};

verus! {

/// Size of the header that starts every packet.
pub const PACKET_INFO_SIZE: usize = 2;

pub const GAME_PACKET_VERSION: u8 = 1;

/// Size of the content of a game packet: a big-endian `u16`.
pub const GAME_PACKET_SIZE: usize = 2;

pub const AUTH_RESPONSE_VERSION: u8 = 1;

/// Size of the payload of an authentication response.
pub const AUTH_RESPONSE_SIZE: usize = 32;

pub const AUTH_REQUEST_VERSION: u8 = 1;

/// Size of the payload of an authentication request.
pub const AUTH_REQUEST_SIZE: usize = 52;

pub const USERNAME_LENGTH: usize = 20;

pub const PASSWORD_LENGTH: usize = 32;

/// Size of a whole authentication request: header and payload.
pub const AUTH_REQUEST_PACKET_SIZE: usize = 54;

/// Size of a whole authentication response: header and payload.
pub const AUTH_RESPONSE_PACKET_SIZE: usize = 34;

/// Size of a whole game packet: header and content.
pub const GAME_PACKET_TOTAL_SIZE: usize = 4;

/// The kind of a packet, carried in the low six bits of the header's
/// second byte.
#[derive(Debug, Clone, Copy, PartialEq, Eq, Structural)]
pub enum DataType {
    AuthRequest,
    AuthResponse,
    Ping,
    Disconnect,
    Unknown,
}

/// The packet type that a six-bit type code stands for.
pub open spec fn data_type_of(code: u8) -> DataType {
    if code == 1 {
        DataType::AuthRequest
    } else if code == 2 {
        DataType::AuthResponse
    } else if code == 3 {
        DataType::Ping
    } else if code == 4 {
        DataType::Disconnect
    } else {
        DataType::Unknown
    }
}

/// The code that a packet type is written as.
pub open spec fn type_code(t: DataType) -> u8 {
    match t {
        DataType::AuthRequest => 1,
        DataType::AuthResponse => 2,
        DataType::Ping => 3,
        DataType::Disconnect => 4,
        DataType::Unknown => 5,
    }
}

impl DataType {
    pub fn from_u8(value: u8) -> (r: DataType)
        ensures
            r == data_type_of(value),
    {
        match value {
            1 => DataType::AuthRequest,
            2 => DataType::AuthResponse,
            3 => DataType::Ping,
            4 => DataType::Disconnect,
            _ => DataType::Unknown,
        }
    }

    pub fn to_u8(&self) -> (r: u8)
        ensures
            r == type_code(*self),
    {
        match self {
            DataType::AuthRequest => 1,
            DataType::AuthResponse => 2,
            DataType::Ping => 3,
            DataType::Disconnect => 4,
            DataType::Unknown => 5,
        }
    }
}


/// The second header byte of a packet of type `t` in encoding 0.
pub open spec fn header_type_byte(t: DataType) -> u8 {
    type_code(t) & 0x3F
}

/// The header of a packet of type `t` at protocol version `version`.
pub open spec fn header_bytes(version: u8, t: DataType) -> Seq<u8> {
    seq![version, header_type_byte(t)]
}

/// Splits a header into its version, its encoding (the top two bits of the
/// second byte) and its packet type (the low six bits). Every input has an
/// answer: codes without a meaning give `DataType::Unknown`.
pub fn get_package_type(bytes: [u8; PACKET_INFO_SIZE]) -> (r: (u8, u8, DataType))
    ensures
        r.0 == bytes[0],
        r.1 == bytes[1] >> 6,
        r.1 < 4,
        r.2 == data_type_of(bytes[1] & 0x3F),
{
    let version: u8 = bytes[0];
    let encoding_and_type: u8 = bytes[1];
    let encoding: u8 = encoding_and_type >> 6;
    assert(encoding_and_type >> 6 < 4) by (bit_vector);
    let data_type: DataType = DataType::from_u8(encoding_and_type & 0x3F);
    (version, encoding, data_type)
}

/// The first `width` bytes of `value`, or all of it when it is shorter.
pub open spec fn truncated(value: Seq<u8>, width: nat) -> Seq<u8> {
    if value.len() <= width {
        value
    } else {
        value.subrange(0, width as int)
    }
}

/// A fixed-width field holding `value`: cut to `width` bytes, and with zero
/// bytes in front when it is shorter.
pub open spec fn padded_field(value: Seq<u8>, width: nat) -> Seq<u8> {
    Seq::new((width - truncated(value, width).len()) as nat, |i: int| 0u8) + truncated(
        value,
        width,
    )
}

/// `bytes` without the zero bytes it starts with.
pub open spec fn strip_leading_zeros(bytes: Seq<u8>) -> Seq<u8>
    decreases bytes.len(),
{
    if bytes.len() > 0 && bytes[0] == 0 {
        strip_leading_zeros(bytes.drop_first())
    } else {
        bytes
    }
}

/// The text a fixed-width field holds: its bytes after the leading zero
/// bytes, read as UTF-8; none when they are not valid UTF-8.
pub open spec fn field_text(field: Seq<u8>) -> Option<Seq<char>> {
    if valid_utf8(strip_leading_zeros(field)) {
        Some(decode_utf8(strip_leading_zeros(field)))
    } else {
        None
    }
}

/// The bytes of an authentication request for the given UTF-8 encoded
/// username and password.
pub open spec fn auth_request_bytes(username: Seq<u8>, password: Seq<u8>) -> Seq<u8> {
    header_bytes(AUTH_REQUEST_VERSION, DataType::AuthRequest) + padded_field(
        username,
        USERNAME_LENGTH as nat,
    ) + padded_field(password, PASSWORD_LENGTH as nat)
}

/// The bytes of an authentication response carrying the given UTF-8
/// encoded token.
pub open spec fn auth_response_bytes(token: Seq<u8>) -> Seq<u8> {
    header_bytes(AUTH_RESPONSE_VERSION, DataType::AuthResponse) + padded_field(
        token,
        AUTH_RESPONSE_SIZE as nat,
    )
}

/// Writes `padded_field(value, width)` into `packet` at `start`.
fn write_field<const N: usize>(packet: &mut [u8; N], start: usize, width: usize, value: &[u8])
    requires
        start + width <= N,
    ensures
        final(packet)@ == old(packet)@.subrange(0, start as int) + padded_field(
            value@,
            width as nat,
        ) + old(packet)@.subrange(start + width, N as int),
{
    let len: usize = if value.len() < width {
        value.len()
    } else {
        width
    };
    let pad: usize = width - len;
    let ghost field = padded_field(value@, width as nat);
    let ghost kept = truncated(value@, width as nat);
    assert(kept.len() == len);
    assert(field.len() == width);
    assert(forall|j: int| 0 <= j < pad ==> field[j] == 0u8);
    assert(forall|j: int| pad <= j < width ==> field[j] == kept[j - pad]);
    assert(forall|j: int| 0 <= j < len ==> kept[j] == value@[j]);
    let mut i: usize = 0;
    while i < width
        invariant
            i <= width,
            start + width <= N,
            len <= value@.len(),
            len <= width,
            pad == width - len,
            field == padded_field(value@, width as nat),
            field.len() == width,
            forall|j: int| 0 <= j < pad ==> field[j] == 0u8,
            forall|j: int| pad <= j < width ==> field[j] == kept[j - pad],
            forall|j: int| 0 <= j < len ==> kept[j] == value@[j],
            packet@.len() == N,
            forall|j: int| 0 <= j < start ==> packet@[j] == old(packet)@[j],
            forall|j: int| start + width <= j < N ==> packet@[j] == old(packet)@[j],
            forall|j: int| 0 <= j < i ==> packet@[start + j] == field[j],
        decreases width - i,
    {
        if i < pad {
            packet[start + i] = 0;
        } else {
            packet[start + i] = value[i - pad];
            assert(field[i as int] == value@[i - pad]);
        }
        i = i + 1;
    }
    assert(final(packet)@ =~= old(packet)@.subrange(0, start as int) + field + old(
        packet,
    )@.subrange(start + width, N as int));
}

/// Builds an authentication request: the header, then the username in a
/// 20-byte field and the password in a 32-byte field. A shorter value has
/// zero bytes in front; a longer one keeps its first bytes only.
pub fn create_auth_request_package(username: String, password: String) -> (r: [u8;
    AUTH_REQUEST_PACKET_SIZE])
    ensures
        r@ == auth_request_bytes(encode_utf8(username@), encode_utf8(password@)),
        encode_utf8(username@).len() >= USERNAME_LENGTH ==> r@.subrange(2, 22)
            == encode_utf8(username@).subrange(0, 20),
        encode_utf8(password@).len() >= PASSWORD_LENGTH ==> r@.subrange(22, 54)
            == encode_utf8(password@).subrange(0, 32),
{
    let version: u8 = AUTH_REQUEST_VERSION;
    let encoding: u8 = 0;
    let type_bits: u8 = DataType::AuthRequest.to_u8() & 0x3F;
    let encoding_and_data_type: u8 = (encoding << 6u8) | type_bits;
    assert((0u8 << 6u8) | type_bits == type_bits) by (bit_vector);
    let mut packet: [u8; AUTH_REQUEST_PACKET_SIZE] = [0u8; AUTH_REQUEST_PACKET_SIZE];
    packet[0] = version;
    packet[1] = encoding_and_data_type;
    write_field(&mut packet, PACKET_INFO_SIZE, USERNAME_LENGTH, username.as_str().as_bytes());
    write_field(
        &mut packet,
        PACKET_INFO_SIZE + USERNAME_LENGTH,
        PASSWORD_LENGTH,
        password.as_str().as_bytes(),
    );
    assert(packet@ =~= auth_request_bytes(encode_utf8(username@), encode_utf8(password@)));
    assert(encode_utf8(username@).len() >= USERNAME_LENGTH ==> packet@.subrange(2, 22)
        =~= encode_utf8(username@).subrange(0, 20));
    assert(encode_utf8(password@).len() >= PASSWORD_LENGTH ==> packet@.subrange(22, 54)
        =~= encode_utf8(password@).subrange(0, 32));
    packet
}


/// Why an authentication request could not be read.
#[derive(Debug, Clone, Copy, PartialEq, Eq, Structural)]
pub enum DecodeError {
    /// The username field, without its leading zero bytes, is not UTF-8.
    InvalidUsername,
    /// The password field, without its leading zero bytes, is not UTF-8.
    InvalidPassword,
}

/// Relies on `String::from_utf8`: it accepts exactly the valid UTF-8 byte
/// sequences, and returns the characters that they encode.
#[verifier::external_body]
fn string_from_utf8(bytes: Vec<u8>) -> (r: Option<String>)
    ensures
        r is Some <==> valid_utf8(bytes@),
        r matches Some(s) ==> s@ == decode_utf8(bytes@),
{
    String::from_utf8(bytes).ok()
}

/// Reads the text of a fixed-width field: the zero bytes it starts with
/// are dropped, and the rest must be UTF-8.
fn read_field(field: &[u8]) -> (r: Option<String>)
    ensures
        r is Some <==> field_text(field@) is Some,
        r matches Some(s) ==> field_text(field@) == Some(s@),
{
    let n: usize = field.len();
    let mut i: usize = 0;
    assert(field@.subrange(0, n as int) =~= field@);
    while i < n && field[i] == 0
        invariant
            i <= n,
            n == field@.len(),
            strip_leading_zeros(field@.subrange(i as int, n as int)) == strip_leading_zeros(
                field@,
            ),
        decreases n - i,
    {
        assert(field@.subrange(i as int, n as int).drop_first() =~= field@.subrange(
            i + 1,
            n as int,
        ));
        i = i + 1;
    }
    let mut rest: Vec<u8> = Vec::new();
    let mut k: usize = i;
    while k < n
        invariant
            i <= k <= n,
            n == field@.len(),
            rest@ =~= field@.subrange(i as int, k as int),
        decreases n - k,
    {
        rest.push(field[k]);
        k = k + 1;
    }
    assert(rest@ == strip_leading_zeros(field@));
    string_from_utf8(rest)
}

/// Reads an authentication request payload: the username from its first
/// 20 bytes and the password from the other 32, each without its leading
/// zero bytes. Fails when either is not UTF-8.
pub fn unpack_auth_request_package(bytes: &[u8; AUTH_REQUEST_SIZE]) -> (r: Result<
    (String, String),
    DecodeError,
>)
    ensures
        field_text(bytes@.subrange(0, 20)) is None <==> r == Err::<(String, String), DecodeError>(
            DecodeError::InvalidUsername,
        ),
        (field_text(bytes@.subrange(0, 20)) is Some && field_text(bytes@.subrange(20, 52)) is None)
            <==> r == Err::<(String, String), DecodeError>(DecodeError::InvalidPassword),
        r is Ok <==> field_text(bytes@.subrange(0, 20)) is Some && field_text(
            bytes@.subrange(20, 52),
        ) is Some,
        r matches Ok((u, p)) ==> field_text(bytes@.subrange(0, 20)) == Some(u@) && field_text(
            bytes@.subrange(20, 52),
        ) == Some(p@),
{
    let (left, right) = bytes.as_slice().split_at(USERNAME_LENGTH);
    assert(left@ == bytes@.subrange(0, 20));
    assert(right@ == bytes@.subrange(20, 52));
    match read_field(left) {
        None => Err(DecodeError::InvalidUsername),
        Some(username) => match read_field(right) {
            None => Err(DecodeError::InvalidPassword),
            Some(password) => Ok((username, password)),
        },
    }
}

/// The token an authentication response payload carries, or the sentinel
/// `"0"` when the field is not UTF-8.
pub open spec fn response_token(payload: Seq<u8>) -> Seq<char> {
    match field_text(payload) {
        Some(t) => t,
        None => seq!['0'],
    }
}

/// Reads the token of an authentication response payload, without its
/// leading zero bytes. A payload that is not UTF-8 reads as `"0"`, the
/// same value that a server sends to refuse a client.
pub fn unpack_auth_response_package(bytes: &[u8; AUTH_RESPONSE_SIZE]) -> (r: String)
    ensures
        r@ == response_token(bytes@),
{
    match read_field(bytes.as_slice()) {
        Some(token) => token,
        None => {
            let sentinel = String::from_str("0");
            proof {
                reveal_strlit("0");
            }
            assert(sentinel@ =~= seq!['0']);
            sentinel
        },
    }
}

/// Builds an authentication response: the header, then the token in a
/// 32-byte field, with zero bytes in front when it is shorter and cut to
/// its first 32 bytes when it is longer.
pub fn create_auth_response_package(token: String) -> (r: [u8; AUTH_RESPONSE_PACKET_SIZE])
    ensures
        r@ == auth_response_bytes(encode_utf8(token@)),
{
    let version: u8 = AUTH_RESPONSE_VERSION;
    let encoding: u8 = 0;
    let type_bits: u8 = DataType::AuthResponse.to_u8() & 0x3F;
    let encoding_and_data_type: u8 = (encoding << 6u8) | type_bits;
    assert((0u8 << 6u8) | type_bits == type_bits) by (bit_vector);
    let mut packet: [u8; AUTH_RESPONSE_PACKET_SIZE] = [0u8; AUTH_RESPONSE_PACKET_SIZE];
    packet[0] = version;
    packet[1] = encoding_and_data_type;
    write_field(&mut packet, PACKET_INFO_SIZE, AUTH_RESPONSE_SIZE, token.as_str().as_bytes());
    assert(packet@ =~= auth_response_bytes(encode_utf8(token@)));
    packet
}

/// Builds a packet that is a header alone, as a ping or a disconnect is.
pub fn create_empty_package(data_type: DataType) -> (r: [u8; PACKET_INFO_SIZE])
    ensures
        r@ == header_bytes(GAME_PACKET_VERSION, data_type),
{
    let version: u8 = GAME_PACKET_VERSION;
    let encoding: u8 = 0;
    let type_bits: u8 = data_type.to_u8() & 0x3F;
    let encoding_and_data_type: u8 = (encoding << 6u8) | type_bits;
    assert((0u8 << 6u8) | type_bits == type_bits) by (bit_vector);
    let packet: [u8; PACKET_INFO_SIZE] = [version, encoding_and_data_type];
    assert(packet@ =~= header_bytes(GAME_PACKET_VERSION, data_type));
    packet
}

/// The bytes of a game packet: its header, then its content as a 16-bit
/// big-endian number.
pub open spec fn game_packet_bytes(t: DataType, content: u16) -> Seq<u8> {
    header_bytes(GAME_PACKET_VERSION, t) + seq![(content / 256) as u8, (content % 256) as u8]
}

/// Reads a game packet: the header's version, encoding and type, and the
/// big-endian content in the last two bytes.
pub fn unpack_game_package(bytes: [u8; GAME_PACKET_TOTAL_SIZE]) -> (r: (u8, u8, DataType, u16))
    ensures
        r.0 == bytes[0],
        r.1 == bytes[1] >> 6,
        r.2 == data_type_of(bytes[1] & 0x3F),
        r.3 == bytes[2] as int * 256 + bytes[3] as int,
{
    let version: u8 = bytes[0];
    let encoding_and_type: u8 = bytes[1];
    let encoding: u8 = encoding_and_type >> 6;
    let data_type: DataType = DataType::from_u8(encoding_and_type & 0x3F);
    let high: u8 = bytes[GAME_PACKET_TOTAL_SIZE - 2];
    let low: u8 = bytes[GAME_PACKET_TOTAL_SIZE - 1];
    let data: u16 = ((high as u16) << 8u16) | (low as u16);
    assert(((high as u16) << 8u16) | (low as u16) == (high as u16) * 256 + (low as u16))
        by (bit_vector);
    (version, encoding, data_type, data)
}

/// Builds a game packet of type `data_type` holding `content`.
pub fn create_game_package(data_type: DataType, content: u16) -> (r: [u8;
    GAME_PACKET_TOTAL_SIZE])
    ensures
        r@ == game_packet_bytes(data_type, content),
{
    let version: u8 = GAME_PACKET_VERSION;
    let encoding: u8 = 0;
    let type_bits: u8 = data_type.to_u8() & 0x3F;
    let encoding_and_data_type: u8 = (encoding << 6u8) | type_bits;
    assert((0u8 << 6u8) | type_bits == type_bits) by (bit_vector);
    let high: u8 = (content >> 8u16) as u8;
    let low: u8 = (content & 0xFF) as u8;
    assert((content >> 8u16) as u8 == (content / 256) as u8) by (bit_vector);
    assert((content & 0xFF) as u8 == (content % 256) as u8) by (bit_vector);
    let packet: [u8; GAME_PACKET_TOTAL_SIZE] = [version, encoding_and_data_type, high, low];
    assert(packet@ =~= game_packet_bytes(data_type, content));
    packet
}


/// The encoding of the refusal sentinel `"0"` is the single byte `0x30`.
pub(crate) proof fn lemma_sentinel_encoding()
    ensures
        encode_utf8(seq!['0']) == seq![48u8],
{
    let s = seq!['0'];
    assert(s.drop_first() =~= Seq::<char>::empty());
    assert('0' as u32 == 48u32);
    assert((48u32 & 0x7F) as u8 == 48u8) by (bit_vector);
    assert(encode_utf8(s.drop_first()) =~= Seq::<u8>::empty());
    assert(encode_utf8(s) =~= seq![48u8]);
}

/// Zero bytes put in front of a sequence that does not start with one are
/// exactly what stripping removes.
proof fn lemma_strip_zero_prefix(k: nat, t: Seq<u8>)
    requires
        t.len() > 0 ==> t[0] != 0,
    ensures
        strip_leading_zeros(Seq::new(k, |i: int| 0u8) + t) == t,
    decreases k,
{
    let zeros = Seq::new(k, |i: int| 0u8);
    if k > 0 {
        let shorter = Seq::new((k - 1) as nat, |i: int| 0u8);
        assert((zeros + t).drop_first() =~= shorter + t);
        lemma_strip_zero_prefix((k - 1) as nat, t);
    } else {
        assert(zeros + t =~= t);
    }
}

/// The UTF-8 encoding of text that does not start with a NUL character does
/// not start with a zero byte.
proof fn lemma_encoding_starts_nonzero(s: Seq<char>)
    requires
        s.len() > 0,
        s[0] != '\0',
    ensures
        encode_utf8(s)[0] != 0,
{
    let bytes = encode_utf8(s);
    encode_utf8_first_scalar(s);
    char_u32_cast(s[0], s[0] as u32);
    if bytes[0] == 0 {
        assert((0u8 & 0x7F) as u32 == 0u32) by (bit_vector);
        assert(decode_first_scalar(bytes) == 0);
        assert(s[0] == (0u32 as char));
    }
}

/// A field filled from text that fits and does not start with a NUL
/// character reads back as that text.
proof fn lemma_field_round_trip(s: Seq<char>, width: nat)
    requires
        encode_utf8(s).len() <= width,
        s.len() > 0 ==> s[0] != '\0',
    ensures
        field_text(padded_field(encode_utf8(s), width)) == Some(s),
{
    let bytes = encode_utf8(s);
    if s.len() > 0 {
        lemma_encoding_starts_nonzero(s);
    } else {
        assert(bytes =~= Seq::<u8>::empty());
    }
    lemma_strip_zero_prefix((width - bytes.len()) as nat, bytes);
    encode_utf8_valid_utf8(s);
    encode_utf8_decode_utf8(s);
}

/// Reading back the payload of an authentication request gives the username
/// and the password it was built from, when each fits its field and does not
/// start with a NUL character (whose zero byte would be read as padding).
pub proof fn lemma_auth_request_round_trip(username: Seq<char>, password: Seq<char>)
    requires
        encode_utf8(username).len() <= USERNAME_LENGTH,
        encode_utf8(password).len() <= PASSWORD_LENGTH,
        username.len() > 0 ==> username[0] != '\0',
        password.len() > 0 ==> password[0] != '\0',
    ensures
        ({
            let payload = auth_request_bytes(encode_utf8(username), encode_utf8(password)).subrange(
                2,
                54,
            );
            field_text(payload.subrange(0, 20)) == Some(username) && field_text(
                payload.subrange(20, 52),
            ) == Some(password)
        }),
{
    let u = padded_field(encode_utf8(username), USERNAME_LENGTH as nat);
    let p = padded_field(encode_utf8(password), PASSWORD_LENGTH as nat);
    let payload = auth_request_bytes(encode_utf8(username), encode_utf8(password)).subrange(2, 54);
    assert(payload.subrange(0, 20) =~= u);
    assert(payload.subrange(20, 52) =~= p);
    lemma_field_round_trip(username, USERNAME_LENGTH as nat);
    lemma_field_round_trip(password, PASSWORD_LENGTH as nat);
}

/// Reading back an authentication response gives the token it was built
/// from, when the token fits the field and does not start with a NUL
/// character; the refusal sentinel `"0"` is one such token.
pub proof fn lemma_auth_response_round_trip(token: Seq<char>)
    requires
        encode_utf8(token).len() <= AUTH_RESPONSE_SIZE,
        token.len() > 0 ==> token[0] != '\0',
    ensures
        response_token(auth_response_bytes(encode_utf8(token)).subrange(2, 34)) == token,
{
    let t = padded_field(encode_utf8(token), AUTH_RESPONSE_SIZE as nat);
    assert(auth_response_bytes(encode_utf8(token)).subrange(2, 34) =~= t);
    lemma_field_round_trip(token, AUTH_RESPONSE_SIZE as nat);
}

} // verus!
