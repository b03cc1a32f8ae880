//! The framed wire protocol: one typed message per connection, carried as an
//! 8-byte header (two digits of type code, one unused byte, five digits of
//! content length) followed by the UTF-8 content in zero-padded 8-byte chunks.

use vstd::prelude::*;
use vstd::utf8::encode_utf8;
use vstd::utf8::decode_utf8;
use vstd::utf8::valid_utf8;

verus! {

/// A wire-level failure while reading one frame.
#[derive(Clone, Copy, Debug, PartialEq, Eq, Structural)]
pub enum CBCATcpError {
    /// The decoded frame type is neither the expected one nor `Error`.
    UnexpectedType,
    /// The header or the body is not well formed: a short header, a length
    /// field that is not a numeral, or content that is not UTF-8 text.
    Malformed,
}

/// The kind of one frame, carried as a two-digit code on the wire.
#[derive(Clone, Copy, Debug, PartialEq, Eq, Structural)]
pub enum CBCATcpPayloadType {
    Error,
    Data,
    Debug,
    Reqwest,
    Unknown,
}

/// The frame kind named by a two-character type code; anything but the four
/// assigned codes reads as `Unknown`.
pub open spec fn type_of_code(s: Seq<char>) -> CBCATcpPayloadType {
    if s.len() != 2 {
        CBCATcpPayloadType::Unknown
    } else if s[0] == '0' && s[1] == '0' {
        CBCATcpPayloadType::Error
    } else if s[0] == '0' && s[1] == '1' {
        CBCATcpPayloadType::Data
    } else if s[0] == '0' && s[1] == '2' {
        CBCATcpPayloadType::Debug
    } else if s[0] == '0' && s[1] == '3' {
        CBCATcpPayloadType::Reqwest
    } else {
        CBCATcpPayloadType::Unknown
    }
}

/// The two code bytes written for a frame kind.
pub open spec fn code_bytes(t: CBCATcpPayloadType) -> Seq<u8> {
    match t {
        CBCATcpPayloadType::Error => seq![48u8, 48u8],
        CBCATcpPayloadType::Data => seq![48u8, 49u8],
        CBCATcpPayloadType::Debug => seq![48u8, 50u8],
        CBCATcpPayloadType::Reqwest => seq![48u8, 51u8],
        CBCATcpPayloadType::Unknown => seq![48u8, 52u8],
    }
}

/// The frame kind read back from two code bytes.
pub open spec fn type_of_code_bytes(b0: u8, b1: u8) -> CBCATcpPayloadType {
    if b0 == 48 && b1 == 48 {
        CBCATcpPayloadType::Error
    } else if b0 == 48 && b1 == 49 {
        CBCATcpPayloadType::Data
    } else if b0 == 48 && b1 == 50 {
        CBCATcpPayloadType::Debug
    } else if b0 == 48 && b1 == 51 {
        CBCATcpPayloadType::Reqwest
    } else {
        CBCATcpPayloadType::Unknown
    }
}

/// Every frame kind's code reads back as that kind.
pub proof fn lemma_code_bytes_round_trip(t: CBCATcpPayloadType)
    ensures
        type_of_code_bytes(code_bytes(t)[0], code_bytes(t)[1]) == t,
{
}

impl CBCATcpPayloadType {
    /// The frame kind named by a type-code string.
    pub fn from_str(action: &str) -> (r: Self)
        ensures
            r == type_of_code(action@),
    {
        let chars = crate::text::str_to_chars(action);
        if chars.len() != 2 {
            CBCATcpPayloadType::Unknown
        } else if chars[0] != '0' {
            CBCATcpPayloadType::Unknown
        } else if chars[1] == '0' {
            CBCATcpPayloadType::Error
        } else if chars[1] == '1' {
            CBCATcpPayloadType::Data
        } else if chars[1] == '2' {
            CBCATcpPayloadType::Debug
        } else if chars[1] == '3' {
            CBCATcpPayloadType::Reqwest
        } else {
            CBCATcpPayloadType::Unknown
        }
    }

    /// True exactly of the `Error` kind.
    pub fn is_error(&self) -> (r: bool)
        ensures
            r == (*self is Error),
    {
        match self {
            CBCATcpPayloadType::Error => true,
            _ => false,
        }
    }

    /// True exactly of the `Data` kind.
    pub fn is_data(&self) -> (r: bool)
        ensures
            r == (*self is Data),
    {
        match self {
            CBCATcpPayloadType::Data => true,
            _ => false,
        }
    }

    /// True exactly of the `Debug` kind.
    pub fn is_debug(&self) -> (r: bool)
        ensures
            r == (*self is Debug),
    {
        match self {
            CBCATcpPayloadType::Debug => true,
            _ => false,
        }
    }

    /// True exactly of the `Unknown` kind.
    pub fn is_unknown(&self) -> (r: bool)
        ensures
            r == (*self is Unknown),
    {
        match self {
            CBCATcpPayloadType::Unknown => true,
            _ => false,
        }
    }

    /// True exactly of the `Reqwest` kind.
    pub fn is_reqwest(&self) -> (r: bool)
        ensures
            r == (*self is Reqwest),
    {
        match self {
            CBCATcpPayloadType::Reqwest => true,
            _ => false,
        }
    }
}

/// One frame: its kind, the byte length of its content, and the content.
#[derive(Debug)]
pub struct CBCATcpPayload {
    pub payload_type: CBCATcpPayloadType,
    pub payload_size: u32,
    pub payload_content: String,
}

impl CBCATcpPayload {
    /// The stored size is the byte length of the stored content.
    pub open spec fn wf(self) -> bool {
        self.payload_size == encode_utf8(self.payload_content@).len()
    }

    /// Builds a frame over the given content; well-formed whenever the
    /// content's byte length fits the size field.
    pub fn spawn(payload_type: CBCATcpPayloadType, payload_content: String) -> (r: Self)
        ensures
            r.payload_type == payload_type,
            r.payload_content == payload_content,
            encode_utf8(payload_content@).len() <= u32::MAX ==> r.wf(),
    {
        let n = payload_content.as_str().len();
        let payload_size: u32 = if n <= 0xffff_ffffusize {
            n as u32
        } else {
            0xffff_ffffu32
        };
        Self { payload_type, payload_size, payload_content }
    }
}

/// True when `b` is the ASCII code of a decimal digit.
pub open spec fn byte_is_digit(b: u8) -> bool {
    48 <= b <= 57
}

/// The ASCII byte of a digit value.
pub open spec fn digit_byte(d: int) -> u8
    recommends
        0 <= d < 10,
{
    (48 + d) as u8
}

/// The five zero-padded digit bytes of a content length.
pub open spec fn len5_bytes(n: int) -> Seq<u8>
    recommends
        0 <= n <= 99999,
{
    seq![
        digit_byte(n / 10000 % 10),
        digit_byte(n / 1000 % 10),
        digit_byte(n / 100 % 10),
        digit_byte(n / 10 % 10),
        digit_byte(n % 10),
    ]
}

/// The value read from five digit bytes.
pub open spec fn len5_val(b: Seq<u8>) -> int
    recommends
        b.len() == 5,
{
    (b[0] - 48) * 10000 + (b[1] - 48) * 1000 + (b[2] - 48) * 100 + (b[3] - 48) * 10 + (b[4]
        - 48)
}

/// A length below 100000 writes as five digit bytes that read back as itself.
pub proof fn lemma_len5_round_trip(n: int)
    requires
        0 <= n <= 99999,
    ensures
        len5_bytes(n).len() == 5,
        forall|k: int| 0 <= k < 5 ==> byte_is_digit(#[trigger] len5_bytes(n)[k]),
        len5_val(len5_bytes(n)) == n,
{
    assert((n / 10000 % 10) * 10000 + (n / 1000 % 10) * 1000 + (n / 100 % 10) * 100 + (n / 10
        % 10) * 10 + n % 10 == n) by (nonlinear_arith)
        requires
            0 <= n <= 99999,
    ;
}

/// `k` zero bytes, as padded onto the final chunk of a frame body.
pub open spec fn zero_bytes(k: int) -> Seq<u8> {
    Seq::new(k as nat, |i: int| 0u8)
}

/// How many zero bytes pad a body of `n` bytes to whole 8-byte chunks.
pub open spec fn pad_len(n: int) -> int {
    (8 - n % 8) % 8
}

/// A body segment with every zero byte dropped, as the receiver strips
/// chunk padding. A documented limitation of the protocol: genuine zero
/// bytes inside content are dropped with the padding.
pub open spec fn strip_zeros(s: Seq<u8>) -> Seq<u8>
    decreases s.len(),
{
    if s.len() == 0 {
        Seq::<u8>::empty()
    } else if s.first() == 0 {
        strip_zeros(s.drop_first())
    } else {
        seq![s.first()] + strip_zeros(s.drop_first())
    }
}

/// Stripping zeros distributes over concatenation.
pub proof fn lemma_strip_zeros_concat(a: Seq<u8>, b: Seq<u8>)
    ensures
        strip_zeros(a + b) == strip_zeros(a) + strip_zeros(b),
    decreases a.len(),
{
    if a.len() == 0 {
        assert(a + b =~= b);
        assert(strip_zeros(a) + strip_zeros(b) =~= strip_zeros(b));
    } else {
        assert((a + b).drop_first() =~= a.drop_first() + b);
        lemma_strip_zeros_concat(a.drop_first(), b);
        if a.first() != 0 {
            assert(seq![a.first()] + (strip_zeros(a.drop_first()) + strip_zeros(b)) =~= (
            seq![a.first()] + strip_zeros(a.drop_first())) + strip_zeros(b));
        }
    }
}

/// A sequence without zero bytes survives stripping unchanged.
pub proof fn lemma_strip_zeros_id(s: Seq<u8>)
    requires
        forall|k: int| 0 <= k < s.len() ==> #[trigger] s[k] != 0,
    ensures
        strip_zeros(s) == s,
    decreases s.len(),
{
    if s.len() > 0 {
        assert(forall|k: int|
            0 <= k < s.drop_first().len() ==> #[trigger] s.drop_first()[k] != 0);
        lemma_strip_zeros_id(s.drop_first());
        assert(seq![s.first()] + s.drop_first() =~= s);
    }
}

/// All-zero padding strips to nothing.
pub proof fn lemma_strip_zeros_zero(k: int)
    requires
        k >= 0,
    ensures
        strip_zeros(zero_bytes(k)) == Seq::<u8>::empty(),
    decreases k,
{
    if k > 0 {
        assert(zero_bytes(k).drop_first() =~= zero_bytes(k - 1));
        lemma_strip_zeros_zero(k - 1);
    }
}

/// The byte form of one whole frame: header, content bytes, and the zero
/// padding that fills the final 8-byte chunk.
pub open spec fn spec_encode_frame(t: CBCATcpPayloadType, content: Seq<char>) -> Seq<u8>
    recommends
        encode_utf8(content).len() <= 99999,
{
    let body = encode_utf8(content);
    code_bytes(t) + seq![48u8] + len5_bytes(body.len() as int) + body + zero_bytes(
        pad_len(body.len() as int),
    )
}

/// The header and raw content bytes of one frame, before chunk padding.
pub open spec fn spec_build_response(t: CBCATcpPayloadType, content: Seq<char>) -> Seq<u8>
    recommends
        encode_utf8(content).len() <= 99999,
{
    code_bytes(t) + seq![48u8] + len5_bytes(encode_utf8(content).len() as int) + encode_utf8(
        content,
    )
}

/// What reading one frame from the received bytes yields, at the byte level:
/// the frame kind and the content bytes with chunk padding stripped, or the
/// wire error the header earns.
pub open spec fn spec_decode_frame(data: Seq<u8>, expected: CBCATcpPayloadType) -> Result<
    (CBCATcpPayloadType, Seq<u8>),
    CBCATcpError,
> {
    if data.len() < 8 {
        Err(CBCATcpError::Malformed)
    } else {
        let t = type_of_code_bytes(data[0], data[1]);
        if t != expected && !(t is Error) {
            Err(CBCATcpError::UnexpectedType)
        } else if !(byte_is_digit(data[3]) && byte_is_digit(data[4]) && byte_is_digit(data[5])
            && byte_is_digit(data[6]) && byte_is_digit(data[7])) {
            Err(CBCATcpError::Malformed)
        } else {
            let n = len5_val(data.subrange(3, 8));
            let chunks = (n + 7) / 8;
            let limit = if 8 + 8 * chunks <= data.len() {
                8 + 8 * chunks
            } else {
                data.len() as int
            };
            Ok((t, strip_zeros(data.subrange(8, limit))))
        }
    }
}

/// Relies on `core::str::from_utf8`: it succeeds exactly on valid UTF-8 and
/// yields the text those bytes encode.
#[verifier::external_body]
fn bytes_to_string(bytes: &Vec<u8>) -> (r: Option<String>)
    ensures
        match r {
            Some(s) => valid_utf8(bytes@) && s@ == decode_utf8(bytes@),
            None => !valid_utf8(bytes@),
        },
{
    match core::str::from_utf8(bytes.as_slice()) {
        Ok(s) => Some(s.to_owned()),
        Err(_) => None,
    }
}

/// The UTF-8 bytes of a string slice.
fn string_to_bytes(s: &str) -> (r: Vec<u8>)
    ensures
        r@ == encode_utf8(s@),
{
    vstd::slice::slice_to_vec(s.as_bytes())
}

impl CBCATcpPayload {
    /// Lays the frame out as header plus raw content bytes, exactly as the
    /// sender chunks it onto the wire.
    pub fn build_response(&self) -> (r: Vec<u8>)
        requires
            self.wf(),
            self.payload_size <= 99999,
        ensures
            r@ == spec_build_response(self.payload_type, self.payload_content@),
    {
        let mut out: Vec<u8> = Vec::new();
        let (c0, c1): (u8, u8) = match self.payload_type {
            CBCATcpPayloadType::Error => (48, 48),
            CBCATcpPayloadType::Data => (48, 49),
            CBCATcpPayloadType::Debug => (48, 50),
            CBCATcpPayloadType::Reqwest => (48, 51),
            CBCATcpPayloadType::Unknown => (48, 52),
        };
        out.push(c0);
        out.push(c1);
        out.push(48);
        let n = self.payload_size as usize;
        out.push((48 + (n / 10000) % 10) as u8);
        out.push((48 + (n / 1000) % 10) as u8);
        out.push((48 + (n / 100) % 10) as u8);
        out.push((48 + (n / 10) % 10) as u8);
        out.push((48 + n % 10) as u8);
        let body = string_to_bytes(self.payload_content.as_str());
        out.extend_from_slice(body.as_slice());
        assert(out@ =~= spec_build_response(self.payload_type, self.payload_content@));
        out
    }
}

/// Copies the bytes of `v` between `a` and `b`.
fn subvec(v: &Vec<u8>, a: usize, b: usize) -> (r: Vec<u8>)
    requires
        a <= b <= v@.len(),
    ensures
        r@ == v@.subrange(a as int, b as int),
{
    let mut r: Vec<u8> = Vec::new();
    let mut k: usize = a;
    while k < b
        invariant
            a <= k <= b <= v@.len(),
            r@ == v@.subrange(a as int, k as int),
        decreases b - k,
    {
        r.push(v[k]);
        k = k + 1;
        assert(r@ =~= v@.subrange(a as int, k as int));
    }
    r
}

impl CBCATcpPayload {
    /// Reads a frame out of an already assembled byte buffer: the kind from
    /// the first two bytes, the content from everything after the header,
    /// with no chunk stripping.
    pub fn decode_response(payload: &Vec<u8>) -> (r: Result<CBCATcpPayload, CBCATcpError>)
        requires
            payload@.len() >= 8,
        ensures
            match r {
                Ok(p) => {
                    &&& valid_utf8(payload@.subrange(0, 2))
                    &&& valid_utf8(payload@.subrange(8, payload@.len() as int))
                    &&& p.payload_type == type_of_code(decode_utf8(payload@.subrange(0, 2)))
                    &&& p.payload_content@ == decode_utf8(
                        payload@.subrange(8, payload@.len() as int),
                    )
                },
                Err(e) => e is Malformed && (!valid_utf8(payload@.subrange(0, 2))
                    || !valid_utf8(payload@.subrange(8, payload@.len() as int))),
            },
    {
        let head = subvec(payload, 0, 2);
        let tail = subvec(payload, 8, payload.len());
        match bytes_to_string(&head) {
            None => Err(CBCATcpError::Malformed),
            Some(action) => match bytes_to_string(&tail) {
                None => Err(CBCATcpError::Malformed),
                Some(content) => Ok(
                    Self::spawn(CBCATcpPayloadType::from_str(action.as_str()), content),
                ),
            },
        }
    }
}

/// Encodes one frame into its full wire form, padded to whole chunks; fails
/// exactly when the content does not fit the five-digit length field.
pub fn encode_frame(t: CBCATcpPayloadType, content: String) -> (r: Option<Vec<u8>>)
    requires
        encode_utf8(content@).len() <= usize::MAX,
    ensures
        match r {
            Some(v) => encode_utf8(content@).len() <= 99999 && v@ == spec_encode_frame(
                t,
                content@,
            ),
            None => encode_utf8(content@).len() > 99999,
        },
{
    let n = content.as_str().len();
    if n > 99999 {
        return None;
    }
    let p = CBCATcpPayload::spawn(t, content);
    let mut out = p.build_response();
    let pad = (8 - n % 8) % 8;
    let mut k: usize = 0;
    while k < pad
        invariant
            k <= pad,
            pad == pad_len(n as int),
            n == encode_utf8(p.payload_content@).len(),
            out@ == spec_build_response(p.payload_type, p.payload_content@) + zero_bytes(
                k as int,
            ),
        decreases pad - k,
    {
        out.push(0);
        k = k + 1;
        assert(out@ =~= spec_build_response(p.payload_type, p.payload_content@) + zero_bytes(
            k as int,
        ));
    }
    assert(out@ =~= spec_encode_frame(t, p.payload_content@));
    Some(out)
}

/// Reads one frame out of the received bytes: checks the kind against the
/// expected one, reads the five-digit length, strips the chunk padding, and
/// decodes the remaining bytes as UTF-8 text.
pub fn decode_frame(data: &Vec<u8>, read_type: CBCATcpPayloadType) -> (r: Result<
    (CBCATcpPayloadType, String),
    CBCATcpError,
>)
    ensures
        match r {
            Ok(p) => {
                &&& spec_decode_frame(data@, read_type) matches Ok(tb)
                &&& p.0 == tb.0
                &&& valid_utf8(tb.1)
                &&& p.1@ == decode_utf8(tb.1)
            },
            Err(e) => match spec_decode_frame(data@, read_type) {
                Ok(tb) => e is Malformed && !valid_utf8(tb.1),
                Err(e2) => e == e2,
            },
        },
{
    if data.len() < 8 {
        return Err(CBCATcpError::Malformed);
    }
    let b0 = data[0];
    let b1 = data[1];
    let t = if b0 == 48 && b1 == 48 {
        CBCATcpPayloadType::Error
    } else if b0 == 48 && b1 == 49 {
        CBCATcpPayloadType::Data
    } else if b0 == 48 && b1 == 50 {
        CBCATcpPayloadType::Debug
    } else if b0 == 48 && b1 == 51 {
        CBCATcpPayloadType::Reqwest
    } else {
        CBCATcpPayloadType::Unknown
    };
    if t != read_type && !t.is_error() {
        return Err(CBCATcpError::UnexpectedType);
    }
    let mut n: usize = 0;
    let mut k: usize = 3;
    while k < 8
        invariant
            3 <= k <= 8,
            data@.len() >= 8,
            t == type_of_code_bytes(data@[0], data@[1]),
            t == read_type || t is Error,
            forall|m: int| 3 <= m < k ==> byte_is_digit(#[trigger] data@[m]),
            k == 3 ==> n == 0,
            k == 4 ==> n <= 9,
            k == 5 ==> n <= 99,
            k == 6 ==> n <= 999,
            k == 7 ==> n <= 9999,
            k == 8 ==> n <= 99999,
            n == len5_prefix_val(data@, k as int),
        decreases 8 - k,
    {
        let b = data[k];
        if b < 48 || b > 57 {
            return Err(CBCATcpError::Malformed);
        }
        n = n * 10 + (b - 48) as usize;
        k = k + 1;
    }
    assert(n <= 99999);
    let chunks = (n + 7) / 8;
    let upper = 8 + 8 * chunks;
    let limit = if upper <= data.len() {
        upper
    } else {
        data.len()
    };
    let mut body: Vec<u8> = Vec::new();
    let mut j: usize = 8;
    proof {
        lemma_strip_zeros_concat(Seq::<u8>::empty(), Seq::<u8>::empty());
        assert(data@.subrange(8, 8) =~= Seq::<u8>::empty());
    }
    while j < limit
        invariant
            8 <= j <= limit <= data@.len(),
            body@ == strip_zeros(data@.subrange(8, j as int)),
        decreases limit - j,
    {
        let b = data[j];
        proof {
            assert(data@.subrange(8, j + 1) =~= data@.subrange(8, j as int) + seq![data@[
                j as int]]);
            lemma_strip_zeros_concat(data@.subrange(8, j as int), seq![data@[j as int]]);
            let single = seq![data@[j as int]];
            assert(single.len() == 1);
            assert(single.drop_first() =~= Seq::<u8>::empty());
            assert(strip_zeros(Seq::<u8>::empty()) =~= Seq::<u8>::empty());
            assert(single.first() == data@[j as int]);
            if data@[j as int] == 0 {
                assert(strip_zeros(single) =~= Seq::<u8>::empty());
            } else {
                assert(strip_zeros(single) =~= seq![single.first()] + Seq::<u8>::empty());
                assert(strip_zeros(single) =~= single);
            }
        }
        if b != 0 {
            body.push(b);
        }
        proof {
            if b != 0 {
                assert(body@ =~= strip_zeros(data@.subrange(8, j as int)) + seq![data@[
                    j as int]]);
            } else {
                assert(strip_zeros(data@.subrange(8, j as int)) + Seq::<u8>::empty()
                    =~= strip_zeros(data@.subrange(8, j as int)));
            }
        }
        j = j + 1;
    }
    proof {
        reveal_with_fuel(len5_prefix_val, 6);
        assert(n == len5_val(data@.subrange(3, 8)));
    }
    match bytes_to_string(&body) {
        Some(s) => Ok((t, s)),
        None => Err(CBCATcpError::Malformed),
    }
}

/// UTF-8 encoding takes between one and four bytes per character.
pub proof fn lemma_encode_utf8_len(chars: Seq<char>)
    ensures
        chars.len() <= encode_utf8(chars).len() <= 4 * chars.len(),
    decreases chars.len(),
{
    if chars.len() > 0 {
        vstd::utf8::char_is_scalar(chars[0]);
        lemma_encode_utf8_len(chars.drop_first());
    }
}

/// Text without the NUL character encodes to bytes without zero bytes: a
/// zero byte appears in UTF-8 only as the encoding of NUL.
pub proof fn lemma_encode_utf8_no_zero(chars: Seq<char>)
    requires
        !chars.contains('\0'),
    ensures
        forall|k: int| 0 <= k < encode_utf8(chars).len() ==> #[trigger] encode_utf8(chars)[k]
            != 0,
    decreases chars.len(),
{
    if chars.len() > 0 {
        let c = chars[0];
        let s = c as u32;
        vstd::utf8::char_is_scalar(c);
        assert(chars.contains(c));
        assert(c != '\0');
        assert(s != 0) by {
            if s == 0 {
                vstd::utf8::char_u32_cast(c, s);
                assert('\0' as u32 == 0);
                vstd::utf8::char_u32_cast('\0', 0);
            }
        }
        let enc = vstd::utf8::encode_scalar(s);
        assert(forall|k: int| 0 <= k < enc.len() ==> #[trigger] enc[k] != 0) by {
            if vstd::utf8::has_width_1_encoding(s) {
                assert(s != 0 && s <= 0x7f ==> (s & 0x7F) as u8 != 0) by (bit_vector);
            } else if vstd::utf8::has_width_2_encoding(s) {
                assert((0xC0 | ((s >> 6) & 0x1F) as u8) != 0) by (bit_vector);
                assert((0x80 | (s & 0x3F) as u8) != 0) by (bit_vector);
            } else if vstd::utf8::has_width_3_encoding(s) {
                assert((0xE0 | ((s >> 12) & 0x0F) as u8) != 0) by (bit_vector);
                assert((0x80 | ((s >> 6) & 0x3F) as u8) != 0) by (bit_vector);
                assert((0x80 | (s & 0x3F) as u8) != 0) by (bit_vector);
            } else {
                assert((0xF0 | ((s >> 18) & 0x7) as u8) != 0) by (bit_vector);
                assert((0x80 | ((s >> 12) & 0x3F) as u8) != 0) by (bit_vector);
                assert((0x80 | ((s >> 6) & 0x3F) as u8) != 0) by (bit_vector);
                assert((0x80 | (s & 0x3F) as u8) != 0) by (bit_vector);
            }
        }
        let rest = chars.drop_first();
        assert(!rest.contains('\0')) by {
            if rest.contains('\0') {
                let i = choose|i: int| 0 <= i < rest.len() && rest[i] == '\0';
                assert(chars[i + 1] == '\0');
                assert(chars.contains('\0'));
            }
        }
        lemma_encode_utf8_no_zero(rest);
        assert(encode_utf8(chars) == enc + encode_utf8(rest));
    }
}

/// Round trip of the wire codec, at the byte level: a frame encoded for any
/// kind and any NUL-free content that fits the length field decodes, against
/// that same expected kind, to exactly that kind and those content bytes —
/// and the content bytes decode back to the text that was encoded.
pub proof fn lemma_frame_round_trip(t: CBCATcpPayloadType, content: Seq<char>)
    requires
        !content.contains('\0'),
        encode_utf8(content).len() <= 99999,
    ensures
        spec_decode_frame(spec_encode_frame(t, content), t) == Ok::<
            (CBCATcpPayloadType, Seq<u8>),
            CBCATcpError,
        >((t, encode_utf8(content))),
        valid_utf8(encode_utf8(content)),
        decode_utf8(encode_utf8(content)) == content,
{
    broadcast use vstd::utf8::encode_utf8_valid_utf8;
    broadcast use vstd::utf8::encode_utf8_decode_utf8;

    let body = encode_utf8(content);
    let n = body.len() as int;
    let data = spec_encode_frame(t, content);
    lemma_len5_round_trip(n);
    lemma_code_bytes_round_trip(t);
    let header = code_bytes(t) + seq![48u8] + len5_bytes(n);
    assert(header.len() == 8);
    assert(data =~= header + (body + zero_bytes(pad_len(n))));
    assert(data.len() == 8 + n + pad_len(n));
    assert(data[0] == code_bytes(t)[0]);
    assert(data[1] == code_bytes(t)[1]);
    assert(data.subrange(3, 8) =~= len5_bytes(n));
    assert(forall|k: int| 3 <= k < 8 ==> byte_is_digit(#[trigger] data[k])) by {
        assert(forall|k: int|
            3 <= k < 8 ==> data[k] == #[trigger] len5_bytes(n)[k - 3]);
    }
    assert(type_of_code_bytes(data[0], data[1]) == t);
    assert(len5_val(data.subrange(3, 8)) == n);
    let chunks = (n + 7) / 8;
    assert(n + pad_len(n) == 8 * chunks) by (nonlinear_arith)
        requires
            n >= 0,
            chunks == (n + 7) / 8,
    ;
    assert(8 + 8 * chunks == data.len());
    assert(data.subrange(8, 8 + 8 * chunks) =~= body + zero_bytes(pad_len(n)));
    lemma_strip_zeros_concat(body, zero_bytes(pad_len(n)));
    lemma_strip_zeros_zero(pad_len(n));
    lemma_encode_utf8_no_zero(content);
    lemma_strip_zeros_id(body);
    assert(strip_zeros(data.subrange(8, 8 + 8 * chunks)) =~= body);
}

/// Value of the digit bytes of a header length field read so far.
pub open spec fn len5_prefix_val(data: Seq<u8>, k: int) -> int
    recommends
        3 <= k <= 8,
        data.len() >= 8,
    decreases k,
{
    if k <= 3 {
        0
    } else {
        len5_prefix_val(data, k - 1) * 10 + (data[k - 1] - 48)
    }
}

} // verus!
