//! Account addresses and their lowercase hexadecimal text form.
use vstd::prelude::*;
use vstd::string::StringSliceAdditionalSpecFns;

verus! {

/// The hexadecimal digit for a value below sixteen (lowercase letters).
pub open spec fn hex_char(n: int) -> char {
    if n < 10 {
        (48 + n) as char
    } else {
        (87 + n) as char
    }
}

/// The lowercase hexadecimal text of a byte string: two digits per byte,
/// high nibble first.
pub open spec fn hex_encode(bytes: Seq<u8>) -> Seq<char>
    decreases bytes.len(),
{
    if bytes.len() == 0 {
        Seq::empty()
    } else {
        let b = bytes.last();
        hex_encode(bytes.drop_last()) + seq![hex_char(b as int / 16), hex_char(b as int % 16)]
    }
}

/// Appends one character to a string.
#[verifier::external_body]
pub(crate) fn push_char(s: &mut String, c: char)
    ensures
        final(s)@ == old(s)@.push(c),
{
    s.push(c);
}

fn hex_digit(n: u8) -> (c: char)
    requires
        n < 16,
    ensures
        c == hex_char(n as int),
{
    if n < 10 {
        (48u8 + n) as char
    } else {
        (87u8 + n) as char
    }
}

/// Encodes bytes as lowercase hexadecimal text.
pub fn encode_hex(bytes: &[u8]) -> (r: String)
    ensures
        r@ == hex_encode(bytes@),
{
    let mut out = String::new();
    let n = bytes.len();
    let mut i: usize = 0;
    while i < n
        invariant
            n == bytes@.len(),
            i <= n,
            out@ == hex_encode(bytes@.subrange(0, i as int)),
        decreases n - i,
    {
        let b = bytes[i];
        push_char(&mut out, hex_digit(b / 16));
        push_char(&mut out, hex_digit(b % 16));
        proof {
            let pre = bytes@.subrange(0, i as int);
            let post = bytes@.subrange(0, i + 1);
            assert(post.drop_last() =~= pre);
            assert(post.last() == b);
        }
        i = i + 1;
    }
    proof {
        assert(bytes@.subrange(0, n as int) =~= bytes@);
    }
    out
}

/// Why a text is not the hexadecimal form of a byte string.
#[derive(Debug, Clone, Copy, PartialEq, Eq)]
pub enum HexError {
    /// The text has an odd number of bytes.
    OddLength,
    /// The byte at `index` is not a hexadecimal digit.
    InvalidHexCharacter { byte: u8, index: usize },
}

/// The value of a hexadecimal digit (either case), if the byte is one.
pub open spec fn hex_value(b: u8) -> Option<u8> {
    if 48 <= b <= 57 {
        Some((b - 48) as u8)
    } else if 97 <= b <= 102 {
        Some((b - 87) as u8)
    } else if 65 <= b <= 70 {
        Some((b - 55) as u8)
    } else {
        None
    }
}

/// Whether every byte of `text` is a hexadecimal digit.
pub open spec fn all_hex(text: Seq<u8>) -> bool {
    forall|i: int| 0 <= i < text.len() ==> (#[trigger] hex_value(text[i])) is Some
}

/// The bytes denoted by a text of hexadecimal digits of even length.
pub open spec fn hex_decode(text: Seq<u8>) -> Seq<u8> {
    Seq::new(
        text.len() / 2,
        |i: int| (hex_value(text[2 * i])->0 * 16 + hex_value(text[2 * i + 1])->0) as u8,
    )
}

/// Whether position `i` of `text` holds the first byte that is not a
/// hexadecimal digit.
pub open spec fn first_non_hex(text: Seq<u8>, i: int) -> bool {
    &&& 0 <= i < text.len()
    &&& hex_value(text[i]) is None
    &&& forall|j: int| 0 <= j < i ==> (#[trigger] hex_value(text[j])) is Some
}

/// What decoding a hexadecimal text gives: the bytes, or why it is not one.
pub open spec fn hex_decode_result(text: Seq<u8>) -> Result<Seq<u8>, HexError> {
    if text.len() % 2 == 1 {
        Err(HexError::OddLength)
    } else if all_hex(text) {
        Ok(hex_decode(text))
    } else {
        let i = choose|i: int| first_non_hex(text, i);
        Err(HexError::InvalidHexCharacter { byte: text[i], index: i as usize })
    }
}

proof fn lemma_first_non_hex_unique(text: Seq<u8>, i: int)
    requires
        first_non_hex(text, i),
    ensures
        (choose|k: int| first_non_hex(text, k)) == i,
{
    let c = choose|k: int| first_non_hex(text, k);
    assert(first_non_hex(text, c));
    if c < i {
        assert(hex_value(text[c]) is Some);
    } else if c > i {
        assert(hex_value(text[i]) is Some);
    }
}

fn hex_digit_value(b: u8) -> (r: Option<u8>)
    ensures
        r == hex_value(b),
        r matches Some(v) ==> v < 16,
{
    if 48 <= b && b <= 57 {
        Some(b - 48)
    } else if 97 <= b && b <= 102 {
        Some(b - 87)
    } else if 65 <= b && b <= 70 {
        Some(b - 55)
    } else {
        None
    }
}

/// Decodes hexadecimal text (digits of either case) into bytes. An odd
/// number of bytes is refused before any digit is looked at; otherwise the
/// first byte that is not a digit is reported.
pub fn decode_hex(text: &str) -> (r: Result<Vec<u8>, HexError>)
    ensures
        text.spec_bytes().len() % 2 == 1 ==> r == Err::<Vec<u8>, HexError>(HexError::OddLength),
        text.spec_bytes().len() % 2 == 0 ==> (r is Ok <==> all_hex(text.spec_bytes())),
        r matches Ok(v) ==> v@ == hex_decode(text.spec_bytes()),
        match r {
            Ok(v) => hex_decode_result(text.spec_bytes()) == Ok::<Seq<u8>, HexError>(v@),
            Err(e) => hex_decode_result(text.spec_bytes()) == Err::<Seq<u8>, HexError>(e),
        },
        r matches Err(HexError::InvalidHexCharacter { byte, index }) ==> {
            &&& index < text.spec_bytes().len()
            &&& text.spec_bytes()[index as int] == byte
            &&& hex_value(byte) is None
            &&& forall|j: int| 0 <= j < index ==> (#[trigger] hex_value(text.spec_bytes()[j])) is Some
        },
{
    let bytes = text.as_bytes();
    let n = bytes.len();
    if n % 2 == 1 {
        return Err(HexError::OddLength);
    }
    let mut out: Vec<u8> = Vec::new();
    let mut i: usize = 0;
    while i < n / 2
        invariant
            bytes@ == text.spec_bytes(),
            n == bytes@.len(),
            n % 2 == 0,
            i <= n / 2,
            out@.len() == i,
            forall|j: int| 0 <= j < 2 * i ==> (#[trigger] hex_value(bytes@[j])) is Some,
            forall|j: int|
                0 <= j < i ==> #[trigger] out@[j] == (hex_value(bytes@[2 * j])->0 * 16 + hex_value(
                    bytes@[2 * j + 1],
                )->0) as u8,
        decreases n / 2 - i,
    {
        let hi = match hex_digit_value(bytes[2 * i]) {
            Some(v) => v,
            None => {
                proof {
                    assert(first_non_hex(bytes@, 2 * i));
                    lemma_first_non_hex_unique(bytes@, 2 * i);
                }
                return Err(HexError::InvalidHexCharacter { byte: bytes[2 * i], index: 2 * i });
            },
        };
        let lo = match hex_digit_value(bytes[2 * i + 1]) {
            Some(v) => v,
            None => {
                proof {
                    assert(first_non_hex(bytes@, 2 * i + 1));
                    lemma_first_non_hex_unique(bytes@, 2 * i + 1);
                }
                return Err(HexError::InvalidHexCharacter { byte: bytes[2 * i + 1], index: 2 * i + 1 });
            },
        };
        out.push(hi * 16 + lo);
        i = i + 1;
    }
    proof {
        assert(out@ =~= hex_decode(bytes@));
    }
    Ok(out)
}

/// Whether text (as bytes) is the hexadecimal form of the 32 address
/// bytes `a`.
pub open spec fn parses_to(text: Seq<u8>, a: Seq<u8>) -> bool {
    hex_decode_result(text) == Ok::<Seq<u8>, HexError>(a) && a.len() == 32
}

/// Why a text is not an address.
#[derive(Debug, Clone, Copy, PartialEq, Eq)]
pub enum AddressError {
    /// The text is not hexadecimal.
    InvalidHex(HexError),
    /// The text does not stand for 32 bytes.
    InvalidLength,
}

/// What a text gives as an address: the 32 bytes its hexadecimal stands
/// for, or why it is not an address.
pub open spec fn address_text_result(text: Seq<u8>) -> Result<Seq<u8>, AddressError> {
    match hex_decode_result(text) {
        Err(e) => Err(AddressError::InvalidHex(e)),
        Ok(bytes) => if bytes.len() == 32 {
            Ok(bytes)
        } else {
            Err(AddressError::InvalidLength)
        },
    }
}

/// The digits of an encoding: two per byte, high nibble first.
proof fn lemma_hex_encode_digits(bytes: Seq<u8>)
    ensures
        hex_encode(bytes).len() == 2 * bytes.len(),
        forall|i: int|
            0 <= i < bytes.len() ==> hex_encode(bytes)[2 * i] == hex_char(#[trigger] bytes[i] as int / 16)
                && hex_encode(bytes)[2 * i + 1] == hex_char(bytes[i] as int % 16),
    decreases bytes.len(),
{
    if bytes.len() > 0 {
        let p = bytes.drop_last();
        lemma_hex_encode_digits(p);
        assert forall|i: int| 0 <= i < bytes.len() implies hex_encode(bytes)[2 * i] == hex_char(
            #[trigger] bytes[i] as int / 16,
        ) && hex_encode(bytes)[2 * i + 1] == hex_char(bytes[i] as int % 16) by {
            if i < p.len() {
                assert(bytes[i] == p[i]);
            }
        }
    }
}

/// A digit reads back as its value.
proof fn lemma_hex_char_value(n: int)
    requires
        0 <= n < 16,
    ensures
        hex_char(n) as u8 as int == hex_char(n) as int,
        hex_value(hex_char(n) as u8) == Some(n as u8),
{
    if n < 10 {
        assert(hex_char(n) as int == 48 + n);
    } else {
        assert(hex_char(n) as int == 87 + n);
    }
}

/// Law: hexadecimal text decodes back to the bytes it encodes, so the text
/// of an address reads back as the same address.
pub proof fn lemma_hex_round_trip(bytes: Seq<u8>)
    ensures
        hex_decode_result(vstd::utf8::encode_utf8(hex_encode(bytes))) == Ok::<Seq<u8>, HexError>(bytes),
{
    let chars = hex_encode(bytes);
    lemma_hex_encode_digits(bytes);
    assert forall|k: int| 0 <= k < chars.len() implies '\0' <= #[trigger] chars[k] <= '\u{7f}' by {
        let i = k / 2;
        assert(0 <= i < bytes.len());
        if k % 2 == 0 {
            assert(k == 2 * i);
            assert(chars[k] == hex_char(bytes[i] as int / 16));
        } else {
            assert(k == 2 * i + 1);
            assert(chars[k] == hex_char(bytes[i] as int % 16));
        }
    }
    assert(vstd::utf8::is_ascii_chars(chars));
    vstd::utf8::is_ascii_chars_encode_utf8(chars);
    let text = vstd::utf8::encode_utf8(chars);
    assert forall|k: int| 0 <= k < text.len() implies (#[trigger] hex_value(text[k])) is Some by {
        let i = k / 2;
        assert(text[k] == chars[k] as u8);
        if k % 2 == 0 {
            assert(k == 2 * i);
            lemma_hex_char_value(bytes[i] as int / 16);
        } else {
            assert(k == 2 * i + 1);
            lemma_hex_char_value(bytes[i] as int % 16);
        }
    }
    assert(text.len() % 2 == 0);
    assert forall|i: int| 0 <= i < bytes.len() implies #[trigger] hex_decode(text)[i] == bytes[i] by {
        let hi = bytes[i] as int / 16;
        let lo = bytes[i] as int % 16;
        assert(text[2 * i] == chars[2 * i] as u8);
        assert(text[2 * i + 1] == chars[2 * i + 1] as u8);
        lemma_hex_char_value(hi);
        lemma_hex_char_value(lo);
        assert(hi * 16 + lo == bytes[i] as int);
    }
    assert(hex_decode(text) =~= bytes);
}

/// A 32-byte account address.
#[derive(Clone, Copy, Debug, PartialEq, Eq, Hash)]
pub struct Address(pub [u8; 32]);

impl View for Address {
    type V = Seq<u8>;

    open spec fn view(&self) -> Seq<u8> {
        self.0@
    }
}

impl Address {
    /// The address that belongs to a 32-byte public key: the key's bytes.
    pub fn from_public_key(public_key: &[u8; 32]) -> (r: Address)
        ensures
            r@ == public_key@,
    {
        Address(*public_key)
    }

    /// The address's bytes.
    pub fn as_bytes(&self) -> (r: &[u8; 32])
        ensures
            r@ == self@,
    {
        &self.0
    }

    /// Whether two addresses hold the same bytes.
    pub fn equals(&self, other: &Address) -> (r: bool)
        ensures
            r == (self@ == other@),
    {
        let mut i: usize = 0;
        while i < 32
            invariant
                i <= 32,
                forall|j: int| 0 <= j < i ==> self.0@[j] == other.0@[j],
            decreases 32 - i,
        {
            if self.0[i] != other.0[i] {
                return false;
            }
            i = i + 1;
        }
        proof {
            assert(self.0@ =~= other.0@);
        }
        true
    }

    /// The address written as hexadecimal text: 32 bytes in 64 digits.
    pub fn from_string(text: &str) -> (r: Result<Address, AddressError>)
        ensures
            match hex_decode_result(text.spec_bytes()) {
                Err(e) => r == Err::<Address, AddressError>(AddressError::InvalidHex(e)),
                Ok(bytes) => if bytes.len() == 32 {
                    r matches Ok(a) && a@ == bytes
                } else {
                    r == Err::<Address, AddressError>(AddressError::InvalidLength)
                },
            },
    {
        match decode_hex(text) {
            Err(e) => Err(AddressError::InvalidHex(e)),
            Ok(bytes) => {
                if bytes.len() != 32 {
                    return Err(AddressError::InvalidLength);
                }
                let mut a = [0u8; 32];
                let mut i: usize = 0;
                while i < 32
                    invariant
                        bytes@.len() == 32,
                        i <= 32,
                        forall|j: int| 0 <= j < i ==> a@[j] == bytes@[j],
                    decreases 32 - i,
                {
                    a[i] = bytes[i];
                    i = i + 1;
                }
                proof {
                    assert(a@ =~= bytes@);
                }
                Ok(Address(a))
            },
        }
    }

    /// The address as lowercase hexadecimal text.
    pub fn to_string(&self) -> (r: String)
        ensures
            r@ == hex_encode(self@),
    {
        encode_hex(&self.0)
    }
}

} // verus!
