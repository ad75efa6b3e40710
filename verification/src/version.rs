//! Component names and contract versions, with the `#hex` byte-literal text
//! form of a contract version.

use vstd::prelude::*;
use vstd::string::{StringExecFns, StringSliceAdditionalSpecFns};
use crate::text::{decimal_chars, hex_digit_char, push_decimal, push_hex_digit};

verus! {

/// The name of a component that takes part in version projection.
#[derive(Debug, Clone, PartialEq, Eq, Hash)]
pub struct ComponentName(String);

impl View for ComponentName {
    type V = Seq<char>;

    closed spec fn view(&self) -> Seq<char> {
        self.0@
    }
}

impl ComponentName {
    /// A component name holding the given text.
    pub fn new(value: &str) -> (name: Self)
        ensures
            name@ == value@,
    {
        ComponentName(value.to_owned())
    }

    /// The text of the name.
    pub fn as_str(&self) -> (text: &str)
        ensures
            text@ == self@,
    {
        self.0.as_str()
    }

    /// Whether two names hold the same text.
    pub(crate) fn same_name(&self, other: &ComponentName) -> (same: bool)
        ensures
            same == (self@ == other@),
    {
        self.0 == other.0
    }
}

/// The schema-version hash of a component contract, held as 32 raw bytes.
#[derive(Debug, Clone, Copy, Eq, PartialOrd, Ord, Hash)]
pub struct ContractVersion(pub [u8; 32]);

impl View for ContractVersion {
    type V = Seq<u8>;

    open spec fn view(&self) -> Seq<u8> {
        self.0@
    }
}

/// A contract version always holds exactly 32 bytes.
pub broadcast proof fn lemma_contract_version_len(version: ContractVersion)
    ensures
        #[trigger] version@.len() == 32,
{
}

impl PartialEq for ContractVersion {
    fn eq(&self, other: &Self) -> (equal: bool) {
        let mut i: usize = 0;
        while i < 32
            invariant
                i <= 32,
                forall|j: int| 0 <= j < i ==> self@[j] == other@[j],
            decreases 32 - i,
        {
            if self.0[i] != other.0[i] {
                return false;
            }
            i = i + 1;
        }
        proof {
            assert(self@ =~= other@);
        }
        true
    }
}

impl vstd::std_specs::cmp::PartialEqSpecImpl for ContractVersion {
    open spec fn obeys_eq_spec() -> bool {
        true
    }

    open spec fn eq_spec(&self, other: &Self) -> bool {
        self@ == other@
    }
}

/// Why a contract version could not be built from its input.
#[derive(Debug, Clone, PartialEq, Eq)]
pub enum ContractVersionError {
    InvalidLength { length: usize },
    InvalidLiteral { value: String },
}

/// The text of the "wrong length" error for `length`.
pub open spec fn invalid_length_message(length: nat) -> Seq<char> {
    "contract version hash must be 32 bytes, got "@ + decimal_chars(length)
}

/// The text of the "not a literal" error for `value`.
pub open spec fn invalid_literal_message(value: Seq<char>) -> Seq<char> {
    "contract version must be a #hex byte literal: "@ + value
}

impl ContractVersionError {
    /// The human-readable description of the error.
    pub fn to_string(&self) -> (text: String)
        ensures
            text@ == match self {
                ContractVersionError::InvalidLength { length } => invalid_length_message(
                    *length as nat,
                ),
                ContractVersionError::InvalidLiteral { value } => invalid_literal_message(value@),
            },
    {
        match self {
            ContractVersionError::InvalidLength { length } => {
                let mut text = String::from_str("contract version hash must be 32 bytes, got ");
                push_decimal(&mut text, *length);
                text
            },
            ContractVersionError::InvalidLiteral { value } => {
                let mut text = String::from_str("contract version must be a #hex byte literal: ");
                text.append(value.as_str());
                text
            },
        }
    }
}

/// The byte `#` that opens a contract-version literal.
pub open spec fn literal_marker() -> u8 {
    35u8
}

/// Whether the UTF-8 bytes of a text start with `#`. (`#` is a one-byte
/// character, so this is the same as the text starting with `#`.)
pub open spec fn has_literal_marker(bytes: Seq<u8>) -> bool {
    bytes.len() > 0 && bytes[0] == literal_marker()
}

/// The value of a hexadecimal digit byte (either case), if it is one.
pub open spec fn hex_value(byte: u8) -> Option<u8> {
    if 48 <= byte <= 57 {
        Some((byte - 48) as u8)
    } else if 97 <= byte <= 102 {
        Some((byte - 97 + 10) as u8)
    } else if 65 <= byte <= 70 {
        Some((byte - 65 + 10) as u8)
    } else {
        None
    }
}

/// Whether every byte is a hexadecimal digit.
pub open spec fn all_hex_digits(bytes: Seq<u8>) -> bool {
    forall|i: int| 0 <= i < bytes.len() ==> (#[trigger] hex_value(bytes[i])) is Some
}

/// The bytes spelled by consecutive pairs of hexadecimal digits, high digit
/// first.
pub open spec fn decode_hex_pairs(digits: Seq<u8>) -> Seq<u8> {
    Seq::new(
        digits.len() / 2,
        |i: int|
            (hex_value(digits[2 * i]).unwrap() * 16 + hex_value(digits[2 * i + 1]).unwrap()) as u8,
    )
}

/// Whether the UTF-8 bytes of a text are a well-formed `#hex` literal of a
/// contract version: `#` followed by 64 hexadecimal digits.
pub open spec fn is_nota_literal(bytes: Seq<u8>) -> bool {
    has_literal_marker(bytes) && bytes.drop_first().len() == 64 && all_hex_digits(
        bytes.drop_first(),
    )
}

/// Why a contract version could not be read from a node of the text form.
#[derive(Debug, Clone, PartialEq, Eq)]
pub enum LiteralDecodeError {
    /// The node is not an atom.
    ExpectedAtom { expected_type: &'static str },
    /// The atom is not a contract-version literal; the text says why.
    Parse(String),
}

/// Two lowercase hexadecimal digits per byte, high digit first.
pub open spec fn hex_lower(bytes: Seq<u8>) -> Seq<char> {
    Seq::new(
        2 * bytes.len(),
        |i: int|
            if i % 2 == 0 {
                hex_digit_char((bytes[i / 2] / 16) as int)
            } else {
                hex_digit_char((bytes[i / 2] % 16) as int)
            },
    )
}

/// The `#hex` literal of a contract version's bytes.
pub open spec fn nota_literal(bytes: Seq<u8>) -> Seq<char> {
    seq!['#'] + hex_lower(bytes)
}


/// Every lowercase hexadecimal digit reads back as the value it stands for.
proof fn lemma_hex_digit_reads_back(n: int)
    requires
        0 <= n < 16,
    ensures
        hex_value(hex_digit_char(n) as u8) == Some(n as u8),
        '\0' <= hex_digit_char(n) <= '\u{7f}',
{
}

/// Round trip: the `#hex` literal of a contract version parses back to the
/// same version. The literal is `#` and 64 hexadecimal digits, and the
/// digits spell the version's bytes.
pub proof fn lemma_nota_literal_round_trip(version: ContractVersion)
    ensures
        ({
            let bytes = vstd::utf8::encode_utf8(nota_literal(version@));
            let digits = bytes.drop_first();
            &&& has_literal_marker(bytes)
            &&& digits.len() == 64
            &&& all_hex_digits(digits)
            &&& decode_hex_pairs(digits) == version@
        }),
{
    let chars = nota_literal(version@);
    let hex = hex_lower(version@);
    assert forall|i: int| 0 <= i < hex.len() implies hex_value(#[trigger] hex[i] as u8) == Some(
        (if i % 2 == 0 { version@[i / 2] / 16 } else { version@[i / 2] % 16 }) as u8,
    ) && '\0' <= hex[i] <= '\u{7f}' by {
        if i % 2 == 0 {
            lemma_hex_digit_reads_back((version@[i / 2] / 16) as int);
        } else {
            lemma_hex_digit_reads_back((version@[i / 2] % 16) as int);
        }
    }
    assert(vstd::utf8::is_ascii_chars(chars)) by {
        assert forall|i: int| 0 <= i < chars.len() implies '\0' <= #[trigger] chars[i] <= '\u{7f}' by {
            if i > 0 {
                assert(chars[i] == hex[i - 1]);
            }
        }
    }
    vstd::utf8::is_ascii_chars_encode_utf8(chars);
    let bytes = vstd::utf8::encode_utf8(chars);
    let digits = bytes.drop_first();
    assert(bytes[0] == chars[0] as u8);
    assert forall|i: int| 0 <= i < digits.len() implies #[trigger] digits[i] == hex[i] as u8 by {
        assert(digits[i] == bytes[i + 1]);
        assert(bytes[i + 1] == chars[i + 1] as u8);
    }
    assert forall|i: int| 0 <= i < digits.len() implies (#[trigger] hex_value(digits[i])) is Some by {
        assert(digits[i] == hex[i] as u8);
    }
    assert forall|i: int| 0 <= i < 32 implies #[trigger] decode_hex_pairs(digits)[i] == version@[i] by {
        assert(digits[2 * i] == hex[2 * i] as u8);
        assert(digits[2 * i + 1] == hex[2 * i + 1] as u8);
        assert((2 * i) / 2 == i);
        assert((2 * i + 1) / 2 == i);
        let b = version@[i];
        assert((b / 16) * 16 + b % 16 == b);
    }
    assert(decode_hex_pairs(digits) =~= version@);
}



/// The byte-level marker test is the character-level one: the UTF-8 bytes of
/// a text start with the `#` byte exactly when the text starts with `#`, and
/// the bytes after it are then the UTF-8 bytes of the rest of the text.
pub proof fn lemma_marker_is_leading_hash(text: Seq<char>)
    ensures
        has_literal_marker(vstd::utf8::encode_utf8(text)) <==> (text.len() > 0 && text[0] == '#'),
        has_literal_marker(vstd::utf8::encode_utf8(text)) ==> vstd::utf8::encode_utf8(
            text,
        ).drop_first() == vstd::utf8::encode_utf8(text.drop_first()),
{
    if text.len() > 0 {
        let c = text[0] as u32;
        let first = vstd::utf8::encode_scalar(c);
        let bytes = vstd::utf8::encode_utf8(text);
        assert(bytes == first + vstd::utf8::encode_utf8(text.drop_first()));
        vstd::utf8::char_is_scalar(text[0]);
        vstd::utf8::char_u32_cast(text[0], c);
        if vstd::utf8::has_width_1_encoding(c) {
            assert(vstd::utf8::leading_byte_width_1(c) == c) by (bit_vector)
                requires
                    vstd::utf8::has_width_1_encoding(c),
            ;
            assert(('#' as u32) == 35u32);
            assert(bytes.drop_first() =~= vstd::utf8::encode_utf8(text.drop_first()));
        } else {
            assert(vstd::utf8::has_width_2_encoding(c) ==> vstd::utf8::leading_byte_width_2(c)
                >= 128) by (bit_vector);
            assert(vstd::utf8::has_width_3_encoding(c) ==> vstd::utf8::leading_byte_width_3(c)
                >= 128) by (bit_vector);
            assert(vstd::utf8::has_width_4_encoding(c) ==> vstd::utf8::leading_byte_width_4(c)
                >= 128) by (bit_vector);
            assert(bytes[0] >= 128);
            assert(text[0] != '#');
        }
    }
}

/// A character sequence whose UTF-8 bytes are all below 128 is ASCII.
proof fn lemma_ascii_bytes_have_ascii_chars(chars: Seq<char>)
    requires
        forall|i: int|
            0 <= i < vstd::utf8::encode_utf8(chars).len() ==> #[trigger] vstd::utf8::encode_utf8(
                chars,
            )[i] < 128,
    ensures
        vstd::utf8::is_ascii_chars(chars),
    decreases chars.len(),
{
    if chars.len() > 0 {
        let c = chars[0] as u32;
        let rest = chars.drop_first();
        let first = vstd::utf8::encode_scalar(c);
        let bytes = vstd::utf8::encode_utf8(chars);
        assert(bytes == first + vstd::utf8::encode_utf8(rest));
        assert(bytes[0] == first[0]);
        vstd::utf8::char_is_scalar(chars[0]);
        if !vstd::utf8::has_width_1_encoding(c) {
            assert(vstd::utf8::has_width_2_encoding(c) ==> vstd::utf8::leading_byte_width_2(c)
                >= 128) by (bit_vector);
            assert(vstd::utf8::has_width_3_encoding(c) ==> vstd::utf8::leading_byte_width_3(c)
                >= 128) by (bit_vector);
            assert(vstd::utf8::has_width_4_encoding(c) ==> vstd::utf8::leading_byte_width_4(c)
                >= 128) by (bit_vector);
            assert(false);
        }
        assert forall|i: int| 0 <= i < vstd::utf8::encode_utf8(rest).len() implies #[trigger] vstd::utf8::encode_utf8(
            rest,
        )[i] < 128 by {
            assert(bytes[i + first.len()] == vstd::utf8::encode_utf8(rest)[i]);
        }
        lemma_ascii_bytes_have_ascii_chars(rest);
        assert forall|i: int| 0 <= i < chars.len() implies '\0' <= #[trigger] chars[i] <= '\u{7f}' by {
            if i > 0 {
                assert(chars[i] == rest[i - 1]);
            } else {
                vstd::utf8::char_u32_cast(chars[0], c);
                assert(c <= 0x7f);
                assert((c as char) <= '\u{7f}');
            }
        }
    }
}

/// Whether a hexadecimal digit byte is written without uppercase letters.
pub open spec fn is_lowercase_hex_digit(byte: u8) -> bool {
    (48 <= byte <= 57) || (97 <= byte <= 102)
}

/// Canonical form: a well-formed literal written with lowercase digits is
/// exactly the literal of the version it parses to, so parsing and then
/// printing gives the same text back.
pub proof fn lemma_canonical_literal_round_trip(text: Seq<char>)
    requires
        ({
            let bytes = vstd::utf8::encode_utf8(text);
            let digits = bytes.drop_first();
            &&& has_literal_marker(bytes)
            &&& digits.len() == 64
            &&& forall|i: int| 0 <= i < digits.len() ==> is_lowercase_hex_digit(#[trigger] digits[i])
        }),
    ensures
        nota_literal(decode_hex_pairs(vstd::utf8::encode_utf8(text).drop_first())) == text,
{
    let bytes = vstd::utf8::encode_utf8(text);
    let digits = bytes.drop_first();
    let decoded = decode_hex_pairs(digits);
    assert forall|i: int| 0 <= i < bytes.len() implies #[trigger] bytes[i] < 128 by {
        if i > 0 {
            assert(bytes[i] == digits[i - 1]);
        }
    }
    lemma_ascii_bytes_have_ascii_chars(text);
    vstd::utf8::is_ascii_chars_encode_utf8(text);
    let out = nota_literal(decoded);
    assert(out.len() == text.len());
    assert forall|i: int| 0 <= i < text.len() implies #[trigger] out[i] == text[i] by {
        assert(text[i] as u8 == bytes[i]);
        if i == 0 {
            assert(bytes[0] == 35);
        } else {
            let k = (i - 1) / 2;
            let high = digits[2 * k];
            let low = digits[2 * k + 1];
            assert(is_lowercase_hex_digit(high));
            assert(is_lowercase_hex_digit(low));
            let b = decoded[k];
            assert(b == (hex_value(high).unwrap() * 16 + hex_value(low).unwrap()) as u8);
            assert(b / 16 == hex_value(high).unwrap());
            assert(b % 16 == hex_value(low).unwrap());
            assert(bytes[i] == digits[i - 1]);
            if (i - 1) % 2 == 0 {
                assert(i - 1 == 2 * k);
                assert(out[i] == hex_digit_char((b / 16) as int));
            } else {
                assert(i - 1 == 2 * k + 1);
                assert(out[i] == hex_digit_char((b % 16) as int));
            }
        }
    }
    assert(out =~= text);
}


/// A hexadecimal digit byte of either case: `0`-`9`, `A`-`F` or `a`-`f`.
pub open spec fn is_hex_digit_byte(byte: u8) -> bool {
    (48 <= byte <= 57) || (65 <= byte <= 70) || (97 <= byte <= 102)
}

/// The text with the ASCII uppercase letters `A`-`Z` replaced by their
/// lowercase forms.
pub open spec fn ascii_lowercase(text: Seq<char>) -> Seq<char> {
    Seq::new(
        text.len(),
        |i: int|
            if 'A' <= text[i] <= 'Z' {
                ((text[i] as int) + 32) as char
            } else {
                text[i]
            },
    )
}

/// An uppercase digit `A`-`F` reads as ten to fifteen, the same value as its
/// lowercase form, and that value prints as the lowercase form.
pub proof fn lemma_uppercase_digit_reads_as_lowercase(byte: u8)
    requires
        65 <= byte <= 70,
    ensures
        hex_value(byte) == Some((byte - 55) as u8),
        hex_value(byte) == hex_value((byte + 32) as u8),
        hex_digit_char(byte - 55) == ((byte + 32) as char),
{
}

/// Every literal of `#` and 64 hexadecimal digits, in either case, parses;
/// printing the version it parses to gives the literal back with its digits
/// in lowercase. So an uppercase digit reads as the same value as its
/// lowercase form, and decoding a literal gives the same version as decoding
/// its lowercase form.
pub proof fn lemma_literal_prints_back_lowercased(text: Seq<char>)
    requires
        ({
            let bytes = vstd::utf8::encode_utf8(text);
            let digits = bytes.drop_first();
            &&& has_literal_marker(bytes)
            &&& digits.len() == 64
            &&& forall|i: int| 0 <= i < digits.len() ==> is_hex_digit_byte(#[trigger] digits[i])
        }),
    ensures
        all_hex_digits(vstd::utf8::encode_utf8(text).drop_first()),
        nota_literal(decode_hex_pairs(vstd::utf8::encode_utf8(text).drop_first()))
            == ascii_lowercase(text),
{
    let bytes = vstd::utf8::encode_utf8(text);
    let digits = bytes.drop_first();
    let decoded = decode_hex_pairs(digits);
    assert forall|i: int| 0 <= i < bytes.len() implies #[trigger] bytes[i] < 128 by {
        if i > 0 {
            assert(bytes[i] == digits[i - 1]);
            assert(is_hex_digit_byte(digits[i - 1]));
        }
    }
    assert forall|i: int| 0 <= i < digits.len() implies (#[trigger] hex_value(digits[i])) is Some by {
        assert(is_hex_digit_byte(digits[i]));
    }
    lemma_ascii_bytes_have_ascii_chars(text);
    vstd::utf8::is_ascii_chars_encode_utf8(text);
    let out = nota_literal(decoded);
    let lower = ascii_lowercase(text);
    assert(out.len() == text.len());
    assert forall|i: int| 0 <= i < text.len() implies #[trigger] out[i] == lower[i] by {
        assert(text[i] as u8 == bytes[i]);
        assert('\0' <= text[i] <= '\u{7f}');
        if i == 0 {
            assert(bytes[0] == 35);
        } else {
            let k = (i - 1) / 2;
            let high = digits[2 * k];
            let low = digits[2 * k + 1];
            assert(is_hex_digit_byte(high));
            assert(is_hex_digit_byte(low));
            let b = decoded[k];
            assert(b == (hex_value(high).unwrap() * 16 + hex_value(low).unwrap()) as u8);
            assert(b / 16 == hex_value(high).unwrap());
            assert(b % 16 == hex_value(low).unwrap());
            assert(bytes[i] == digits[i - 1]);
            let d = digits[i - 1];
            assert(is_hex_digit_byte(d));
            assert(text[i] as int == d as int);
            if (i - 1) % 2 == 0 {
                assert(i - 1 == 2 * k);
                assert(out[i] == hex_digit_char((b / 16) as int));
            } else {
                assert(i - 1 == 2 * k + 1);
                assert(out[i] == hex_digit_char((b % 16) as int));
            }
        }
    }
    assert(out =~= lower);
}

impl ContractVersion {
    /// Wraps the given 32 bytes.
    pub fn new(bytes: [u8; 32]) -> (version: Self)
        ensures
            version@ == bytes@,
    {
        ContractVersion(bytes)
    }

    /// The all-zero contract version.
    pub fn zero() -> (version: Self)
        ensures
            version@ == Seq::new(32, |i: int| 0u8),
    {
        let version = ContractVersion([0u8; 32]);
        proof {
            assert(version@ =~= Seq::new(32, |i: int| 0u8));
        }
        version
    }

    /// The 32 bytes of the hash.
    pub fn bytes(&self) -> (bytes: &[u8; 32])
        ensures
            bytes@ == self@,
    {
        &self.0
    }

    /// Builds a contract version from a byte vector, which must hold exactly
    /// 32 bytes.
    pub fn try_from_bytes(bytes: Vec<u8>) -> (result: Result<Self, ContractVersionError>)
        ensures
            match result {
                Ok(version) => bytes@.len() == 32 && version@ == bytes@,
                Err(ContractVersionError::InvalidLength { length }) => bytes@.len() != 32
                    && length == bytes@.len(),
                Err(ContractVersionError::InvalidLiteral { .. }) => false,
            },
    {
        let length = bytes.len();
        if length != 32 {
            return Err(ContractVersionError::InvalidLength { length });
        }
        let mut array = [0u8; 32];
        let mut i: usize = 0;
        while i < 32
            invariant
                i <= 32,
                bytes@.len() == 32,
                forall|j: int| 0 <= j < i ==> array@[j] == bytes@[j],
            decreases 32 - i,
        {
            array[i] = bytes[i];
            i = i + 1;
        }
        proof {
            assert(array@ =~= bytes@);
        }
        Ok(ContractVersion(array))
    }

    /// The value of one hexadecimal digit byte of `literal`.
    fn hex_digit(byte: u8, literal: &str) -> (result: Result<u8, ContractVersionError>)
        ensures
            match result {
                Ok(value) => hex_value(byte) == Some(value),
                Err(ContractVersionError::InvalidLiteral { value }) => hex_value(byte) is None
                    && value@ == literal@,
                Err(ContractVersionError::InvalidLength { .. }) => false,
            },
    {
        if 48 <= byte && byte <= 57 {
            Ok(byte - 48)
        } else if 97 <= byte && byte <= 102 {
            Ok(byte - 97 + 10)
        } else if 65 <= byte && byte <= 70 {
            Ok(byte - 65 + 10)
        } else {
            Err(ContractVersionError::InvalidLiteral { value: literal.to_owned() })
        }
    }

    /// Parses the `#hex` literal form: `#` followed by 64 hexadecimal digits
    /// (either case), two per byte, high digit first.
    pub fn try_from_nota_literal(literal: &str) -> (result: Result<Self, ContractVersionError>)
        ensures
            ({
                let bytes = literal.spec_bytes();
                let digits = bytes.drop_first();
                match result {
                    Ok(version) => has_literal_marker(bytes) && digits.len() == 64
                        && all_hex_digits(digits) && version@ == decode_hex_pairs(digits),
                    Err(ContractVersionError::InvalidLength { length }) => has_literal_marker(bytes)
                        && digits.len() != 64 && length == digits.len() / 2,
                    Err(ContractVersionError::InvalidLiteral { value }) => value@ == literal@ && (
                    !has_literal_marker(bytes) || (digits.len() == 64 && !all_hex_digits(digits))),
                }
            }),
    {
        let bytes = literal.as_bytes();
        if bytes.len() == 0 || bytes[0] != 35 {
            return Err(ContractVersionError::InvalidLiteral { value: literal.to_owned() });
        }
        let digit_count = bytes.len() - 1;
        let length = digit_count / 2;
        if digit_count != 64 {
            return Err(ContractVersionError::InvalidLength { length });
        }
        let ghost digits = bytes@.drop_first();
        let mut array = [0u8; 32];
        let mut index: usize = 0;
        while index < 32
            invariant
                index <= 32,
                bytes@.len() == 65,
                digits == bytes@.drop_first(),
                bytes@ == literal.spec_bytes(),
                forall|j: int| 0 <= j < 2 * index ==> (#[trigger] hex_value(digits[j])) is Some,
                forall|j: int| 0 <= j < index ==> array@[j] == decode_hex_pairs(digits)[j],
            decreases 32 - index,
        {
            let high = match Self::hex_digit(bytes[1 + 2 * index], literal) {
                Ok(value) => value,
                Err(error) => {
                    proof {
                        assert(hex_value(digits[2 * index as int]) is None);
                    }
                    return Err(error);
                },
            };
            let low = match Self::hex_digit(bytes[2 + 2 * index], literal) {
                Ok(value) => value,
                Err(error) => {
                    proof {
                        assert(hex_value(digits[2 * index + 1]) is None);
                    }
                    return Err(error);
                },
            };
            proof {
                assert(digits[2 * index as int] == bytes@[1 + 2 * index]);
                assert(digits[2 * index + 1] == bytes@[2 + 2 * index]);
            }
            array[index] = high * 16 + low;
            index = index + 1;
        }
        proof {
            assert(array@ =~= decode_hex_pairs(digits));
        }
        Ok(ContractVersion(array))
    }

    /// Reads a contract version from a node of the text form, given as the
    /// node's atom text (`None` when the node is not an atom). A literal that
    /// does not parse is reported with the parse error's text.
    pub fn from_nota_atom(atom: Option<&str>) -> (result: Result<Self, LiteralDecodeError>)
        ensures
            match atom {
                None => result matches Err(LiteralDecodeError::ExpectedAtom { expected_type })
                    && expected_type@ == "ContractVersion"@,
                Some(literal) => {
                    let bytes = literal.spec_bytes();
                    let digits = bytes.drop_first();
                    match result {
                        Ok(version) => is_nota_literal(bytes) && version@ == decode_hex_pairs(
                            digits,
                        ),
                        Err(LiteralDecodeError::Parse(message)) => !is_nota_literal(bytes) && (
                        if has_literal_marker(bytes) && digits.len() != 64 {
                            message@ == invalid_length_message(digits.len() / 2)
                        } else {
                            message@ == invalid_literal_message(literal@)
                        }),
                        Err(LiteralDecodeError::ExpectedAtom { .. }) => false,
                    }
                },
            },
    {
        match atom {
            None => Err(LiteralDecodeError::ExpectedAtom { expected_type: "ContractVersion" }),
            Some(literal) => match Self::try_from_nota_literal(literal) {
                Ok(version) => Ok(version),
                Err(error) => Err(LiteralDecodeError::Parse(error.to_string())),
            },
        }
    }

    /// The `#hex` literal of this version: `#` followed by two lowercase
    /// hexadecimal digits per byte.
    pub fn to_nota_literal(&self) -> (literal: String)
        ensures
            literal@ == nota_literal(self@),
    {
        let mut literal = String::from_str("#");
        proof {
            reveal_strlit("#");
        }
        let mut i: usize = 0;
        while i < 32
            invariant
                i <= 32,
                self@.len() == 32,
                literal@ == seq!['#'] + hex_lower(self@.take(i as int)),
            decreases 32 - i,
        {
            let byte = self.0[i];
            push_hex_digit(&mut literal, byte / 16);
            push_hex_digit(&mut literal, byte % 16);
            proof {
                assert(hex_lower(self@.take(i + 1)) =~= hex_lower(self@.take(i as int)).push(
                    hex_digit_char((byte / 16) as int),
                ).push(hex_digit_char((byte % 16) as int)));
            }
            i = i + 1;
        }
        proof {
            assert(self@.take(32) =~= self@);
        }
        literal
    }
}

} // verus!
