//! The 4-byte tag of a chunk, its character-class validity rule, and the
//! property bits read from bit 5 of each tag byte.

use vstd::prelude::*;
use vstd::string::StringSliceAdditionalSpecFns;
use vstd::string::StringExecFns;
use vstd::utf8::decode_utf8;
use vstd::utf8::valid_utf8;

verus! {

/// Why constructing a tag from text failed.
#[derive(Debug, PartialEq, Eq, Structural)]
pub enum ChunkTypeError {
    /// The text was not exactly 4 bytes long; carries the actual byte length.
    ByteLengthError(usize),
    /// A byte of the text was outside the ASCII letter ranges.
    InvalidCharacter,
}

impl ChunkTypeError {
    /// The diagnostic message for the error, naming the actual byte count
    /// for a length error.
    pub fn message(&self) -> (r: String)
        ensures
            match *self {
                ChunkTypeError::ByteLengthError(n) => r@ == "Expected 4 bytes but received "@
                    + Seq::new(
                    crate::text::spec_decimal_bytes(n as nat).len(),
                    |i: int| crate::text::spec_decimal_bytes(n as nat)[i] as char,
                ),
                ChunkTypeError::InvalidCharacter => r@
                    == "Input contains one or more invalid characters"@,
            },
    {
        match self {
            ChunkTypeError::ByteLengthError(n) => {
                let mut digits: Vec<u8> = Vec::new();
                crate::text::push_decimal(&mut digits, *n as u64);
                proof {
                    crate::text::lemma_decimal_bytes_ascii(*n as nat);
                    crate::text::lemma_decode_ascii(digits@);
                }
                let tail = match crate::text::try_from_utf8(digits.as_slice()) {
                    Some(s) => s,
                    None => vstd::pervasive::unreached(),
                };
                let mut msg = "Expected 4 bytes but received ".to_owned();
                msg.append(tail);
                msg
            },
            ChunkTypeError::InvalidCharacter => {
                "Input contains one or more invalid characters".to_owned()
            },
        }
    }
}

/// A 4-byte chunk tag.
///
/// Building a tag from raw bytes never fails, so that decoding can round-trip
/// any captured tag; [`ChunkType::is_valid`] is the advisory validity check.
/// Building one from text does validate.
#[derive(Debug, Clone, Copy)]
pub struct ChunkType {
    bytes: [u8; 4],
}

impl View for ChunkType {
    type V = Seq<u8>;

    closed spec fn view(&self) -> Seq<u8> {
        self.bytes@
    }
}

/// Whether `b` is an ASCII letter, `A`-`Z` (65 to 90) or `a`-`z` (97 to 122).
pub open spec fn spec_is_letter(b: u8) -> bool {
    (97 <= b && b <= 122) || (65 <= b && b <= 90)
}

/// Whether every byte of `t` is an ASCII letter.
pub open spec fn spec_all_letters(t: Seq<u8>) -> bool {
    forall|i: int| 0 <= i < t.len() ==> spec_is_letter(#[trigger] t[i])
}

/// Whether bit 5 of `b` is clear.
pub open spec fn spec_bit5_clear(b: u8) -> bool {
    b & 0x20 != 0x20
}

/// Whether a tag marks its chunk critical: bit 5 of the first byte is clear.
pub open spec fn spec_is_critical(t: Seq<u8>) -> bool {
    spec_bit5_clear(t[0])
}

/// Whether a tag is public: bit 5 of the second byte is clear.
pub open spec fn spec_is_public(t: Seq<u8>) -> bool {
    spec_bit5_clear(t[1])
}

/// Whether the reserved bit is valid: bit 5 of the third byte is clear.
pub open spec fn spec_is_reserved_bit_valid(t: Seq<u8>) -> bool {
    spec_bit5_clear(t[2])
}

/// Whether a tag marks its chunk safe to copy: bit 5 of the fourth byte is set.
pub open spec fn spec_is_safe_to_copy(t: Seq<u8>) -> bool {
    t[3] & 0x20 == 0x20
}

/// Whether a tag is valid: all four bytes are ASCII letters and the reserved
/// bit rule holds.
pub open spec fn spec_is_valid(t: Seq<u8>) -> bool {
    spec_all_letters(t) && spec_is_reserved_bit_valid(t)
}

/// Whether `b` is an ASCII letter.
fn is_letter(b: u8) -> (r: bool)
    ensures
        r == spec_is_letter(b),
{
    (97 <= b && b <= 122) || (65 <= b && b <= 90)
}

impl ChunkType {
    /// A tag always views as its four bytes.
    pub proof fn lemma_view_len(&self)
        ensures
            self@.len() == 4,
    {
    }

    /// Builds a tag from four raw bytes; never fails and performs no
    /// validation, so any captured tag can be represented.
    pub fn from_bytes(bytes: [u8; 4]) -> (t: ChunkType)
        ensures
            t@ == bytes@,
    {
        ChunkType { bytes }
    }

    /// Builds a tag from four raw bytes; the permissive entry point, always
    /// `Ok`.
    pub fn try_from(bytes: [u8; 4]) -> (r: Result<ChunkType, ChunkTypeError>)
        ensures
            r matches Ok(t) && t@ == bytes@,
    {
        Ok(ChunkType::from_bytes(bytes))
    }

    /// Parses a tag from text: the text must be exactly 4 bytes, all ASCII
    /// letters.
    pub fn from_str(s: &str) -> (r: Result<ChunkType, ChunkTypeError>)
        ensures
            s.spec_bytes().len() != 4 ==> r == Err::<ChunkType, ChunkTypeError>(
                ChunkTypeError::ByteLengthError(s.spec_bytes().len() as usize),
            ),
            s.spec_bytes().len() == 4 && !spec_all_letters(s.spec_bytes()) ==> r == Err::<
                ChunkType,
                ChunkTypeError,
            >(ChunkTypeError::InvalidCharacter),
            s.spec_bytes().len() == 4 && spec_all_letters(s.spec_bytes()) ==> (r matches Ok(t)
                && t@ == s.spec_bytes()),
    {
        let bytes = s.as_bytes();
        if bytes.len() != 4 {
            return Err(ChunkTypeError::ByteLengthError(bytes.len()));
        }
        let b = [bytes[0], bytes[1], bytes[2], bytes[3]];
        proof {
            assert(b@ =~= s.spec_bytes());
        }
        let valid_chars = is_letter(b[0]) && is_letter(b[1]) && is_letter(b[2]) && is_letter(b[3]);
        if !valid_chars {
            proof {
                assert(!spec_all_letters(b@)) by {
                    if spec_all_letters(b@) {
                        assert(spec_is_letter(b@[0]));
                        assert(spec_is_letter(b@[1]));
                        assert(spec_is_letter(b@[2]));
                        assert(spec_is_letter(b@[3]));
                    }
                }
            }
            return Err(ChunkTypeError::InvalidCharacter);
        }
        proof {
            assert forall|i: int| 0 <= i < b@.len() implies spec_is_letter(#[trigger] b@[i]) by {}
        }
        Ok(ChunkType::from_bytes(b))
    }

    /// The four raw bytes of the tag.
    pub fn bytes(&self) -> (r: [u8; 4])
        ensures
            r@ == self@,
    {
        self.bytes
    }

    /// Whether the tag is valid: every byte an ASCII letter and the reserved
    /// bit clear.  Advisory: decoding never rejects a chunk over this.
    pub fn is_valid(&self) -> (r: bool)
        ensures
            r == spec_is_valid(self@),
    {
        let b = self.bytes;
        let valid_chars = is_letter(b[0]) && is_letter(b[1]) && is_letter(b[2]) && is_letter(b[3]);
        proof {
            if valid_chars {
                assert forall|i: int| 0 <= i < self@.len() implies spec_is_letter(
                    #[trigger] self@[i],
                ) by {}
            } else {
                assert(!spec_all_letters(self@)) by {
                    if spec_all_letters(self@) {
                        assert(spec_is_letter(self@[0]));
                        assert(spec_is_letter(self@[1]));
                        assert(spec_is_letter(self@[2]));
                        assert(spec_is_letter(self@[3]));
                    }
                }
            }
        }
        valid_chars && self.is_reserved_bit_valid()
    }

    /// Whether the chunk is critical: bit 5 of the first byte is clear.
    pub fn is_critical(&self) -> (r: bool)
        ensures
            r == spec_is_critical(self@),
    {
        (self.bytes[0] & 0x20) != 0x20
    }

    /// Whether the tag is public: bit 5 of the second byte is clear.
    pub fn is_public(&self) -> (r: bool)
        ensures
            r == spec_is_public(self@),
    {
        (self.bytes[1] & 0x20) != 0x20
    }

    /// Whether the reserved bit is valid: bit 5 of the third byte is clear.
    pub fn is_reserved_bit_valid(&self) -> (r: bool)
        ensures
            r == spec_is_reserved_bit_valid(self@),
    {
        (self.bytes[2] & 0x20) != 0x20
    }

    /// Whether the chunk is safe to copy: bit 5 of the fourth byte is set.
    pub fn is_safe_to_copy(&self) -> (r: bool)
        ensures
            r == spec_is_safe_to_copy(self@),
    {
        (self.bytes[3] & 0x20) == 0x20
    }

    /// Renders the tag as text; `None` when its bytes are not valid UTF-8,
    /// which can only happen for a tag built through the permissive raw-byte
    /// path.
    pub fn to_text(&self) -> (r: Option<String>)
        ensures
            match r {
                Some(s) => valid_utf8(self@) && s@ == decode_utf8(self@),
                None => !valid_utf8(self@),
            },
    {
        match crate::text::try_from_utf8(self.bytes.as_slice()) {
            Some(s) => Some(s.to_owned()),
            None => None,
        }
    }
}

impl PartialEq for ChunkType {
    /// Two tags are equal exactly when their four bytes are equal.
    fn eq(&self, other: &ChunkType) -> (r: bool) {
        let r = self.bytes[0] == other.bytes[0] && self.bytes[1] == other.bytes[1] && self.bytes[2]
            == other.bytes[2] && self.bytes[3] == other.bytes[3];
        proof {
            if r {
                assert(self.bytes@ =~= other.bytes@);
            }
        }
        r
    }
}

impl vstd::std_specs::cmp::PartialEqSpecImpl for ChunkType {
    open spec fn obeys_eq_spec() -> bool {
        true
    }

    open spec fn eq_spec(&self, other: &ChunkType) -> bool {
        self@ == other@
    }
}

} // verus!
