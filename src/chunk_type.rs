use vstd::prelude::*;
use vstd::string::StrSliceExecFns;

use crate::error::Error;

verus! {

/// `A`-`Z` or `a`-`z`, as a byte.
pub open spec fn is_ascii_letter(b: u8) -> bool {
    (65 <= b && b <= 90) || (97 <= b && b <= 122)
}

/// `A`-`Z` or `a`-`z`, as a character.
pub open spec fn is_letter_char(c: char) -> bool {
    (65 <= c as u32 && c as u32 <= 90) || (97 <= c as u32 && c as u32 <= 122)
}

/// Text that names a type tag: four characters, each an ASCII letter.
pub open spec fn is_tag_text(s: Seq<char>) -> bool {
    &&& s.len() == 4
    &&& forall|i: int| 0 <= i < 4 ==> is_letter_char(#[trigger] s[i])
}

/// Four bytes, each an ASCII letter: the well-formed type tags.
pub open spec fn all_letters(b: Seq<u8>) -> bool {
    &&& b.len() == 4
    &&& forall|i: int| 0 <= i < 4 ==> is_ascii_letter(#[trigger] b[i])
}

/// Bit 5 (`0x20`) of a tag byte: the lower-case bit, which carries the flag
/// of that byte's position.
pub open spec fn flag_bit(b: u8) -> bool {
    b & 0x20u8 != 0
}

/// The bytes that a sequence of (ASCII) characters stands for.
pub open spec fn bytes_of_chars(s: Seq<char>) -> Seq<u8> {
    s.map_values(|c: char| (c as u32) as u8)
}

/// The characters that a sequence of (ASCII) bytes stands for.
pub open spec fn chars_of_bytes(b: Seq<u8>) -> Seq<char> {
    b.map_values(|x: u8| x as char)
}

/// A four-letter chunk type tag, kept in its original case.
#[derive(Debug, Clone, Copy)]
pub struct ChunkType {
    bytes: [u8; 4],
}

impl View for ChunkType {
    type V = Seq<u8>;

    closed spec fn view(&self) -> Seq<u8> {
        self.bytes@
    }
}

fn is_letter(b: u8) -> (r: bool)
    ensures
        r == is_ascii_letter(b),
{
    (65 <= b && b <= 90) || (97 <= b && b <= 122)
}

impl ChunkType {
    #[verifier::type_invariant]
    spec fn letters(&self) -> bool {
        all_letters(self.bytes@)
    }

    /// Builds a tag from four bytes. Every byte is checked; if any is not an
    /// ASCII letter the result is `ValueNotInRange`.
    pub fn from_bytes(value: [u8; 4]) -> (r: Result<ChunkType, Error>)
        ensures
            match r {
                Ok(t) => all_letters(value@) && t@ == value@,
                Err(e) => !all_letters(value@) && e == Error::ValueNotInRange,
            },
    {
        let mut ok = true;
        let mut i: usize = 0;
        while i < 4
            invariant
                0 <= i <= 4,
                ok == (forall|j: int| 0 <= j < i ==> is_ascii_letter(#[trigger] value@[j])),
            decreases 4 - i,
        {
            if !is_letter(value[i]) {
                ok = false;
            }
            i += 1;
        }
        if ok {
            Ok(ChunkType { bytes: value })
        } else {
            Err(Error::ValueNotInRange)
        }
    }

    /// Builds a tag from a borrowed array of four bytes, as `from_bytes` does.
    pub fn from_byte_ref(value: &[u8; 4]) -> (r: Result<ChunkType, Error>)
        ensures
            match r {
                Ok(t) => all_letters(value@) && t@ == value@,
                Err(e) => !all_letters(value@) && e == Error::ValueNotInRange,
            },
    {
        ChunkType::from_bytes(*value)
    }

    /// Builds a tag from text: `WrongLength` unless it has exactly four
    /// characters, then `ValueNotInRange` unless each is an ASCII letter.
    pub fn from_str(s: &str) -> (r: Result<ChunkType, Error>)
        ensures
            s@.len() != 4 ==> r == Err::<ChunkType, Error>(Error::WrongLength),
            s@.len() == 4 && !is_tag_text(s@) ==> r == Err::<ChunkType, Error>(
                Error::ValueNotInRange,
            ),
            is_tag_text(s@) ==> (r matches Ok(t) && t@ == bytes_of_chars(s@)),
    {
        if s.unicode_len() != 4 {
            return Err(Error::WrongLength);
        }
        let mut ok = true;
        let mut bytes: [u8; 4] = [0u8; 4];
        let mut i: usize = 0;
        while i < 4
            invariant
                0 <= i <= 4,
                s@.len() == 4,
                ok == (forall|j: int| 0 <= j < i ==> is_letter_char(#[trigger] s@[j])),
                ok ==> forall|j: int| 0 <= j < i ==> bytes@[j] == #[trigger] (s@[j] as u32) as u8,
            decreases 4 - i,
        {
            let c = s.get_char(i);
            let code = c as u32;
            if (65 <= code && code <= 90) || (97 <= code && code <= 122) {
                bytes[i] = code as u8;
            } else {
                ok = false;
            }
            i += 1;
        }
        if ok {
            proof {
                assert forall|j: int| 0 <= j < 4 implies is_ascii_letter(#[trigger] bytes@[j]) by {
                    let c = s@[j];
                    assert(is_letter_char(c));
                    assert(bytes@[j] == (c as u32) as u8);
                }
                assert(bytes@ =~= bytes_of_chars(s@));
            }
            Ok(ChunkType { bytes })
        } else {
            Err(Error::ValueNotInRange)
        }
    }
    /// The four bytes of the tag, in order: the form that records carry and
    /// that the checksum covers.
    pub fn bytes(&self) -> (r: [u8; 4])
        ensures
            r@ == self@,
            all_letters(r@),
    {
        proof {
            use_type_invariant(self);
        }
        self.bytes
    }

    /// The tag as text, in its original case.
    pub fn to_string(&self) -> (r: String)
        ensures
            r@ == chars_of_bytes(self@),
    {
        let mut s = String::new();
        let mut i: usize = 0;
        while i < 4
            invariant
                0 <= i <= 4,
                s@ =~= chars_of_bytes(self@.take(i as int)),
            decreases 4 - i,
        {
            s.push(self.bytes[i] as char);
            i += 1;
            assert(self@.take(i as int) =~= self@.take(i - 1).push(self@[i - 1]));
        }
        assert(self@.take(4) =~= self@);
        s
    }

    /// Critical (bit 5 of the first byte clear), as opposed to ancillary.
    pub fn is_critical(&self) -> (r: bool)
        ensures
            r == !flag_bit(self@[0]),
    {
        self.bytes[0] & 0x20u8 == 0
    }

    /// Public (bit 5 of the second byte clear), as opposed to private.
    pub fn is_public(&self) -> (r: bool)
        ensures
            r == !flag_bit(self@[1]),
    {
        self.bytes[1] & 0x20u8 == 0
    }

    /// The reserved bit (bit 5 of the third byte) is clear, as it must be.
    pub fn is_reserved_bit_valid(&self) -> (r: bool)
        ensures
            r == !flag_bit(self@[2]),
    {
        self.bytes[2] & 0x20u8 == 0
    }

    /// Safe to copy (bit 5 of the fourth byte set).
    pub fn is_safe_to_copy(&self) -> (r: bool)
        ensures
            r == flag_bit(self@[3]),
    {
        self.bytes[3] & 0x20u8 != 0
    }

    /// A well-formed tag is valid exactly when its reserved bit is clear.
    pub fn is_valid(&self) -> (r: bool)
        ensures
            r == !flag_bit(self@[2]),
    {
        self.is_reserved_bit_valid()
    }
}

impl PartialEq for ChunkType {
    fn eq(&self, other: &ChunkType) -> (r: bool) {
        let r = self.bytes[0] == other.bytes[0] && self.bytes[1] == other.bytes[1]
            && self.bytes[2] == other.bytes[2] && self.bytes[3] == other.bytes[3];
        proof {
            if r {
                assert(self.bytes@ =~= other.bytes@);
            }
        }
        r
    }
}

impl vstd::std_specs::cmp::PartialEqSpecImpl for ChunkType {
    open spec fn obeys_eq_spec() -> bool {
        true
    }

    open spec fn eq_spec(&self, other: &ChunkType) -> bool {
        self@ == other@
    }
}

impl Eq for ChunkType {

}

impl TryFrom<[u8; 4]> for ChunkType {
    type Error = Error;

    fn try_from(value: [u8; 4]) -> (r: Result<ChunkType, Error>)
        ensures
            match r {
                Ok(t) => all_letters(value@) && t@ == value@,
                Err(e) => !all_letters(value@) && e == Error::ValueNotInRange,
            },
    {
        let r = ChunkType::from_bytes(value);
        proof {
            if let Ok(t) = r {
                assert(t.bytes =~= value);
            }
        }
        r
    }
}

impl vstd::std_specs::convert::TryFromSpecImpl<[u8; 4]> for ChunkType {
    open spec fn obeys_try_from_spec() -> bool {
        true
    }

    closed spec fn try_from_spec(value: [u8; 4]) -> Result<ChunkType, Error> {
        if all_letters(value@) {
            Ok(ChunkType { bytes: value })
        } else {
            Err(Error::ValueNotInRange)
        }
    }
}

impl TryFrom<&[u8; 4]> for ChunkType {
    type Error = Error;

    fn try_from(value: &[u8; 4]) -> (r: Result<ChunkType, Error>)
        ensures
            match r {
                Ok(t) => all_letters(value@) && t@ == value@,
                Err(e) => !all_letters(value@) && e == Error::ValueNotInRange,
            },
    {
        let r = ChunkType::from_byte_ref(value);
        proof {
            if let Ok(t) = r {
                assert(t.bytes =~= *value);
            }
        }
        r
    }
}

impl vstd::std_specs::convert::TryFromSpecImpl<&[u8; 4]> for ChunkType {
    open spec fn obeys_try_from_spec() -> bool {
        true
    }

    closed spec fn try_from_spec(value: &[u8; 4]) -> Result<ChunkType, Error> {
        if all_letters(value@) {
            Ok(ChunkType { bytes: *value })
        } else {
            Err(Error::ValueNotInRange)
        }
    }
}

/// Converting four owned bytes gives the tag of those bytes exactly when each
/// is an ASCII letter, and `ValueNotInRange` otherwise.
pub proof fn lemma_try_from_array(value: [u8; 4])
    ensures
        match <ChunkType as vstd::std_specs::convert::TryFromSpec<[u8; 4]>>::try_from_spec(value) {
            Ok(t) => all_letters(value@) && t@ == value@,
            Err(e) => !all_letters(value@) && e == Error::ValueNotInRange,
        },
{
}

/// Converting four borrowed bytes gives the tag of those bytes exactly when
/// each is an ASCII letter, and `ValueNotInRange` otherwise.
pub proof fn lemma_try_from_array_ref(value: &[u8; 4])
    ensures
        match <ChunkType as vstd::std_specs::convert::TryFromSpec<&[u8; 4]>>::try_from_spec(
            value,
        ) {
            Ok(t) => all_letters(value@) && t@ == value@,
            Err(e) => !all_letters(value@) && e == Error::ValueNotInRange,
        },
{
}

impl std::str::FromStr for ChunkType {
    type Err = Error;

    fn from_str(s: &str) -> Result<ChunkType, Error> {
        ChunkType::from_str(s)
    }
}

} // verus!
