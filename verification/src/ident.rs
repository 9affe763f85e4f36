//! Document identifiers: twelve bytes, written as 24 hexadecimal digits.

use crate::error::EngineError;
use mongodb::bson::oid::ObjectId;
use vstd::prelude::*;

verus! {

/// Whether `c` is a hexadecimal digit, in either case.
pub open spec fn is_hex_digit(c: char) -> bool {
    let n = c as u32;
    (48 <= n <= 57) || (65 <= n <= 70) || (97 <= n <= 102)
}

/// The value of the hexadecimal digit `c`.
pub open spec fn hex_digit_value(c: char) -> int {
    let n = c as u32;
    if 48 <= n <= 57 {
        n - 48
    } else if 65 <= n <= 70 {
        n - 55
    } else {
        n - 87
    }
}

/// Whether `s` is the text of an identifier: exactly 24 hexadecimal digits.
pub open spec fn is_identifier_text(s: Seq<char>) -> bool {
    s.len() == 24 && forall|i: int| 0 <= i < 24 ==> is_hex_digit(#[trigger] s[i])
}

/// The twelve bytes that the text `s` stands for: each pair of digits gives
/// one byte, the first digit of the pair being the high half.
pub open spec fn identifier_bytes(s: Seq<char>) -> Seq<u8> {
    Seq::new(12, |i: int| (16 * hex_digit_value(s[2 * i]) + hex_digit_value(s[2 * i + 1])) as u8)
}

/// The identifier of a stored document.
#[derive(Clone, Copy, Debug)]
pub struct Oid {
    pub bytes: [u8; 12],
}

impl View for Oid {
    type V = Seq<u8>;

    open spec fn view(&self) -> Seq<u8> {
        self.bytes@
    }
}

/// The error of `ObjectId::parse_str` of the bson crate. It is carried from
/// the call to the place that turns it into an error of this library, and
/// never looked into.
#[verifier::external_type_specification]
#[verifier::external_body]
pub struct ExObjectIdError(mongodb::bson::oid::Error);

/// Decodes an identifier with `ObjectId::parse_str` of the bson crate, as the
/// mongodb driver hands it on, and returns the bytes that `ObjectId::bytes`
/// gives. Nothing here is proved: the contract restates what that function
/// does. It decodes the text as hexadecimal, two digits to a byte with the
/// high half first and both cases accepted, and fails unless exactly twelve
/// bytes come out; a character outside ASCII is no digit.
#[verifier::external_body]
fn decode_object_id(s: &str) -> (r: Result<[u8; 12], mongodb::bson::oid::Error>)
    ensures
        r.is_ok() <==> is_identifier_text(s@),
        r matches Ok(b) ==> b@ == identifier_bytes(s@),
{
    match ObjectId::parse_str(s) {
        Ok(id) => Ok(id.bytes()),
        Err(e) => Err(e),
    }
}

impl Oid {
    /// Reads an identifier from its text of 24 hexadecimal digits.
    pub fn parse_str(s: &str) -> (r: Result<Oid, EngineError>)
        ensures
            is_identifier_text(s@) ==> (r matches Ok(id) && id@ == identifier_bytes(s@)),
            !is_identifier_text(s@) ==> r == Err::<Oid, EngineError>(EngineError::InvalidIdentifier),
    {
        match decode_object_id(s) {
            Ok(bytes) => Ok(Oid { bytes }),
            Err(_) => Err(EngineError::InvalidIdentifier),
        }
    }

    /// Whether two identifiers are the same.
    pub fn same(&self, other: &Oid) -> (r: bool)
        ensures
            r == (self@ == other@),
    {
        let mut i: usize = 0;
        while i < 12
            invariant
                i <= 12,
                forall|j: int| 0 <= j < i ==> self.bytes@[j] == other.bytes@[j],
            decreases 12 - i,
        {
            if self.bytes[i] != other.bytes[i] {
                return false;
            }
            i += 1;
        }
        assert(self@ =~= other@);
        true
    }
}

} // verus!
