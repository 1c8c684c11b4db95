use vstd::prelude::*;

verus! {

/// A 12-byte record identity, written as 24 hexadecimal digits.
#[derive(Clone, Copy, Debug)]
pub struct RecordId {
    pub bytes: [u8; 12],
}

impl View for RecordId {
    type V = Seq<u8>;

    open spec fn view(&self) -> Seq<u8> {
        self.bytes@
    }
}

pub open spec fn is_hex_digit(c: char) -> bool {
    ('0' <= c && c <= '9') || ('a' <= c && c <= 'f') || ('A' <= c && c <= 'F')
}

pub open spec fn hex_value(c: char) -> int {
    if '0' <= c && c <= '9' {
        c as int - '0' as int
    } else if 'a' <= c && c <= 'f' {
        c as int - 'a' as int + 10
    } else {
        c as int - 'A' as int + 10
    }
}

/// The text of an identity: exactly 24 hexadecimal digits, either case.
pub open spec fn is_id_text(s: Seq<char>) -> bool {
    s.len() == 24 && forall|i: int| 0 <= i < 24 ==> #[trigger] is_hex_digit(s[i])
}

/// The bytes that the text of an identity denotes, two digits per byte.
pub open spec fn id_bytes_of(s: Seq<char>) -> Seq<u8> {
    Seq::new(12, |i: int| (hex_value(s[2 * i]) * 16 + hex_value(s[2 * i + 1])) as u8)
}

/// Relies on `bson::oid::ObjectId::parse_str`: it hex-decodes the text and
/// accepts it exactly when that gives 12 bytes, upper and lower case alike.
#[verifier::external_body]
fn parse_object_id(s: &str) -> (r: Option<RecordId>)
    ensures
        r.is_some() <==> is_id_text(s@),
        r.is_some() ==> r.unwrap()@ == id_bytes_of(s@),
{
    match mongodb::bson::oid::ObjectId::parse_str(s) {
        Ok(oid) => Some(RecordId { bytes: oid.bytes() }),
        Err(_) => None,
    }
}

/// Relies on `bson::oid::ObjectId::new`: a fresh identity from the clock, a
/// per-process random value and a counter.
#[verifier::external_body]
pub(crate) fn fresh_object_id() -> (r: RecordId) {
    RecordId { bytes: mongodb::bson::oid::ObjectId::new().bytes() }
}

impl RecordId {
    /// Reads an identity from its text; `None` unless it is 24 hex digits.
    pub fn parse(s: &str) -> (r: Option<RecordId>)
        ensures
            r.is_some() <==> is_id_text(s@),
            r.is_some() ==> r.unwrap()@ == id_bytes_of(s@),
    {
        parse_object_id(s)
    }

    pub fn same_as(&self, other: &RecordId) -> (r: bool)
        ensures
            r == (self@ == other@),
    {
        let mut i: usize = 0;
        while i < 12
            invariant
                0 <= i <= 12,
                self@.len() == 12,
                other@.len() == 12,
                forall|k: int| 0 <= k < i ==> self@[k] == other@[k],
            decreases 12 - i,
        {
            if self.bytes[i] != other.bytes[i] {
                return false;
            }
            i = i + 1;
        }
        assert(self@ =~= other@);
        true
    }
}

} // verus!
