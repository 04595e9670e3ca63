//! Attribute identifiers.

use vstd::prelude::*;

verus! {

/// Wire format marker for a 16-bit identifier (`FindInformation` format 1).
pub const UUID_TYPE_16: u8 = 1;

/// Wire format marker for a 128-bit identifier (`FindInformation` format 2).
pub const UUID_TYPE_128: u8 = 2;

/// A 16-bit or 128-bit attribute identifier, stored as its little-endian
/// wire bytes (2 or 16 of them).
pub struct Uuid {
    bytes: Vec<u8>,
}

impl View for Uuid {
    type V = Seq<u8>;

    closed spec fn view(&self) -> Seq<u8> {
        self.bytes@
    }
}

impl Uuid {
    /// A stored identifier is either 16-bit (2 bytes) or 128-bit (16 bytes).
    pub open spec fn wf(&self) -> bool {
        self@.len() == 2 || self@.len() == 16
    }

    /// The little-endian bytes of a 16-bit identifier.
    pub open spec fn spec_short(v: u16) -> Seq<u8> {
        seq![(v % 256) as u8, (v / 256) as u8]
    }

    /// Build a 16-bit identifier from its numeric value.
    pub fn new_short(v: u16) -> (r: Uuid)
        ensures
            r@ == Self::spec_short(v),
            r.wf(),
    {
        let mut bytes: Vec<u8> = Vec::new();
        bytes.push((v % 256) as u8);
        bytes.push((v / 256) as u8);
        proof {
            assert(bytes@ =~= Self::spec_short(v));
        }
        Uuid { bytes }
    }

    /// Build a 128-bit identifier from its 16 little-endian bytes.
    pub fn new_long(b: [u8; 16]) -> (r: Uuid)
        ensures
            r@ == b@,
            r.wf(),
    {
        let mut bytes: Vec<u8> = Vec::new();
        let mut i: usize = 0;
        while i < 16
            invariant
                i <= 16,
                bytes@ =~= b@.take(i as int),
            decreases 16 - i,
        {
            bytes.push(b[i]);
            i += 1;
        }
        proof {
            assert(bytes@ =~= b@);
        }
        Uuid { bytes }
    }

    /// Reinterpret raw little-endian bytes as an identifier; the length
    /// decides between the 16-bit and the 128-bit form.
    pub fn from_slice(data: &Vec<u8>) -> (r: Result<Uuid, crate::Error>)
        ensures
            data@.len() == 2 || data@.len() == 16 ==> (r matches Ok(u) && u@ == data@ && u.wf()),
            data@.len() != 2 && data@.len() != 16 ==> r == Err::<Uuid, crate::Error>(
                crate::Error::InvalidValue,
            ),
    {
        if data.len() == 2 || data.len() == 16 {
            let mut bytes: Vec<u8> = Vec::new();
            let mut i: usize = 0;
            while i < data.len()
                invariant
                    i <= data@.len(),
                    bytes@ =~= data@.take(i as int),
                decreases data@.len() - i,
            {
                bytes.push(data[i]);
                i += 1;
            }
            proof {
                assert(bytes@ =~= data@);
            }
            Ok(Uuid { bytes })
        } else {
            Err(crate::Error::InvalidValue)
        }
    }

    /// The raw little-endian bytes.
    pub fn as_raw(&self) -> (r: &Vec<u8>)
        ensures
            r@ == self@,
    {
        &self.bytes
    }

    /// Number of stored bytes.
    pub fn len(&self) -> (r: usize)
        ensures
            r == self@.len(),
    {
        self.bytes.len()
    }

    /// Byte at a position.
    pub fn byte_at(&self, i: usize) -> (r: u8)
        requires
            i < self@.len(),
        ensures
            r == self@[i as int],
    {
        self.bytes[i]
    }

    /// Wire format class: 1 for a 16-bit identifier, 2 otherwise.
    pub open spec fn spec_get_type(self) -> u8 {
        if self@.len() == 2 {
            UUID_TYPE_16
        } else {
            UUID_TYPE_128
        }
    }

    /// Wire format class marker, as used by `FindInformation` responses.
    pub fn get_type(&self) -> (r: u8)
        ensures
            r == self.spec_get_type(),
    {
        if self.bytes.len() == 2 {
            UUID_TYPE_16
        } else {
            UUID_TYPE_128
        }
    }

    /// Numeric value of a 16-bit identifier.
    pub open spec fn spec_as_short(self) -> u16 {
        (self@[0] + self@[1] * 256) as u16
    }

    /// Numeric value of a 16-bit identifier.
    pub fn as_short(&self) -> (r: u16)
        requires
            self@.len() >= 2,
        ensures
            r == self.spec_as_short(),
    {
        self.bytes[0] as u16 + self.bytes[1] as u16 * 256
    }

    /// A copy with the same bytes.
    pub fn dup(&self) -> (r: Uuid)
        ensures
            r@ == self@,
    {
        let mut bytes: Vec<u8> = Vec::new();
        let mut i: usize = 0;
        while i < self.bytes.len()
            invariant
                i <= self@.len(),
                bytes@ =~= self@.take(i as int),
            decreases self@.len() - i,
        {
            bytes.push(self.bytes[i]);
            i += 1;
        }
        proof {
            assert(bytes@ =~= self@);
        }
        Uuid { bytes }
    }
}

impl PartialEq for Uuid {
    /// Identifiers are equal when their stored bytes are equal.
    fn eq(&self, other: &Uuid) -> (r: bool) {
        if self.bytes.len() != other.bytes.len() {
            return false;
        }
        let mut i: usize = 0;
        while i < self.bytes.len()
            invariant
                i <= self@.len(),
                self@.len() == other@.len(),
                forall|j: int| 0 <= j < i ==> self@[j] == other@[j],
            decreases self@.len() - i,
        {
            if self.bytes[i] != other.bytes[i] {
                return false;
            }
            i += 1;
        }
        proof {
            assert(self@ =~= other@);
        }
        true
    }
}

impl vstd::std_specs::cmp::PartialEqSpecImpl for Uuid {
    open spec fn obeys_eq_spec() -> bool {
        true
    }

    open spec fn eq_spec(&self, other: &Uuid) -> bool {
        self@ == other@
    }
}

} // verus!
