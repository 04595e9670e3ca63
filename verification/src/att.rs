//! ATT protocol layer: opcodes, error codes, request and response PDUs.

use crate::uuid::Uuid;
use vstd::prelude::*;

verus! {

pub const ATT_ERROR_RSP: u8 = 0x01;

pub const ATT_EXCHANGE_MTU_REQ: u8 = 0x02;

pub const ATT_FIND_INFORMATION_REQ: u8 = 0x04;

pub const ATT_FIND_INFORMATION_RSP: u8 = 0x05;

pub const ATT_FIND_BY_TYPE_VALUE_REQ: u8 = 0x06;

pub const ATT_FIND_BY_TYPE_VALUE_RSP: u8 = 0x07;

pub const ATT_READ_BY_TYPE_REQ: u8 = 0x08;

pub const ATT_READ_BY_TYPE_RSP: u8 = 0x09;

pub const ATT_READ_REQ: u8 = 0x0A;

pub const ATT_READ_RSP: u8 = 0x0B;

pub const ATT_READ_BLOB_REQ: u8 = 0x0C;

pub const ATT_READ_BLOB_RSP: u8 = 0x0D;

pub const ATT_READ_MULTIPLE_REQ: u8 = 0x0E;

pub const ATT_READ_BY_GROUP_TYPE_REQ: u8 = 0x10;

pub const ATT_READ_BY_GROUP_TYPE_RSP: u8 = 0x11;

pub const ATT_WRITE_REQ: u8 = 0x12;

pub const ATT_WRITE_RSP: u8 = 0x13;

pub const ATT_PREPARE_WRITE_REQ: u8 = 0x16;

pub const ATT_PREPARE_WRITE_RSP: u8 = 0x17;

pub const ATT_EXECUTE_WRITE_REQ: u8 = 0x18;

pub const ATT_EXECUTE_WRITE_RSP: u8 = 0x19;

pub const ATT_HANDLE_VALUE_NTF: u8 = 0x1B;

pub const ATT_WRITE_CMD: u8 = 0x52;

/// ATT protocol error codes carried in an `ERROR_RSP`.
#[derive(Clone, Copy, Debug, PartialEq, Eq, Structural)]
pub enum AttErrorCode {
    InvalidHandle,
    ReadNotPermitted,
    WriteNotPermitted,
    InvalidPdu,
    InsufficientAuthentication,
    RequestNotSupported,
    InvalidOffset,
    AttributeNotFound,
    AttributeNotLong,
    InsufficientResources,
    UnlikelyError,
}

impl AttErrorCode {
    /// The on-wire byte of each error code.
    pub open spec fn spec_code(self) -> u8 {
        match self {
            AttErrorCode::InvalidHandle => 0x01,
            AttErrorCode::ReadNotPermitted => 0x02,
            AttErrorCode::WriteNotPermitted => 0x03,
            AttErrorCode::InvalidPdu => 0x04,
            AttErrorCode::InsufficientAuthentication => 0x05,
            AttErrorCode::RequestNotSupported => 0x06,
            AttErrorCode::InvalidOffset => 0x07,
            AttErrorCode::AttributeNotFound => 0x0A,
            AttErrorCode::AttributeNotLong => 0x0B,
            AttErrorCode::InsufficientResources => 0x11,
            AttErrorCode::UnlikelyError => 0x0E,
        }
    }

    /// The on-wire byte of this error code.
    pub fn code(self) -> (r: u8)
        ensures
            r == self.spec_code(),
    {
        match self {
            AttErrorCode::InvalidHandle => 0x01,
            AttErrorCode::ReadNotPermitted => 0x02,
            AttErrorCode::WriteNotPermitted => 0x03,
            AttErrorCode::InvalidPdu => 0x04,
            AttErrorCode::InsufficientAuthentication => 0x05,
            AttErrorCode::RequestNotSupported => 0x06,
            AttErrorCode::InvalidOffset => 0x07,
            AttErrorCode::AttributeNotFound => 0x0A,
            AttErrorCode::AttributeNotLong => 0x0B,
            AttErrorCode::InsufficientResources => 0x11,
            AttErrorCode::UnlikelyError => 0x0E,
        }
    }

    /// The error code for an on-wire byte, if it is one this engine knows.
    pub fn from_code(v: u8) -> (r: Result<AttErrorCode, crate::Error>)
        ensures
            r matches Ok(c) ==> c.spec_code() == v,
            r is Err <==> !exists|c: AttErrorCode| c.spec_code() == v,
    {
        let r: Result<AttErrorCode, crate::Error> = match v {
            0x01 => Ok(AttErrorCode::InvalidHandle),
            0x02 => Ok(AttErrorCode::ReadNotPermitted),
            0x03 => Ok(AttErrorCode::WriteNotPermitted),
            0x04 => Ok(AttErrorCode::InvalidPdu),
            0x05 => Ok(AttErrorCode::InsufficientAuthentication),
            0x06 => Ok(AttErrorCode::RequestNotSupported),
            0x07 => Ok(AttErrorCode::InvalidOffset),
            0x0A => Ok(AttErrorCode::AttributeNotFound),
            0x0B => Ok(AttErrorCode::AttributeNotLong),
            0x11 => Ok(AttErrorCode::InsufficientResources),
            0x0E => Ok(AttErrorCode::UnlikelyError),
            _ => Err(crate::Error::InvalidValue),
        };
        proof {
            if r is Err {
                assert forall|c: AttErrorCode| c.spec_code() != v by {
                    if c.spec_code() == v {
                        assert(false);
                    }
                }
            } else {
                let c = r->Ok_0;
                assert(exists|c2: AttErrorCode| c2.spec_code() == v) by {
                    assert(c.spec_code() == v);
                }
            }
        }
        r
    }
}

/// A decoded ATT request PDU.
pub enum AttReq {
    /// Read the first attribute of a type in a handle range.
    ReadByType {
        /// First handle of the range.
        start: u16,
        /// Last handle of the range.
        end: u16,
        /// The attribute type looked for.
        attribute_type: Uuid,
    },
    /// Read the first attribute of a grouping type in a handle range.
    ReadByGroupType {
        /// First handle of the range.
        start: u16,
        /// Last handle of the range.
        end: u16,
        /// The grouping attribute type looked for.
        group_type: Uuid,
    },
    /// List handle/type pairs in a handle range.
    FindInformation {
        /// First handle of the range.
        start_handle: u16,
        /// Last handle of the range.
        end_handle: u16,
    },
    /// Find attributes of a 16-bit type carrying a given value.
    FindByTypeValue {
        /// First handle of the range.
        start_handle: u16,
        /// Last handle of the range.
        end_handle: u16,
        /// The 16-bit attribute type looked for.
        att_type: u16,
        /// The value looked for.
        att_value: Vec<u8>,
    },
    /// Read one attribute value.
    Read {
        /// Handle of the attribute.
        handle: u16,
    },
    /// Read one attribute value from an offset.
    ReadBlob {
        /// Handle of the attribute.
        handle: u16,
        /// Offset to read from.
        offset: u16,
    },
    /// Read several attribute values at once (not served by this engine).
    ReadMultiple {
        /// The packed list of 16-bit handles.
        handles: Vec<u8>,
    },
    /// Write one attribute value, expecting a response.
    Write {
        /// Handle of the attribute.
        handle: u16,
        /// The value to write.
        data: Vec<u8>,
    },
    /// Write one attribute value without any response.
    WriteCmd {
        /// Handle of the attribute.
        handle: u16,
        /// The value to write.
        data: Vec<u8>,
    },
    /// Stage a write at an offset.
    PrepareWrite {
        /// Handle of the attribute.
        handle: u16,
        /// Offset to write at.
        offset: u16,
        /// The value to write.
        value: Vec<u8>,
    },
    /// Execute or cancel staged writes.
    ExecuteWrite {
        /// The execute flags byte.
        flags: u8,
    },
    /// Exchange the ATT MTU (handled upstream of this engine).
    ExchangeMtu {
        /// The client's receive MTU.
        mtu: u16,
    },
}

/// Whether `b` is a request PDU this engine can decode.
pub open spec fn spec_req_parses(b: Seq<u8>) -> bool {
    if b.len() == 0 {
        false
    } else {
        let op = b[0];
        if op == ATT_READ_BY_TYPE_REQ || op == ATT_READ_BY_GROUP_TYPE_REQ {
            b.len() == 7 || b.len() == 21
        } else if op == ATT_FIND_INFORMATION_REQ {
            b.len() == 5
        } else if op == ATT_FIND_BY_TYPE_VALUE_REQ {
            b.len() >= 7
        } else if op == ATT_READ_REQ {
            b.len() == 3
        } else if op == ATT_READ_BLOB_REQ {
            b.len() == 5
        } else if op == ATT_READ_MULTIPLE_REQ {
            b.len() >= 5
        } else if op == ATT_WRITE_REQ || op == ATT_WRITE_CMD {
            b.len() >= 3
        } else if op == ATT_PREPARE_WRITE_REQ {
            b.len() >= 5
        } else if op == ATT_EXECUTE_WRITE_REQ {
            b.len() == 2
        } else if op == ATT_EXCHANGE_MTU_REQ {
            b.len() == 3
        } else {
            false
        }
    }
}

/// Whether a decoded request corresponds exactly to the PDU bytes `b`.
pub open spec fn req_matches_bytes(req: AttReq, b: Seq<u8>) -> bool {
    match req {
        AttReq::ReadByType { start, end, attribute_type } => b.len() >= 7 && b[0]
            == ATT_READ_BY_TYPE_REQ && start == u16_of(b[1], b[2]) && end == u16_of(b[3], b[4])
            && attribute_type@ == b.subrange(5, b.len() as int),
        AttReq::ReadByGroupType { start, end, group_type } => b.len() >= 7 && b[0]
            == ATT_READ_BY_GROUP_TYPE_REQ && start == u16_of(b[1], b[2]) && end == u16_of(
            b[3],
            b[4],
        ) && group_type@ == b.subrange(5, b.len() as int),
        AttReq::FindInformation { start_handle, end_handle } => b.len() == 5 && b[0]
            == ATT_FIND_INFORMATION_REQ && start_handle == u16_of(b[1], b[2]) && end_handle
            == u16_of(b[3], b[4]),
        AttReq::FindByTypeValue { start_handle, end_handle, att_type, att_value } => b.len() >= 7
            && b[0] == ATT_FIND_BY_TYPE_VALUE_REQ && start_handle == u16_of(b[1], b[2])
            && end_handle == u16_of(b[3], b[4]) && att_type == u16_of(b[5], b[6]) && att_value@
            == b.subrange(7, b.len() as int),
        AttReq::Read { handle } => b.len() == 3 && b[0] == ATT_READ_REQ && handle == u16_of(
            b[1],
            b[2],
        ),
        AttReq::ReadBlob { handle, offset } => b.len() == 5 && b[0] == ATT_READ_BLOB_REQ && handle
            == u16_of(b[1], b[2]) && offset == u16_of(b[3], b[4]),
        AttReq::ReadMultiple { handles } => b.len() >= 5 && b[0] == ATT_READ_MULTIPLE_REQ
            && handles@ == b.subrange(1, b.len() as int),
        AttReq::Write { handle, data } => b.len() >= 3 && b[0] == ATT_WRITE_REQ && handle
            == u16_of(b[1], b[2]) && data@ == b.subrange(3, b.len() as int),
        AttReq::WriteCmd { handle, data } => b.len() >= 3 && b[0] == ATT_WRITE_CMD && handle
            == u16_of(b[1], b[2]) && data@ == b.subrange(3, b.len() as int),
        AttReq::PrepareWrite { handle, offset, value } => b.len() >= 5 && b[0]
            == ATT_PREPARE_WRITE_REQ && handle == u16_of(b[1], b[2]) && offset == u16_of(
            b[3],
            b[4],
        ) && value@ == b.subrange(5, b.len() as int),
        AttReq::ExecuteWrite { flags } => b.len() == 2 && b[0] == ATT_EXECUTE_WRITE_REQ && flags
            == b[1],
        AttReq::ExchangeMtu { mtu } => b.len() == 3 && b[0] == ATT_EXCHANGE_MTU_REQ && mtu
            == u16_of(b[1], b[2]),
    }
}

impl AttReq {
    /// Structural soundness of a decoded request: type identifiers carry a
    /// valid width and a `ReadMultiple` names at least two handles.
    pub open spec fn wf(self) -> bool {
        match self {
            AttReq::ReadByType { attribute_type, .. } => attribute_type.wf(),
            AttReq::ReadByGroupType { group_type, .. } => group_type.wf(),
            AttReq::ReadMultiple { handles } => handles@.len() >= 4,
            _ => true,
        }
    }

    /// Decode one ATT request PDU.
    pub fn decode(data: &Vec<u8>) -> (r: Result<AttReq, crate::Error>)
        ensures
            r matches Ok(req) ==> req_matches_bytes(req, data@) && req.wf(),
            r is Ok <==> spec_req_parses(data@),
            r is Err ==> r == Err::<AttReq, crate::Error>(crate::Error::InvalidValue),
    {
        if data.len() == 0 {
            return Err(crate::Error::InvalidValue);
        }
        let op = data[0];
        if op == ATT_READ_BY_TYPE_REQ || op == ATT_READ_BY_GROUP_TYPE_REQ {
            if data.len() != 7 && data.len() != 21 {
                return Err(crate::Error::InvalidValue);
            }
            let start = read_u16_le(data[1], data[2]);
            let end = read_u16_le(data[3], data[4]);
            let mut rest: Vec<u8> = Vec::new();
            append_range(&mut rest, data, 5, data.len() - 5);
            let ty = match Uuid::from_slice(&rest) {
                Ok(u) => u,
                Err(_) => {
                    return Err(crate::Error::InvalidValue);
                },
            };
            if op == ATT_READ_BY_TYPE_REQ {
                Ok(AttReq::ReadByType { start, end, attribute_type: ty })
            } else {
                Ok(AttReq::ReadByGroupType { start, end, group_type: ty })
            }
        } else if op == ATT_FIND_INFORMATION_REQ {
            if data.len() != 5 {
                return Err(crate::Error::InvalidValue);
            }
            Ok(
                AttReq::FindInformation {
                    start_handle: read_u16_le(data[1], data[2]),
                    end_handle: read_u16_le(data[3], data[4]),
                },
            )
        } else if op == ATT_FIND_BY_TYPE_VALUE_REQ {
            if data.len() < 7 {
                return Err(crate::Error::InvalidValue);
            }
            let mut value: Vec<u8> = Vec::new();
            append_range(&mut value, data, 7, data.len() - 7);
            Ok(
                AttReq::FindByTypeValue {
                    start_handle: read_u16_le(data[1], data[2]),
                    end_handle: read_u16_le(data[3], data[4]),
                    att_type: read_u16_le(data[5], data[6]),
                    att_value: value,
                },
            )
        } else if op == ATT_READ_REQ {
            if data.len() != 3 {
                return Err(crate::Error::InvalidValue);
            }
            Ok(AttReq::Read { handle: read_u16_le(data[1], data[2]) })
        } else if op == ATT_READ_BLOB_REQ {
            if data.len() != 5 {
                return Err(crate::Error::InvalidValue);
            }
            Ok(
                AttReq::ReadBlob {
                    handle: read_u16_le(data[1], data[2]),
                    offset: read_u16_le(data[3], data[4]),
                },
            )
        } else if op == ATT_READ_MULTIPLE_REQ {
            if data.len() < 5 {
                return Err(crate::Error::InvalidValue);
            }
            let mut handles: Vec<u8> = Vec::new();
            append_range(&mut handles, data, 1, data.len() - 1);
            Ok(AttReq::ReadMultiple { handles })
        } else if op == ATT_WRITE_REQ || op == ATT_WRITE_CMD {
            if data.len() < 3 {
                return Err(crate::Error::InvalidValue);
            }
            let handle = read_u16_le(data[1], data[2]);
            let mut payload: Vec<u8> = Vec::new();
            append_range(&mut payload, data, 3, data.len() - 3);
            if op == ATT_WRITE_REQ {
                Ok(AttReq::Write { handle, data: payload })
            } else {
                Ok(AttReq::WriteCmd { handle, data: payload })
            }
        } else if op == ATT_PREPARE_WRITE_REQ {
            if data.len() < 5 {
                return Err(crate::Error::InvalidValue);
            }
            let mut value: Vec<u8> = Vec::new();
            append_range(&mut value, data, 5, data.len() - 5);
            Ok(
                AttReq::PrepareWrite {
                    handle: read_u16_le(data[1], data[2]),
                    offset: read_u16_le(data[3], data[4]),
                    value,
                },
            )
        } else if op == ATT_EXECUTE_WRITE_REQ {
            if data.len() != 2 {
                return Err(crate::Error::InvalidValue);
            }
            Ok(AttReq::ExecuteWrite { flags: data[1] })
        } else if op == ATT_EXCHANGE_MTU_REQ {
            if data.len() != 3 {
                return Err(crate::Error::InvalidValue);
            }
            Ok(AttReq::ExchangeMtu { mtu: read_u16_le(data[1], data[2]) })
        } else {
            Err(crate::Error::InvalidValue)
        }
    }

    /// Encode this request into its PDU bytes.
    pub fn encode(&self) -> (r: Vec<u8>)
        requires
            self.wf(),
        ensures
            req_matches_bytes(*self, r@),
            spec_req_parses(r@),
    {
        let mut out: Vec<u8> = Vec::new();
        match self {
            AttReq::ReadByType { start, end, attribute_type } => {
                out.push(ATT_READ_BY_TYPE_REQ);
                push_u16_le(&mut out, *start);
                push_u16_le(&mut out, *end);
                append_range(&mut out, attribute_type.as_raw(), 0, attribute_type.len());
                proof {
                    assert(out@.subrange(5, out@.len() as int) =~= attribute_type@);
                }
            },
            AttReq::ReadByGroupType { start, end, group_type } => {
                out.push(ATT_READ_BY_GROUP_TYPE_REQ);
                push_u16_le(&mut out, *start);
                push_u16_le(&mut out, *end);
                append_range(&mut out, group_type.as_raw(), 0, group_type.len());
                proof {
                    assert(out@.subrange(5, out@.len() as int) =~= group_type@);
                }
            },
            AttReq::FindInformation { start_handle, end_handle } => {
                out.push(ATT_FIND_INFORMATION_REQ);
                push_u16_le(&mut out, *start_handle);
                push_u16_le(&mut out, *end_handle);
            },
            AttReq::FindByTypeValue { start_handle, end_handle, att_type, att_value } => {
                out.push(ATT_FIND_BY_TYPE_VALUE_REQ);
                push_u16_le(&mut out, *start_handle);
                push_u16_le(&mut out, *end_handle);
                push_u16_le(&mut out, *att_type);
                append_range(&mut out, att_value, 0, att_value.len());
                proof {
                    assert(out@.subrange(7, out@.len() as int) =~= att_value@);
                }
            },
            AttReq::Read { handle } => {
                out.push(ATT_READ_REQ);
                push_u16_le(&mut out, *handle);
            },
            AttReq::ReadBlob { handle, offset } => {
                out.push(ATT_READ_BLOB_REQ);
                push_u16_le(&mut out, *handle);
                push_u16_le(&mut out, *offset);
            },
            AttReq::ReadMultiple { handles } => {
                out.push(ATT_READ_MULTIPLE_REQ);
                append_range(&mut out, handles, 0, handles.len());
                proof {
                    assert(out@.subrange(1, out@.len() as int) =~= handles@);
                }
            },
            AttReq::Write { handle, data } => {
                out.push(ATT_WRITE_REQ);
                push_u16_le(&mut out, *handle);
                append_range(&mut out, data, 0, data.len());
                proof {
                    assert(out@.subrange(3, out@.len() as int) =~= data@);
                }
            },
            AttReq::WriteCmd { handle, data } => {
                out.push(ATT_WRITE_CMD);
                push_u16_le(&mut out, *handle);
                append_range(&mut out, data, 0, data.len());
                proof {
                    assert(out@.subrange(3, out@.len() as int) =~= data@);
                }
            },
            AttReq::PrepareWrite { handle, offset, value } => {
                out.push(ATT_PREPARE_WRITE_REQ);
                push_u16_le(&mut out, *handle);
                push_u16_le(&mut out, *offset);
                append_range(&mut out, value, 0, value.len());
                proof {
                    assert(out@.subrange(5, out@.len() as int) =~= value@);
                }
            },
            AttReq::ExecuteWrite { flags } => {
                out.push(ATT_EXECUTE_WRITE_REQ);
                out.push(*flags);
            },
            AttReq::ExchangeMtu { mtu } => {
                out.push(ATT_EXCHANGE_MTU_REQ);
                push_u16_le(&mut out, *mtu);
            },
        }
        out
    }
}

/// Little-endian bytes of a 16-bit value.
pub open spec fn le16(v: u16) -> Seq<u8> {
    seq![(v % 256) as u8, (v / 256) as u8]
}

/// The 16-bit value read from two little-endian bytes.
pub open spec fn u16_of(lo: u8, hi: u8) -> u16 {
    (lo + hi * 256) as u16
}

/// Append the little-endian bytes of a 16-bit value.
pub fn push_u16_le(out: &mut Vec<u8>, v: u16)
    ensures
        final(out)@ == old(out)@ + le16(v),
{
    out.push((v % 256) as u8);
    out.push((v / 256) as u8);
    proof {
        assert(out@ =~= old(out)@ + le16(v));
    }
}

/// Read a 16-bit value from two little-endian bytes.
pub fn read_u16_le(lo: u8, hi: u8) -> (r: u16)
    ensures
        r == u16_of(lo, hi),
{
    lo as u16 + hi as u16 * 256
}

/// Whether two byte vectors hold the same bytes.
pub fn vecs_equal(a: &Vec<u8>, b: &Vec<u8>) -> (r: bool)
    ensures
        r == (a@ == b@),
{
    if a.len() != b.len() {
        return false;
    }
    let mut i: usize = 0;
    while i < a.len()
        invariant
            i <= a@.len(),
            a@.len() == b@.len(),
            forall|j: int| 0 <= j < i ==> a@[j] == b@[j],
        decreases a@.len() - i,
    {
        if a[i] != b[i] {
            return false;
        }
        i += 1;
    }
    proof {
        assert(a@ =~= b@);
    }
    true
}

/// Append `count` bytes of `src` starting at `from`.
pub fn append_range(out: &mut Vec<u8>, src: &Vec<u8>, from: usize, count: usize)
    requires
        from + count <= src@.len(),
    ensures
        final(out)@ == old(out)@ + src@.subrange(from as int, from as int + count as int),
{
    let srclen: usize = src.len();
    let mut i: usize = 0;
    while i < count
        invariant
            i <= count,
            from + count <= srclen,
            srclen == src@.len(),
            out@ =~= old(out)@ + src@.subrange(from as int, from as int + i as int),
        decreases count - i,
    {
        out.push(src[from + i]);
        proof {
            assert(out@ =~= old(out)@ + src@.subrange(from as int, from as int + (i + 1) as int));
        }
        i += 1;
    }
    proof {
        assert(out@ =~= old(out)@ + src@.subrange(from as int, from as int + count as int));
    }
}

} // verus!
