//! Client-side GATT logic: response decoding, service and characteristic
//! discovery, and the read/write/subscribe decision steps.
//!
//! Everything here is transport-free: a caller sends the request PDUs this
//! module builds, and feeds the decoded responses back in.

use crate::att::{
    u16_of, AttErrorCode, AttReq, ATT_ERROR_RSP, ATT_FIND_BY_TYPE_VALUE_RSP,
    ATT_HANDLE_VALUE_NTF, ATT_READ_BY_TYPE_RSP, ATT_READ_RSP, ATT_WRITE_RSP,
};
use crate::attribute::{
    AttributeData, Characteristic, CHARACTERISTIC_CCCD_UUID16, CHARACTERISTIC_UUID16,
    PRIMARY_SERVICE_UUID16,
};
use crate::uuid::Uuid;
use crate::Error;
use vstd::prelude::*;

verus! {

/// Handle range of a discovered GATT service.
pub struct ServiceHandle {
    /// First handle of the service group.
    pub start: u16,
    /// Last handle of the service group.
    pub end: u16,
    /// Identifier of the service.
    pub uuid: Uuid,
}

/// A decoded ATT response PDU, covering the response classes the client
/// logic consumes.
pub enum AttRsp {
    /// An error response.
    Error {
        /// Opcode of the refused request.
        request: u8,
        /// Handle the error names.
        handle: u16,
        /// The ATT error code.
        code: AttErrorCode,
    },
    /// A read response carrying value bytes.
    Read {
        /// The value bytes.
        data: Vec<u8>,
    },
    /// A read-by-type response carrying handle/value pairs.
    ReadByType {
        /// The decoded pairs.
        pairs: Vec<(u16, Vec<u8>)>,
    },
    /// A find-by-type-value response carrying handle-range pairs.
    FindByTypeValue {
        /// The decoded `(first handle, group end handle)` pairs.
        groups: Vec<(u16, u16)>,
    },
    /// A write response.
    Write,
}

/// The abstract value of decoded handle/value pairs.
pub open spec fn pairs_view(v: Seq<(u16, Vec<u8>)>) -> Seq<(u16, Seq<u8>)> {
    v.map_values(|p: (u16, Vec<u8>)| (p.0, p.1@))
}

/// The handle/value pairs packed in a read-by-type response body from byte
/// `i` on, each `pair_len` bytes: a 16-bit handle then the value; a trailing
/// fragment shorter than one pair is ignored.
pub open spec fn spec_rbt_pairs(b: Seq<u8>, pair_len: int, i: int) -> Seq<(u16, Seq<u8>)>
    decreases b.len() - i,
{
    if pair_len < 2 || i < 0 || i + pair_len > b.len() {
        seq![]
    } else {
        seq![(u16_of(b[i], b[i + 1]), b.subrange(i + 2, i + pair_len))] + spec_rbt_pairs(
            b,
            pair_len,
            i + pair_len,
        )
    }
}

/// The handle-range pairs packed in a find-by-type-value response body from
/// byte `i` on, four bytes each; a trailing fragment is ignored.
pub open spec fn spec_ftv_groups(b: Seq<u8>, i: int) -> Seq<(u16, u16)>
    decreases b.len() - i,
{
    if i < 0 || i + 4 > b.len() {
        seq![]
    } else {
        seq![(u16_of(b[i], b[i + 1]), u16_of(b[i + 2], b[i + 3]))] + spec_ftv_groups(b, i + 4)
    }
}

/// Whether `b` is a response PDU this client can decode.
pub open spec fn spec_rsp_parses(b: Seq<u8>) -> bool {
    if b.len() == 0 {
        false
    } else {
        let op = b[0];
        if op == ATT_ERROR_RSP {
            b.len() == 5 && exists|c: AttErrorCode| c.spec_code() == b[4]
        } else if op == ATT_READ_RSP {
            true
        } else if op == ATT_READ_BY_TYPE_RSP {
            b.len() >= 2 && b[1] >= 2
        } else if op == ATT_FIND_BY_TYPE_VALUE_RSP {
            true
        } else if op == ATT_WRITE_RSP {
            true
        } else {
            false
        }
    }
}

/// Whether a decoded response corresponds exactly to the PDU bytes `b`.
pub open spec fn rsp_matches_bytes(rsp: AttRsp, b: Seq<u8>) -> bool {
    match rsp {
        AttRsp::Error { request, handle, code } => b.len() == 5 && b[0] == ATT_ERROR_RSP && request
            == b[1] && handle == u16_of(b[2], b[3]) && code.spec_code() == b[4],
        AttRsp::Read { data } => b.len() >= 1 && b[0] == ATT_READ_RSP && data@ == b.subrange(
            1,
            b.len() as int,
        ),
        AttRsp::ReadByType { pairs } => b.len() >= 2 && b[0] == ATT_READ_BY_TYPE_RSP && b[1] >= 2
            && pairs_view(pairs@) == spec_rbt_pairs(b, b[1] as int, 2),
        AttRsp::FindByTypeValue { groups } => b.len() >= 1 && b[0] == ATT_FIND_BY_TYPE_VALUE_RSP
            && groups@ == spec_ftv_groups(b, 1),
        AttRsp::Write => b.len() >= 1 && b[0] == ATT_WRITE_RSP,
    }
}

impl AttRsp {
    /// Decode one ATT response PDU.
    pub fn decode(data: &Vec<u8>) -> (r: Result<AttRsp, Error>)
        ensures
            r matches Ok(rsp) ==> rsp_matches_bytes(rsp, data@),
            r is Ok <==> spec_rsp_parses(data@),
            r is Err ==> r == Err::<AttRsp, Error>(Error::InvalidValue),
    {
        if data.len() == 0 {
            return Err(Error::InvalidValue);
        }
        let op = data[0];
        if op == ATT_ERROR_RSP {
            if data.len() != 5 {
                return Err(Error::InvalidValue);
            }
            let code = match AttErrorCode::from_code(data[4]) {
                Ok(c) => c,
                Err(_) => {
                    return Err(Error::InvalidValue);
                },
            };
            Ok(
                AttRsp::Error {
                    request: data[1],
                    handle: crate::att::read_u16_le(data[2], data[3]),
                    code,
                },
            )
        } else if op == ATT_READ_RSP {
            let mut payload: Vec<u8> = Vec::new();
            crate::att::append_range(&mut payload, data, 1, data.len() - 1);
            Ok(AttRsp::Read { data: payload })
        } else if op == ATT_READ_BY_TYPE_RSP {
            if data.len() < 2 || data[1] < 2 {
                return Err(Error::InvalidValue);
            }
            let pair_len = data[1] as usize;
            let mut pairs: Vec<(u16, Vec<u8>)> = Vec::new();
            let mut i: usize = 2;
            while data.len() - i >= pair_len
                invariant
                    2 <= pair_len <= 255,
                    2 <= i <= data@.len(),
                    spec_rbt_pairs(data@, pair_len as int, 2) == pairs_view(pairs@)
                        + spec_rbt_pairs(data@, pair_len as int, i as int),
                decreases data@.len() - i,
            {
                let handle = crate::att::read_u16_le(data[i], data[i + 1]);
                let mut value: Vec<u8> = Vec::new();
                crate::att::append_range(&mut value, data, i + 2, pair_len - 2);
                proof {
                    assert(value@ =~= data@.subrange(i + 2, i + pair_len));
                }
                let ghost pairs0 = pairs@;
                pairs.push((handle, value));
                proof {
                    assert(pairs_view(pairs@) =~= pairs_view(pairs0) + seq![
                        (handle, data@.subrange(i + 2, i + pair_len)),
                    ]);
                }
                i += pair_len;
            }
            proof {
                assert(spec_rbt_pairs(data@, pair_len as int, i as int) =~= Seq::<
                    (u16, Seq<u8>),
                >::empty());
                assert(pairs_view(pairs@) + spec_rbt_pairs(data@, pair_len as int, i as int)
                    =~= pairs_view(pairs@));
            }
            Ok(AttRsp::ReadByType { pairs })
        } else if op == ATT_FIND_BY_TYPE_VALUE_RSP {
            let mut groups: Vec<(u16, u16)> = Vec::new();
            let mut i: usize = 1;
            while data.len() - i >= 4
                invariant
                    1 <= i <= data@.len(),
                    spec_ftv_groups(data@, 1) == groups@ + spec_ftv_groups(data@, i as int),
                decreases data@.len() - i,
            {
                let first = crate::att::read_u16_le(data[i], data[i + 1]);
                let last = crate::att::read_u16_le(data[i + 2], data[i + 3]);
                let ghost groups0 = groups@;
                groups.push((first, last));
                proof {
                    assert(groups@ =~= groups0 + seq![(first, last)]);
                }
                i += 4;
            }
            proof {
                assert(spec_ftv_groups(data@, i as int) =~= Seq::<(u16, u16)>::empty());
                assert(groups@ + spec_ftv_groups(data@, i as int) =~= groups@);
            }
            Ok(AttRsp::FindByTypeValue { groups })
        } else if op == ATT_WRITE_RSP {
            Ok(AttRsp::Write)
        } else {
            Err(Error::InvalidValue)
        }
    }
}

/// Discovery of all primary services with one identifier, driven one
/// request/response round at a time.
pub struct ServiceDiscovery {
    /// The service identifier looked for.
    pub uuid: Uuid,
    /// Handle the next round starts from.
    pub start: u16,
    /// Whether discovery has finished.
    pub done: bool,
}

impl ServiceDiscovery {
    /// Begin discovery of primary services with the given identifier.
    pub fn new(uuid: Uuid) -> (r: ServiceDiscovery)
        ensures
            r.uuid == uuid,
            r.start == 1,
            !r.done,
    {
        ServiceDiscovery { uuid, start: 1, done: false }
    }

    /// The next request to send, or `None` when discovery has finished.
    pub fn request(&self) -> (r: Option<AttReq>)
        ensures
            self.done ==> r is None,
            !self.done ==> (r matches Some(req) && (req matches AttReq::FindByTypeValue {
                start_handle,
                end_handle,
                att_type,
                att_value,
            } && start_handle == self.start && end_handle == 0xFFFF && att_type
                == PRIMARY_SERVICE_UUID16 && att_value@ == self.uuid@)),
    {
        if self.done {
            return None;
        }
        let mut value: Vec<u8> = Vec::new();
        crate::att::append_range(&mut value, self.uuid.as_raw(), 0, self.uuid.len());
        proof {
            assert(value@ =~= self.uuid@);
        }
        Some(
            AttReq::FindByTypeValue {
                start_handle: self.start,
                end_handle: 0xFFFF,
                att_type: PRIMARY_SERVICE_UUID16,
                att_value: value,
            },
        )
    }

    /// Consume one response: extend `out` with the reported service ranges
    /// (refusing past its `max` capacity), and either finish or advance the
    /// start handle past the last reported group.
    pub fn on_response(&mut self, rsp: &AttRsp, out: &mut Vec<ServiceHandle>, max: usize) -> (r:
        Result<(), Error>)
        ensures
            rsp matches AttRsp::Error { code, .. } ==> (if code == AttErrorCode::AttributeNotFound {
                &&& r is Ok
                &&& final(self).done
                &&& final(self).start == old(self).start
                &&& final(self).uuid == old(self).uuid
                &&& final(out)@ == old(out)@
            } else {
                &&& r == Err::<(), Error>(Error::Att(*code))
                &&& *final(self) == *old(self)
                &&& final(out)@ == old(out)@
            }),
            (rsp matches AttRsp::Read { .. } || rsp matches AttRsp::ReadByType { .. } || rsp
                matches AttRsp::Write) ==> (r == Err::<(), Error>(Error::InvalidValue) && *final(self) == *old(self) && final(out)@ == old(out)@),
            rsp matches AttRsp::FindByTypeValue { groups } ==> ({
                let can: int = if max >= old(out)@.len() {
                    max - old(out)@.len()
                } else {
                    0
                };
                let pushed = vstd::math::min(groups@.len() as int, can);
                &&& final(out)@.len() == old(out)@.len() + pushed
                &&& (forall|k: int| 0 <= k < old(out)@.len() ==> final(out)@[k] == old(out)@[k])
                &&& (forall|k: int|
                    0 <= k < pushed ==> {
                        let g = groups@[k];
                        let s = #[trigger] final(out)@[old(out)@.len() + k];
                        s.start == g.0 && s.end == g.1 && s.uuid@ == old(self).uuid@
                    })
                &&& (if groups@.len() > can {
                    r == Err::<(), Error>(Error::InsufficientSpace) && *final(self) == *old(self)
                } else {
                    let e: u16 = if groups@.len() > 0 {
                        groups@.last().1
                    } else {
                        0
                    };
                    &&& r is Ok
                    &&& final(self).uuid == old(self).uuid
                    &&& (if e == 0xFFFF {
                        final(self).done && final(self).start == old(self).start
                    } else {
                        final(self).done == old(self).done && final(self).start == e + 1
                    })
                })
            }),
    {
        match rsp {
            AttRsp::Error { code, .. } => {
                if *code == AttErrorCode::AttributeNotFound {
                    self.done = true;
                    Ok(())
                } else {
                    Err(Error::Att(*code))
                }
            },
            AttRsp::FindByTypeValue { groups } => {
                let ghost can: int = if max >= old(out)@.len() {
                    max - old(out)@.len()
                } else {
                    0int
                };
                let mut end: u16 = 0;
                let mut k: usize = 0;
                let mut overflow = false;
                while k < groups.len() && !overflow
                    invariant
                        k <= groups@.len(),
                        *self == *old(self),
                        end == (if k > 0 {
                            groups@[k - 1].1
                        } else {
                            0u16
                        }),
                        can == (if max >= old(out)@.len() {
                            max - old(out)@.len()
                        } else {
                            0int
                        }),
                        out@.len() == old(out)@.len() + k,
                        !overflow ==> k <= can,
                        overflow ==> k == can && k < groups@.len(),
                        forall|j: int| 0 <= j < old(out)@.len() ==> out@[j] == old(out)@[j],
                        forall|j: int|
                            0 <= j < k ==> {
                                let g = groups@[j];
                                let s = #[trigger] out@[old(out)@.len() + j];
                                s.start == g.0 && s.end == g.1 && s.uuid@ == old(self).uuid@
                            },
                    decreases groups@.len() - k + (if overflow {
                        0int
                    } else {
                        1int
                    }),
                {
                    if out.len() >= max {
                        overflow = true;
                    } else {
                        let g = groups[k];
                        end = g.1;
                        out.push(ServiceHandle { start: g.0, end: g.1, uuid: self.uuid.dup() });
                        k += 1;
                    }
                }
                if overflow {
                    return Err(Error::InsufficientSpace);
                }
                if end == 0xFFFF {
                    self.done = true;
                } else {
                    self.start = end + 1;
                }
                Ok(())
            },
            _ => Err(Error::InvalidValue),
        }
    }
}

/// One decision of the characteristic scan over declaration pairs.
#[derive(Debug, Clone, Copy, PartialEq, Eq, Structural)]
pub enum CharScanStep {
    /// The declaration of the looked-for value was found.
    Found {
        /// Handle of the characteristic value.
        value_handle: u16,
        /// Whether the declared properties allow notify or indicate, so a
        /// CCCD lookup must follow.
        needs_cccd: bool,
    },
    /// Nothing in this batch; continue scanning from `next_start`.
    Continue {
        /// Handle the next round starts from.
        next_start: u16,
    },
    /// The scan failed.
    Failed {
        /// Why it failed.
        err: Error,
    },
}

/// The decision taken over the declaration pairs of one read-by-type
/// response, scanning from pair `k` with the running start handle `cur`.
pub open spec fn spec_char_scan(pairs: Seq<(u16, Seq<u8>)>, k: int, uuid: Seq<u8>, cur: u16) -> CharScanStep
    decreases pairs.len() - k,
{
    if k < 0 || k >= pairs.len() {
        CharScanStep::Continue { next_start: cur }
    } else {
        let item = pairs[k].1;
        if item.len() != 5 && item.len() != 19 {
            CharScanStep::Failed { err: Error::InvalidValue }
        } else {
            let vh = u16_of(item[1], item[2]);
            if item.subrange(3, item.len() as int) == uuid {
                CharScanStep::Found { value_handle: vh, needs_cccd: item[0] & 0x30 != 0 }
            } else if vh == 0xFFFF {
                CharScanStep::Failed { err: Error::NotFound }
            } else {
                spec_char_scan(pairs, k + 1, uuid, (vh + 1) as u16)
            }
        }
    }
}

/// Discovery of one characteristic inside a service by its value
/// identifier, driven one request/response round at a time.
pub struct CharacteristicDiscovery {
    /// The value identifier looked for.
    pub uuid: Uuid,
    /// Handle the next declaration scan starts from.
    pub start: u16,
    /// Last handle of the searched service.
    pub end: u16,
    /// When set, the declaration was found at this value handle and the
    /// next round reads its CCCD descriptor.
    pub pending_cccd: Option<u16>,
}

impl CharacteristicDiscovery {
    /// Begin discovery of a characteristic in a service.
    pub fn new(service: &ServiceHandle, uuid: Uuid) -> (r: CharacteristicDiscovery)
        ensures
            r.uuid == uuid,
            r.start == service.start,
            r.end == service.end,
            r.pending_cccd is None,
    {
        CharacteristicDiscovery {
            uuid,
            start: service.start,
            end: service.end,
            pending_cccd: None,
        }
    }

    /// The next request to send: a declaration scan, or — once the
    /// declaration was found — the CCCD lookup right behind the value.
    pub fn request(&self) -> (r: AttReq)
        ensures
            self.pending_cccd matches Some(vh) ==> (r matches AttReq::ReadByType {
                start,
                end,
                attribute_type,
            } && start == vh && end == (if vh == 0xFFFF {
                0xFFFFu16
            } else {
                (vh + 1) as u16
            }) && attribute_type@ == Uuid::spec_short(CHARACTERISTIC_CCCD_UUID16)),
            self.pending_cccd is None ==> (r matches AttReq::ReadByType {
                start,
                end,
                attribute_type,
            } && start == self.start && end == self.end && attribute_type@ == Uuid::spec_short(
                CHARACTERISTIC_UUID16,
            )),
    {
        match self.pending_cccd {
            Some(vh) => {
                let end = if vh == 0xFFFF {
                    0xFFFF
                } else {
                    vh + 1
                };
                AttReq::ReadByType {
                    start: vh,
                    end,
                    attribute_type: Uuid::new_short(CHARACTERISTIC_CCCD_UUID16),
                }
            },
            None => AttReq::ReadByType {
                start: self.start,
                end: self.end,
                attribute_type: Uuid::new_short(CHARACTERISTIC_UUID16),
            },
        }
    }

    /// Consume one response. `Ok(None)` means another round is needed
    /// (either further declaration scanning or the CCCD lookup);
    /// `Ok(Some(c))` is the discovered characteristic.
    pub fn on_response(&mut self, rsp: &AttRsp) -> (r: Result<Option<Characteristic>, Error>)
        ensures
            rsp matches AttRsp::Error { code, .. } ==> (r == Err::<Option<Characteristic>, Error>(
                Error::Att(*code),
            ) && *final(self) == *old(self)),
            (rsp matches AttRsp::Read { .. } || rsp matches AttRsp::FindByTypeValue { .. } || rsp
                matches AttRsp::Write) ==> (r == Err::<Option<Characteristic>, Error>(
                Error::InvalidValue,
            ) && *final(self) == *old(self)),
            rsp matches AttRsp::ReadByType { pairs } ==> (match old(self).pending_cccd {
                Some(vh) => {
                    &&& (pairs@.len() == 0 ==> r == Err::<Option<Characteristic>, Error>(
                        Error::NotFound,
                    ))
                    &&& (pairs@.len() > 0 && pairs@[0].1@.len() != 2 ==> r == Err::<
                        Option<Characteristic>,
                        Error,
                    >(Error::OutOfMemory))
                    &&& (pairs@.len() > 0 && pairs@[0].1@.len() == 2 ==> (r == Ok::<
                        Option<Characteristic>,
                        Error,
                    >(Some((Characteristic { handle: vh, cccd_handle: Some(pairs@[0].0) })))
                        && final(self).pending_cccd is None))
                },
                None => {
                    let step = spec_char_scan(
                        pairs_view(pairs@),
                        0,
                        old(self).uuid@,
                        old(self).start,
                    );
                    &&& (step matches CharScanStep::Found { value_handle, needs_cccd } ==> (
                    if needs_cccd {
                        r == Ok::<Option<Characteristic>, Error>(None) && final(self).pending_cccd
                            == Some(value_handle)
                    } else {
                        r == Ok::<Option<Characteristic>, Error>(
                            Some((Characteristic { handle: value_handle, cccd_handle: None })),
                        ) && final(self).pending_cccd is None
                    }))
                    &&& (step matches CharScanStep::Continue { next_start } ==> (r == Ok::<
                        Option<Characteristic>,
                        Error,
                    >(None) && final(self).start == next_start && final(self).pending_cccd
                        is None))
                    &&& (step matches CharScanStep::Failed { err } ==> r == Err::<
                        Option<Characteristic>,
                        Error,
                    >(err))
                },
            }),
    {
        match rsp {
            AttRsp::Error { code, .. } => Err(Error::Att(*code)),
            AttRsp::ReadByType { pairs } => {
                match self.pending_cccd {
                    Some(vh) => {
                        if pairs.len() == 0 {
                            return Err(Error::NotFound);
                        }
                        let p = &pairs[0];
                        if p.1.len() != 2 {
                            return Err(Error::OutOfMemory);
                        }
                        self.pending_cccd = None;
                        Ok(Some(Characteristic { handle: vh, cccd_handle: Some(p.0) }))
                    },
                    None => {
                        let mut cur: u16 = self.start;
                        let mut k: usize = 0;
                        let mut outcome: Option<CharScanStep> = None;
                        while k < pairs.len() && outcome.is_none()
                            invariant
                                k <= pairs@.len(),
                                *self == *old(self),
                                outcome is None ==> spec_char_scan(
                                    pairs_view(pairs@),
                                    0,
                                    old(self).uuid@,
                                    old(self).start,
                                ) == spec_char_scan(
                                    pairs_view(pairs@),
                                    k as int,
                                    old(self).uuid@,
                                    cur,
                                ),
                                outcome matches Some(step) ==> spec_char_scan(
                                    pairs_view(pairs@),
                                    0,
                                    old(self).uuid@,
                                    old(self).start,
                                ) == step,
                            decreases pairs@.len() - k + (if outcome is None {
                                1int
                            } else {
                                0int
                            }),
                        {
                            let p = &pairs[k];
                            proof {
                                assert(pairs_view(pairs@)[k as int].1 == p.1@);
                                assert(pairs_view(pairs@)[k as int].0 == p.0);
                            }
                            if p.1.len() != 5 && p.1.len() != 19 {
                                outcome = Some(CharScanStep::Failed { err: Error::InvalidValue });
                            } else {
                                match AttributeData::decode_declaration(&p.1) {
                                    Ok(AttributeData::Declaration { props, handle, uuid }) => {
                                        if uuid == self.uuid {
                                            outcome = Some(
                                                CharScanStep::Found {
                                                    value_handle: handle,
                                                    needs_cccd: props.0 & 0x30 != 0,
                                                },
                                            );
                                        } else if handle == 0xFFFF {
                                            outcome = Some(
                                                CharScanStep::Failed { err: Error::NotFound },
                                            );
                                        } else {
                                            cur = handle + 1;
                                            k += 1;
                                        }
                                    },
                                    _ => {
                                        outcome = Some(
                                            CharScanStep::Failed { err: Error::InvalidValue },
                                        );
                                    },
                                }
                            }
                        }
                        let step = match outcome {
                            Some(s) => s,
                            None => CharScanStep::Continue { next_start: cur },
                        };
                        match step {
                            CharScanStep::Found { value_handle, needs_cccd } => {
                                if needs_cccd {
                                    self.pending_cccd = Some(value_handle);
                                    Ok(None)
                                } else {
                                    Ok(
                                        Some(
                                            Characteristic {
                                                handle: value_handle,
                                                cccd_handle: None,
                                            },
                                        ),
                                    )
                                }
                            },
                            CharScanStep::Continue { next_start } => {
                                self.start = next_start;
                                Ok(None)
                            },
                            CharScanStep::Failed { err } => Err(err),
                        }
                    },
                }
            },
            _ => Err(Error::InvalidValue),
        }
    }
}

/// The request that reads a characteristic value by handle.
pub fn read_characteristic_req(characteristic: &Characteristic) -> (r: AttReq)
    ensures
        r matches AttReq::Read { handle } && handle == characteristic.handle,
{
    AttReq::Read { handle: characteristic.handle }
}

/// Interpret the response to a characteristic read: the value bytes,
/// truncated to `cap`.
pub fn read_characteristic_rsp(rsp: &AttRsp, cap: usize) -> (r: Result<Vec<u8>, Error>)
    ensures
        rsp matches AttRsp::Read { data } ==> (r matches Ok(v) && v@ == data@.take(
            vstd::math::min(data@.len() as int, cap as int),
        )),
        rsp matches AttRsp::Error { code, .. } ==> r == Err::<Vec<u8>, Error>(Error::Att(*code)),
        (rsp matches AttRsp::ReadByType { .. } || rsp matches AttRsp::FindByTypeValue { .. } || rsp
            matches AttRsp::Write) ==> r == Err::<Vec<u8>, Error>(Error::InvalidValue),
{
    match rsp {
        AttRsp::Read { data } => {
            let n = if data.len() < cap {
                data.len()
            } else {
                cap
            };
            let mut out: Vec<u8> = Vec::new();
            crate::att::append_range(&mut out, data, 0, n);
            proof {
                assert(out@ =~= data@.take(vstd::math::min(data@.len() as int, cap as int)));
            }
            Ok(out)
        },
        AttRsp::Error { code, .. } => Err(Error::Att(*code)),
        _ => Err(Error::InvalidValue),
    }
}

/// The request that reads the first value of a type inside a service.
pub fn read_characteristic_by_uuid_req(service: &ServiceHandle, uuid: &Uuid) -> (r: AttReq)
    ensures
        r matches AttReq::ReadByType { start, end, attribute_type } && start == service.start
            && end == service.end && attribute_type@ == uuid@,
{
    AttReq::ReadByType { start: service.start, end: service.end, attribute_type: uuid.dup() }
}

/// Interpret the response to a read-by-type value read: the first reported
/// value truncated to `cap`, or nothing when no pair came back.
pub fn read_characteristic_by_uuid_rsp(rsp: &AttRsp, cap: usize) -> (r: Result<Vec<u8>, Error>)
    ensures
        rsp matches AttRsp::ReadByType { pairs } ==> (r matches Ok(v) && v@ == (if pairs@.len()
            > 0 {
            pairs@[0].1@.take(vstd::math::min(pairs@[0].1@.len() as int, cap as int))
        } else {
            Seq::<u8>::empty()
        })),
        rsp matches AttRsp::Error { code, .. } ==> r == Err::<Vec<u8>, Error>(Error::Att(*code)),
        (rsp matches AttRsp::Read { .. } || rsp matches AttRsp::FindByTypeValue { .. } || rsp
            matches AttRsp::Write) ==> r == Err::<Vec<u8>, Error>(Error::InvalidValue),
{
    match rsp {
        AttRsp::ReadByType { pairs } => {
            let mut out: Vec<u8> = Vec::new();
            if pairs.len() > 0 {
                let p = &pairs[0];
                let n = if p.1.len() < cap {
                    p.1.len()
                } else {
                    cap
                };
                crate::att::append_range(&mut out, &p.1, 0, n);
                proof {
                    assert(out@ =~= p.1@.take(vstd::math::min(p.1@.len() as int, cap as int)));
                }
            }
            Ok(out)
        },
        AttRsp::Error { code, .. } => Err(Error::Att(*code)),
        _ => Err(Error::InvalidValue),
    }
}

/// The request that writes a characteristic value by handle.
pub fn write_characteristic_req(characteristic: &Characteristic, buf: &Vec<u8>) -> (r: AttReq)
    ensures
        r matches AttReq::Write { handle, data } && handle == characteristic.handle && data@
            == buf@,
{
    let mut data: Vec<u8> = Vec::new();
    crate::att::append_range(&mut data, buf, 0, buf.len());
    proof {
        assert(data@ =~= buf@);
    }
    AttReq::Write { handle: characteristic.handle, data }
}

/// Interpret the response to a characteristic write.
pub fn write_characteristic_rsp(rsp: &AttRsp) -> (r: Result<(), Error>)
    ensures
        rsp matches AttRsp::Write ==> r is Ok,
        rsp matches AttRsp::Error { code, .. } ==> r == Err::<(), Error>(Error::Att(*code)),
        (rsp matches AttRsp::Read { .. } || rsp matches AttRsp::ReadByType { .. } || rsp matches
            AttRsp::FindByTypeValue { .. }) ==> r == Err::<(), Error>(Error::InvalidValue),
{
    match rsp {
        AttRsp::Write => Ok(()),
        AttRsp::Error { code, .. } => Err(Error::Att(*code)),
        _ => Err(Error::InvalidValue),
    }
}

/// The request that subscribes to notifications (or indications) of a
/// characteristic by writing its CCCD.
pub fn subscribe_req(characteristic: &Characteristic, indication: bool) -> (r: Result<
    AttReq,
    Error,
>)
    ensures
        characteristic.cccd_handle is None ==> r == Err::<AttReq, Error>(Error::NotSupported),
        characteristic.cccd_handle matches Some(ch) ==> (r matches Ok(req) && (req matches
            AttReq::Write { handle, data } && handle == ch && data@ == seq![
            (if indication {
                2u8
            } else {
                1u8
            }),
            0u8,
        ])),
{
    match characteristic.cccd_handle {
        Some(ch) => {
            let mut data: Vec<u8> = Vec::new();
            data.push(if indication {
                2u8
            } else {
                1u8
            });
            data.push(0u8);
            proof {
                assert(data@ =~= seq![
                    (if indication {
                        2u8
                    } else {
                        1u8
                    }),
                    0u8,
                ]);
            }
            Ok(AttReq::Write { handle: ch, data })
        },
        None => Err(Error::NotSupported),
    }
}

/// The request that unsubscribes from a characteristic by clearing its
/// CCCD.
pub fn unsubscribe_req(characteristic: &Characteristic) -> (r: Result<AttReq, Error>)
    ensures
        characteristic.cccd_handle is None ==> r == Err::<AttReq, Error>(Error::NotSupported),
        characteristic.cccd_handle matches Some(ch) ==> (r matches Ok(req) && (req matches
            AttReq::Write { handle, data } && handle == ch && data@ == seq![0u8, 0u8])),
{
    match characteristic.cccd_handle {
        Some(ch) => {
            let mut data: Vec<u8> = Vec::new();
            data.push(0u8);
            data.push(0u8);
            proof {
                assert(data@ =~= seq![0u8, 0u8]);
            }
            Ok(AttReq::Write { handle: ch, data })
        },
        None => Err(Error::NotSupported),
    }
}

/// A received notification: the value handle and the pushed bytes.
pub struct Notification {
    /// Handle of the notified characteristic value.
    pub handle: u16,
    /// The pushed value bytes.
    pub data: Vec<u8>,
}

impl Notification {
    /// The pushed value bytes.
    pub fn as_bytes(&self) -> (r: &Vec<u8>)
        ensures
            r@ == self.data@,
    {
        &self.data
    }
}

/// Whether an inbound ATT PDU is a handle-value notification (and so is
/// routed to the notification listeners rather than the response channel).
pub fn is_notification(pdu: &Vec<u8>) -> (r: bool)
    ensures
        r == (pdu@.len() >= 1 && pdu@[0] == ATT_HANDLE_VALUE_NTF),
{
    pdu.len() >= 1 && pdu[0] == ATT_HANDLE_VALUE_NTF
}

/// Split a handle-value notification PDU into the value handle and its
/// bytes, keeping at most `mtu` of them.
pub fn parse_notification(pdu: &Vec<u8>, mtu: usize) -> (r: Result<Notification, Error>)
    ensures
        pdu@.len() >= 3 && pdu@[0] == ATT_HANDLE_VALUE_NTF ==> (r matches Ok(n) && n.handle
            == u16_of(pdu@[1], pdu@[2]) && n.data@ == pdu@.subrange(3, pdu@.len() as int).take(
            vstd::math::min(pdu@.len() - 3, mtu as int),
        )),
        !(pdu@.len() >= 3 && pdu@[0] == ATT_HANDLE_VALUE_NTF) ==> r == Err::<Notification, Error>(
            Error::InvalidValue,
        ),
{
    if pdu.len() < 3 || pdu[0] != ATT_HANDLE_VALUE_NTF {
        return Err(Error::InvalidValue);
    }
    let handle = crate::att::read_u16_le(pdu[1], pdu[2]);
    let avail = pdu.len() - 3;
    let n = if avail < mtu {
        avail
    } else {
        mtu
    };
    let mut data: Vec<u8> = Vec::new();
    crate::att::append_range(&mut data, pdu, 3, n);
    proof {
        assert(data@ =~= pdu@.subrange(3, pdu@.len() as int).take(vstd::math::min(
            pdu@.len() - 3,
            mtu as int,
        )));
    }
    Ok(Notification { handle, data })
}

/// Whether a received notification belongs to the subscribed value handle
/// (a listener delivers only those).
pub fn notification_matches(n: &Notification, handle: u16) -> (r: bool)
    ensures
        r == (n.handle == handle),
{
    n.handle == handle
}

} // verus!
