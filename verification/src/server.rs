//! The ATT request dispatcher, the subscription registry and the notifier.

use crate::att::{
    le16, u16_of, AttErrorCode, AttReq, ATT_ERROR_RSP, ATT_EXECUTE_WRITE_RSP,
    ATT_FIND_BY_TYPE_VALUE_REQ, ATT_FIND_BY_TYPE_VALUE_RSP, ATT_FIND_INFORMATION_REQ,
    ATT_FIND_INFORMATION_RSP, ATT_HANDLE_VALUE_NTF, ATT_PREPARE_WRITE_RSP, ATT_READ_BLOB_REQ,
    ATT_READ_BLOB_RSP, ATT_READ_BY_GROUP_TYPE_REQ, ATT_READ_BY_GROUP_TYPE_RSP,
    ATT_READ_BY_TYPE_REQ, ATT_READ_BY_TYPE_RSP, ATT_READ_MULTIPLE_REQ, ATT_READ_REQ, ATT_READ_RSP,
    ATT_WRITE_REQ, ATT_WRITE_RSP,
};
use crate::attribute::{
    res_bytes_match, spec_data_after_write, spec_value_read, spec_write_result, Attribute,
    AttributeData, AttributeTable, Characteristic,
};
use crate::handler::AttrHandler;
use crate::uuid::Uuid;
use crate::{ConnHandle, Error};
use vstd::prelude::*;

verus! {

/// Outcome of one turn of a server processing loop.
#[derive(Debug, Clone, Copy, PartialEq, Eq, Structural)]
pub enum WorkResult {
    /// A request was processed.
    DidWork,
    /// The link went away.
    GotDisconnected,
}

/// Number of subscription slots the registry holds.
pub const MAX_NOTIFICATIONS: usize = 4;

/// Whether a registry holds an enabled entry for `(cccd_handle, conn)`.
pub open spec fn spec_should_notify(s: Seq<(u16, ConnHandle)>, conn: ConnHandle, cccd_handle: u16) -> bool {
    exists|i: int| 0 <= i < s.len() && (#[trigger] s[i]).0 == cccd_handle && s[i].1 == conn
}

/// Index of the first free slot (a slot whose handle is 0) at or past `i`.
pub open spec fn spec_first_free_from(s: Seq<(u16, ConnHandle)>, i: int) -> Option<int>
    decreases s.len() - i,
{
    if i < 0 || i >= s.len() {
        None
    } else if s[i].0 == 0 {
        Some(i)
    } else {
        spec_first_free_from(s, i + 1)
    }
}

/// Index of the first slot holding `(cccd_handle, conn)` at or past `i`.
pub open spec fn spec_first_entry_from(
    s: Seq<(u16, ConnHandle)>,
    i: int,
    conn: ConnHandle,
    cccd_handle: u16,
) -> Option<int>
    decreases s.len() - i,
{
    if i < 0 || i >= s.len() {
        None
    } else if s[i].0 == cccd_handle && s[i].1 == conn {
        Some(i)
    } else {
        spec_first_entry_from(s, i + 1, conn, cccd_handle)
    }
}

/// The registry after enabling or disabling `(cccd_handle, conn)`: enabling
/// takes the first free slot (and is dropped silently when the table is
/// full); disabling clears the first matching slot.
pub open spec fn spec_set_notify(
    s: Seq<(u16, ConnHandle)>,
    conn: ConnHandle,
    cccd_handle: u16,
    enable: bool,
) -> Seq<(u16, ConnHandle)> {
    if enable {
        match spec_first_free_from(s, 0) {
            Some(i) => s.update(i, (cccd_handle, conn)),
            None => s,
        }
    } else {
        match spec_first_entry_from(s, 0, conn, cccd_handle) {
            Some(i) => s.update(i, (0u16, ConnHandle { raw: 0 })),
            None => s,
        }
    }
}

proof fn lemma_first_free_props(s: Seq<(u16, ConnHandle)>, i: int)
    requires
        0 <= i <= s.len(),
    ensures
        spec_first_free_from(s, i) matches Some(j) ==> i <= j < s.len() && s[j].0 == 0,
    decreases s.len() - i,
{
    if i < s.len() && s[i].0 != 0 {
        lemma_first_free_props(s, i + 1);
    }
}

proof fn lemma_first_entry_props(s: Seq<(u16, ConnHandle)>, i: int, conn: ConnHandle, h: u16)
    requires
        0 <= i <= s.len(),
    ensures
        spec_first_entry_from(s, i, conn, h) matches Some(j) ==> i <= j < s.len() && s[j].0 == h
            && s[j].1 == conn,
        spec_first_entry_from(s, i, conn, h) is None ==> forall|k: int|
            i <= k < s.len() ==> !((#[trigger] s[k]).0 == h && s[k].1 == conn),
    decreases s.len() - i,
{
    if i < s.len() && !(s[i].0 == h && s[i].1 == conn) {
        lemma_first_entry_props(s, i + 1, conn, h);
    }
}

/// Enabling a subscription in a registry that still has a free slot makes
/// `should_notify` answer true for that connection and CCCD handle.
pub proof fn lemma_enable_then_notifies(s: Seq<(u16, ConnHandle)>, conn: ConnHandle, h: u16)
    requires
        spec_first_free_from(s, 0) is Some,
    ensures
        spec_should_notify(spec_set_notify(s, conn, h, true), conn, h),
{
    lemma_first_free_props(s, 0);
    let i = spec_first_free_from(s, 0)->Some_0;
    let s2 = spec_set_notify(s, conn, h, true);
    assert(s2[i].0 == h && s2[i].1 == conn);
}

/// Disabling a subscription that is held in at most one slot makes
/// `should_notify` answer false for that connection and CCCD handle.
pub proof fn lemma_disable_then_silent(s: Seq<(u16, ConnHandle)>, conn: ConnHandle, h: u16)
    requires
        h != 0,
        forall|i: int, j: int|
            0 <= i < j < s.len() ==> !((#[trigger] s[i]).0 == h && s[i].1 == conn && (#[trigger] s[j]).0 == h
                && s[j].1 == conn),
    ensures
        !spec_should_notify(spec_set_notify(s, conn, h, false), conn, h),
{
    lemma_first_entry_props(s, 0, conn, h);
    let s2 = spec_set_notify(s, conn, h, false);
    match spec_first_entry_from(s, 0, conn, h) {
        Some(j) => {
            assert forall|k: int| 0 <= k < s2.len() implies !((#[trigger] s2[k]).0 == h && s2[k].1
                == conn) by {
                if k != j && s2[k].0 == h && s2[k].1 == conn {
                    if k < j {
                        assert(!(s[k].0 == h && s[k].1 == conn && s[j].0 == h && s[j].1 == conn));
                    } else {
                        assert(!(s[j].0 == h && s[j].1 == conn && s[k].0 == h && s[k].1 == conn));
                    }
                }
            }
        },
        None => {
            assert(s2 == s);
        },
    }
}

/// Disabling one connection's subscription leaves another connection's
/// subscription to the same CCCD in force.
pub proof fn lemma_disable_keeps_others(
    s: Seq<(u16, ConnHandle)>,
    c1: ConnHandle,
    c2: ConnHandle,
    h: u16,
)
    requires
        c1 != c2,
        spec_should_notify(s, c2, h),
    ensures
        spec_should_notify(spec_set_notify(s, c1, h, false), c2, h),
{
    lemma_first_entry_props(s, 0, c1, h);
    let k = choose|k: int| 0 <= k < s.len() && (#[trigger] s[k]).0 == h && s[k].1 == c2;
    let s2 = spec_set_notify(s, c1, h, false);
    match spec_first_entry_from(s, 0, c1, h) {
        Some(j) => {
            assert(j != k);
            assert(s2[k].0 == h && s2[k].1 == c2);
        },
        None => {
            assert(s2[k].0 == h && s2[k].1 == c2);
        },
    }
}

/// Bounded table of enabled `(cccd_handle, connection)` subscriptions; a
/// slot whose handle is 0 is free.
pub struct NotificationTable<const ENTRIES: usize> {
    state: Vec<(u16, ConnHandle)>,
}

impl<const ENTRIES: usize> NotificationTable<ENTRIES> {
    /// The slots of the registry.
    pub closed spec fn entries(&self) -> Seq<(u16, ConnHandle)> {
        self.state@
    }

    /// The registry always holds exactly `ENTRIES` slots.
    pub open spec fn wf(&self) -> bool {
        self.entries().len() == ENTRIES
    }

    /// An empty registry: every slot free.
    pub fn new() -> (r: Self)
        ensures
            r.wf(),
            forall|i: int| 0 <= i < ENTRIES ==> (#[trigger] r.entries()[i]) == (0u16, ConnHandle { raw: 0 }),
    {
        let mut state: Vec<(u16, ConnHandle)> = Vec::new();
        let mut i: usize = 0;
        while i < ENTRIES
            invariant
                i <= ENTRIES,
                state@.len() == i,
                forall|j: int| 0 <= j < i ==> (#[trigger] state@[j]) == (0u16, ConnHandle { raw: 0 }),
            decreases ENTRIES - i,
        {
            state.push((0u16, ConnHandle { raw: 0 }));
            i += 1;
        }
        NotificationTable { state }
    }

    /// Whether notifications to `conn` gated by `cccd_handle` are enabled.
    pub fn should_notify(&self, conn: ConnHandle, cccd_handle: u16) -> (r: bool)
        ensures
            r == spec_should_notify(self.entries(), conn, cccd_handle),
    {
        let mut i: usize = 0;
        while i < self.state.len()
            invariant
                i <= self.entries().len(),
                forall|j: int|
                    0 <= j < i ==> !((#[trigger] self.entries()[j]).0 == cccd_handle
                        && self.entries()[j].1 == conn),
            decreases self.entries().len() - i,
        {
            let entry = self.state[i];
            if entry.0 == cccd_handle && entry.1 == conn {
                return true;
            }
            i += 1;
        }
        false
    }

    /// Enable or disable the `(cccd_handle, conn)` subscription; enabling
    /// into a full registry is silently dropped.
    pub fn set_notify(&mut self, conn: ConnHandle, cccd_handle: u16, enable: bool)
        ensures
            final(self).entries() == spec_set_notify(
                old(self).entries(),
                conn,
                cccd_handle,
                enable,
            ),
    {
        if enable {
            let mut i: usize = 0;
            let mut slot: Option<usize> = None;
            while i < self.state.len() && slot.is_none()
                invariant
                    i <= self.entries().len(),
                    self.entries() == old(self).entries(),
                    slot matches Some(j) ==> spec_first_free_from(self.entries(), 0) == Some(
                        j as int,
                    ) && j < self.entries().len(),
                    slot is None ==> spec_first_free_from(self.entries(), 0)
                        == spec_first_free_from(self.entries(), i as int),
                decreases self.entries().len() - i + (if slot is None { 1int } else { 0int }),
            {
                if self.state[i].0 == 0 {
                    slot = Some(i);
                } else {
                    i += 1;
                }
            }
            match slot {
                Some(j) => {
                    self.state[j] = (cccd_handle, conn);
                    proof {
                        assert(self.entries() =~= old(self).entries().update(
                            j as int,
                            (cccd_handle, conn),
                        ));
                    }
                },
                None => {},
            }
        } else {
            let mut i: usize = 0;
            let mut slot: Option<usize> = None;
            while i < self.state.len() && slot.is_none()
                invariant
                    i <= self.entries().len(),
                    self.entries() == old(self).entries(),
                    slot matches Some(j) ==> spec_first_entry_from(
                        self.entries(),
                        0,
                        conn,
                        cccd_handle,
                    ) == Some(j as int) && j < self.entries().len(),
                    slot is None ==> spec_first_entry_from(self.entries(), 0, conn, cccd_handle)
                        == spec_first_entry_from(self.entries(), i as int, conn, cccd_handle),
                decreases self.entries().len() - i + (if slot is None { 1int } else { 0int }),
            {
                if self.state[i].0 == cccd_handle && self.state[i].1 == conn {
                    slot = Some(i);
                } else {
                    i += 1;
                }
            }
            match slot {
                Some(j) => {
                    self.state[j] = (0u16, ConnHandle { raw: 0 });
                    proof {
                        assert(self.entries() =~= old(self).entries().update(
                            j as int,
                            (0u16, ConnHandle { raw: 0 }),
                        ));
                    }
                },
                None => {},
            }
        }
    }
}

/// The five bytes of an `ERROR_RSP`: `0x01 ‖ request opcode ‖ handle (LE) ‖
/// error code`.
pub open spec fn spec_error_rsp(opcode: u8, handle: u16, code: AttErrorCode) -> Seq<u8> {
    seq![ATT_ERROR_RSP, opcode] + le16(handle) + seq![code.spec_code()]
}

/// An `ERROR_RSP` is exactly 5 bytes long and begins with 0x01, whatever the
/// request opcode, handle and code.
pub proof fn lemma_error_rsp_shape(opcode: u8, handle: u16, code: AttErrorCode)
    ensures
        spec_error_rsp(opcode, handle, code).len() == 5,
        spec_error_rsp(opcode, handle, code)[0] == 0x01,
{
}

/// The error response, or the refusal when the buffer cannot even hold it.
pub open spec fn spec_err_or(cap: int, opcode: u8, handle: u16, code: AttErrorCode) -> Result<
    Seq<u8>,
    (),
> {
    if cap >= 5 {
        Ok(spec_error_rsp(opcode, handle, code))
    } else {
        Err(())
    }
}

/// Build an `ERROR_RSP` into a fresh buffer of capacity `cap`.
fn error_response(opcode: u8, handle: u16, code: AttErrorCode, cap: usize) -> (r: Result<
    Vec<u8>,
    Error,
>)
    ensures
        res_rsp_match(r, spec_err_or(cap as int, opcode, handle, code)),
        r matches Ok(v) ==> v@.len() == 5,
{
    if cap < 5 {
        return Err(Error::InsufficientSpace);
    }
    let mut out: Vec<u8> = Vec::new();
    out.push(ATT_ERROR_RSP);
    out.push(opcode);
    crate::att::push_u16_le(&mut out, handle);
    out.push(code.code());
    proof {
        assert(out@ =~= spec_error_rsp(opcode, handle, code));
    }
    Ok(out)
}

/// Whether an executable response agrees with a specified one; a refused
/// response is always the insufficient-space error.
pub open spec fn res_rsp_match(r: Result<Vec<u8>, Error>, s: Result<Seq<u8>, ()>) -> bool {
    match (r, s) {
        (Ok(v), Ok(sq)) => v@ == sq,
        (Err(e), Err(_)) => e == Error::InsufficientSpace,
        _ => false,
    }
}

/// Index of the first attribute with the given handle, at or past `i`.
pub open spec fn spec_find_handle_from(attrs: Seq<Attribute>, i: int, handle: u16) -> Option<int>
    decreases attrs.len() - i,
{
    if i < 0 || i >= attrs.len() {
        None
    } else if attrs[i].handle == handle {
        Some(i)
    } else {
        spec_find_handle_from(attrs, i + 1, handle)
    }
}

/// Index of the first attribute of type `ty` whose handle lies in
/// `[start, end]`, at or past `i`.
pub open spec fn spec_find_type_from(
    attrs: Seq<Attribute>,
    i: int,
    start: u16,
    end: u16,
    ty: Seq<u8>,
) -> Option<int>
    decreases attrs.len() - i,
{
    if i < 0 || i >= attrs.len() {
        None
    } else if attrs[i].uuid@ == ty && start <= attrs[i].handle && attrs[i].handle <= end {
        Some(i)
    } else {
        spec_find_type_from(attrs, i + 1, start, end, ty)
    }
}

fn find_by_handle<const MAX: usize>(table: &AttributeTable<MAX>, handle: u16) -> (r: Option<usize>)
    ensures
        match r {
            Some(j) => spec_find_handle_from(table.attrs(), 0, handle) == Some(j as int) && j
                < table.attrs().len(),
            None => spec_find_handle_from(table.attrs(), 0, handle) is None,
        },
{
    let n = table.attributes.len();
    let mut i: usize = 0;
    while i < n
        invariant
            i <= n,
            n == table.attrs().len(),
            spec_find_handle_from(table.attrs(), 0, handle) == spec_find_handle_from(
                table.attrs(),
                i as int,
                handle,
            ),
        decreases n - i,
    {
        if table.attributes[i].handle == handle {
            return Some(i);
        }
        i += 1;
    }
    None
}

fn find_by_type<const MAX: usize>(
    table: &AttributeTable<MAX>,
    start: u16,
    end: u16,
    ty: &Uuid,
) -> (r: Option<usize>)
    ensures
        match r {
            Some(j) => spec_find_type_from(table.attrs(), 0, start, end, ty@) == Some(j as int)
                && j < table.attrs().len(),
            None => spec_find_type_from(table.attrs(), 0, start, end, ty@) is None,
        },
{
    let n = table.attributes.len();
    let mut i: usize = 0;
    while i < n
        invariant
            i <= n,
            n == table.attrs().len(),
            spec_find_type_from(table.attrs(), 0, start, end, ty@) == spec_find_type_from(
                table.attrs(),
                i as int,
                start,
                end,
                ty@,
            ),
        decreases n - i,
    {
        let a = &table.attributes[i];
        if a.uuid == *ty && a.handle >= start && a.handle <= end {
            return Some(i);
        }
        i += 1;
    }
    None
}

/// The response to a `Read` or `ReadBlob` request: the value of the
/// attribute with the requested handle behind the response opcode, or an
/// error response naming the requested handle.
pub open spec fn spec_read_like_rsp(
    attrs: Seq<Attribute>,
    req_op: u8,
    rsp_op: u8,
    handle: u16,
    offset: int,
    cap: int,
) -> Result<Seq<u8>, ()> {
    if cap < 1 {
        Err(())
    } else {
        match spec_find_handle_from(attrs, 0, handle) {
            None => spec_err_or(cap, req_op, handle, AttErrorCode::AttributeNotFound),
            Some(i) => match spec_value_read(attrs[i].data, offset, cap - 1) {
                Ok(v) => Ok(seq![rsp_op] + v),
                Err(c) => spec_err_or(cap, req_op, handle, c),
            },
        }
    }
}

/// Whether serving a read of `handle` delegates to the user handler.
pub open spec fn spec_read_delegates(attrs: Seq<Attribute>, handle: u16) -> bool {
    match spec_find_handle_from(attrs, 0, handle) {
        Some(i) => attrs[i].data.spec_handler_backed() && attrs[i].data.spec_readable(),
        None => false,
    }
}

fn handle_read_like<const MAX: usize, T: AttrHandler>(
    table: &AttributeTable<MAX>,
    req_op: u8,
    rsp_op: u8,
    handle: u16,
    offset: usize,
    cap: usize,
    handler: &mut T,
) -> (r: Result<Vec<u8>, Error>)
    ensures
        !spec_read_delegates(table.attrs(), handle) ==> res_rsp_match(
            r,
            spec_read_like_rsp(table.attrs(), req_op, rsp_op, handle, offset as int, cap as int),
        ),
        r matches Ok(v) ==> v@.len() <= cap && v@.len() >= 1 && (v@[0] == rsp_op || v@[0]
            == ATT_ERROR_RSP),
{
    if cap < 1 {
        return Err(Error::InsufficientSpace);
    }
    match find_by_handle(table, handle) {
        None => error_response(req_op, handle, AttErrorCode::AttributeNotFound, cap),
        Some(i) => {
            let att = &table.attributes[i];
            match att.data.att_read(&att.uuid, att.handle, offset, cap - 1, handler) {
                Ok(v) => {
                    let mut out: Vec<u8> = Vec::new();
                    out.push(rsp_op);
                    crate::att::append_range(&mut out, &v, 0, v.len());
                    proof {
                        assert(out@ =~= seq![rsp_op] + v@);
                    }
                    Ok(out)
                },
                Err(c) => error_response(req_op, handle, c, cap),
            }
        },
    }
}

/// The attribute sequence after writing `data` at `offset` to the attribute
/// with the given handle: only a CCCD's stored flags can change.
pub open spec fn spec_attrs_after_write(
    attrs: Seq<Attribute>,
    handle: u16,
    offset: int,
    data: Seq<u8>,
) -> Seq<Attribute> {
    match spec_find_handle_from(attrs, 0, handle) {
        Some(i) => attrs.update(
            i,
            (Attribute { data: spec_data_after_write(attrs[i].data, offset, data), ..attrs[i] }),
        ),
        None => attrs,
    }
}

/// Whether serving a write to `handle` delegates to the user handler.
pub open spec fn spec_write_delegates(attrs: Seq<Attribute>, handle: u16) -> bool {
    match spec_find_handle_from(attrs, 0, handle) {
        Some(i) => attrs[i].data.spec_handler_backed() && attrs[i].data.spec_writable(),
        None => false,
    }
}

/// The response to a `Write` request: the single-byte write response on
/// success, else an error response naming the requested handle.
pub open spec fn spec_write_rsp(attrs: Seq<Attribute>, handle: u16, data: Seq<u8>, cap: int) -> Result<
    Seq<u8>,
    (),
> {
    match spec_find_handle_from(attrs, 0, handle) {
        None => spec_err_or(cap, ATT_WRITE_REQ, handle, AttErrorCode::AttributeNotFound),
        Some(i) => match spec_write_result(attrs[i].data, 0, data) {
            Ok(_) => if cap >= 1 {
                Ok(seq![ATT_WRITE_RSP])
            } else {
                Err(())
            },
            Err(c) => spec_err_or(cap, ATT_WRITE_REQ, handle, c),
        },
    }
}

/// The registry after a `Write` request: a successful write to a CCCD
/// enables or disables the subscription per the new notifications flag.
pub open spec fn spec_reg_after_write(
    attrs: Seq<Attribute>,
    reg: Seq<(u16, ConnHandle)>,
    conn: ConnHandle,
    handle: u16,
    data: Seq<u8>,
) -> Seq<(u16, ConnHandle)> {
    match spec_find_handle_from(attrs, 0, handle) {
        Some(i) => if attrs[i].data is Cccd && crate::attribute::spec_cccd_write(0, data) is Ok {
            spec_set_notify(reg, conn, handle, data[0] & 0x01 != 0)
        } else {
            reg
        },
        None => reg,
    }
}

fn handle_write_req<const MAX: usize, T: AttrHandler>(
    table: &mut AttributeTable<MAX>,
    reg: &mut NotificationTable<MAX_NOTIFICATIONS>,
    conn: ConnHandle,
    handle: u16,
    data: &Vec<u8>,
    cap: usize,
    handler: &mut T,
) -> (r: Result<Vec<u8>, Error>)
    ensures
        final(table).attrs() == spec_attrs_after_write(old(table).attrs(), handle, 0, data@),
        final(table).next_handle() == old(table).next_handle(),
        final(reg).entries() == spec_reg_after_write(
            old(table).attrs(),
            old(reg).entries(),
            conn,
            handle,
            data@,
        ),
        !spec_write_delegates(old(table).attrs(), handle) ==> res_rsp_match(
            r,
            spec_write_rsp(old(table).attrs(), handle, data@, cap as int),
        ),
        r matches Ok(v) ==> v@.len() <= cap && v@.len() >= 1 && (v@[0] == ATT_WRITE_RSP || v@[0]
            == ATT_ERROR_RSP),
{
    let fi = find_by_handle(table, handle);
    match fi {
        None => {
            let r = error_response(ATT_WRITE_REQ, handle, AttErrorCode::AttributeNotFound, cap);
            r
        },
        Some(i) => {
            let ghost attrs0 = table.attrs();
            let a = &mut table.attributes[i];
            let ghost a0 = *a;
            let wr = a.data.att_write(&a.uuid, handle, 0, data, handler);
            let mut enable_update: Option<bool> = None;
            if wr.is_ok() {
                match &a.data {
                    AttributeData::Cccd { notifications, .. } => {
                        enable_update = Some(*notifications);
                    },
                    _ => {},
                }
            }
            proof {
                assert(table.attrs() =~= attrs0.update(
                    i as int,
                    (Attribute { data: spec_data_after_write(a0.data, 0, data@), ..a0 }),
                ));
            }
            match enable_update {
                Some(en) => reg.set_notify(conn, handle, en),
                None => {},
            }
            match wr {
                Ok(_) => {
                    if cap < 1 {
                        return Err(Error::InsufficientSpace);
                    }
                    let mut out: Vec<u8> = Vec::new();
                    out.push(ATT_WRITE_RSP);
                    proof {
                        assert(out@ =~= seq![ATT_WRITE_RSP]);
                    }
                    Ok(out)
                },
                Err(c) => error_response(ATT_WRITE_REQ, handle, c, cap),
            }
        },
    }
}

fn handle_write_cmd<const MAX: usize, T: AttrHandler>(
    table: &mut AttributeTable<MAX>,
    handle: u16,
    data: &Vec<u8>,
    handler: &mut T,
)
    ensures
        final(table).attrs() == spec_attrs_after_write(old(table).attrs(), handle, 0, data@),
        final(table).next_handle() == old(table).next_handle(),
{
    let fi = find_by_handle(table, handle);
    match fi {
        None => {},
        Some(i) => {
            let ghost attrs0 = table.attrs();
            let a = &mut table.attributes[i];
            let ghost a0 = *a;
            if a.data.writable() {
                // A write command cannot report an error; the result is
                // dropped.
                let _wr = a.data.att_write(&a.uuid, handle, 0, data, handler);
            }
            proof {
                assert(table.attrs() =~= attrs0.update(
                    i as int,
                    (Attribute { data: spec_data_after_write(a0.data, 0, data@), ..a0 }),
                ));
            }
        },
    }
}

/// The response to a `PrepareWrite` request: the request echoed behind the
/// response opcode on success, else an error response.
pub open spec fn spec_prepare_rsp(
    attrs: Seq<Attribute>,
    handle: u16,
    offset: u16,
    value: Seq<u8>,
    cap: int,
) -> Result<Seq<u8>, ()> {
    if cap < 5 {
        Err(())
    } else {
        match spec_find_handle_from(attrs, 0, handle) {
            None => spec_err_or(cap, crate::att::ATT_PREPARE_WRITE_REQ, handle, AttErrorCode::AttributeNotFound),
            Some(i) => if 5 + value.len() > cap {
                Err(())
            } else {
                match spec_write_result(attrs[i].data, offset as int, value) {
                    Ok(_) => Ok(seq![ATT_PREPARE_WRITE_RSP] + le16(handle) + le16(offset) + value),
                    Err(c) => spec_err_or(cap, crate::att::ATT_PREPARE_WRITE_REQ, handle, c),
                }
            },
        }
    }
}

fn handle_prepare_write<const MAX: usize, T: AttrHandler>(
    table: &mut AttributeTable<MAX>,
    handle: u16,
    offset: u16,
    value: &Vec<u8>,
    cap: usize,
    handler: &mut T,
) -> (r: Result<Vec<u8>, Error>)
    ensures
        cap >= 5 ==> final(table).attrs() == spec_attrs_after_write(
            old(table).attrs(),
            handle,
            offset as int,
            value@,
        ),
        cap < 5 ==> final(table).attrs() == old(table).attrs(),
        final(table).next_handle() == old(table).next_handle(),
        !spec_write_delegates(old(table).attrs(), handle) ==> res_rsp_match(
            r,
            spec_prepare_rsp(old(table).attrs(), handle, offset, value@, cap as int),
        ),
        r matches Ok(v) ==> v@.len() <= cap && v@.len() >= 1 && (v@[0] == ATT_PREPARE_WRITE_RSP
            || v@[0] == ATT_ERROR_RSP),
{
    if cap < 5 {
        return Err(Error::InsufficientSpace);
    }
    let fi = find_by_handle(table, handle);
    match fi {
        None => error_response(
            crate::att::ATT_PREPARE_WRITE_REQ,
            handle,
            AttErrorCode::AttributeNotFound,
            cap,
        ),
        Some(i) => {
            let ghost attrs0 = table.attrs();
            let a = &mut table.attributes[i];
            let ghost a0 = *a;
            let wr = a.data.att_write(&a.uuid, handle, offset as usize, value, handler);
            proof {
                assert(table.attrs() =~= attrs0.update(
                    i as int,
                    (Attribute {
                        data: spec_data_after_write(a0.data, offset as int, value@),
                        ..a0
                    }),
                ));
            }
            if value.len() > cap - 5 {
                return Err(Error::InsufficientSpace);
            }
            match wr {
                Ok(_) => {
                    let mut out: Vec<u8> = Vec::new();
                    out.push(ATT_PREPARE_WRITE_RSP);
                    crate::att::push_u16_le(&mut out, handle);
                    crate::att::push_u16_le(&mut out, offset);
                    crate::att::append_range(&mut out, value, 0, value.len());
                    proof {
                        assert(out@ =~= seq![ATT_PREPARE_WRITE_RSP] + le16(handle) + le16(offset)
                            + value@);
                    }
                    Ok(out)
                },
                Err(c) => error_response(crate::att::ATT_PREPARE_WRITE_REQ, handle, c, cap),
            }
        },
    }
}

/// The response to a `ReadByType` request: the handle and value of the first
/// matching attribute behind a `opcode ‖ pair-length` header.
pub open spec fn spec_read_by_type_rsp(
    attrs: Seq<Attribute>,
    start: u16,
    end: u16,
    ty: Seq<u8>,
    cap: int,
) -> Result<Seq<u8>, ()> {
    if cap < 2 {
        Err(())
    } else {
        match spec_find_type_from(attrs, 0, start, end, ty) {
            None => spec_err_or(cap, ATT_READ_BY_TYPE_REQ, start, AttErrorCode::AttributeNotFound),
            Some(i) => if cap < 4 {
                spec_err_or(cap, ATT_READ_BY_TYPE_REQ, start, AttErrorCode::UnlikelyError)
            } else {
                let h = attrs[i].handle;
                match spec_value_read(attrs[i].data, 0, cap - 4) {
                    Ok(v) => Ok(
                        seq![ATT_READ_BY_TYPE_RSP, (((2 + v.len()) % 256) as u8)] + le16(h) + v,
                    ),
                    Err(c) => spec_err_or(cap, ATT_READ_BY_TYPE_REQ, h, c),
                }
            },
        }
    }
}

/// Whether serving a read-by-type of `[start, end]` × `ty` delegates to the
/// user handler.
pub open spec fn spec_type_read_delegates(
    attrs: Seq<Attribute>,
    start: u16,
    end: u16,
    ty: Seq<u8>,
) -> bool {
    match spec_find_type_from(attrs, 0, start, end, ty) {
        Some(i) => attrs[i].data.spec_handler_backed() && attrs[i].data.spec_readable(),
        None => false,
    }
}

fn handle_read_by_type_req<const MAX: usize, T: AttrHandler>(
    table: &AttributeTable<MAX>,
    start: u16,
    end: u16,
    attribute_type: &Uuid,
    cap: usize,
    handler: &mut T,
) -> (r: Result<Vec<u8>, Error>)
    ensures
        !spec_type_read_delegates(table.attrs(), start, end, attribute_type@) ==> res_rsp_match(
            r,
            spec_read_by_type_rsp(table.attrs(), start, end, attribute_type@, cap as int),
        ),
        r matches Ok(v) ==> v@.len() <= cap && v@.len() >= 1 && (v@[0] == ATT_READ_BY_TYPE_RSP
            || v@[0] == ATT_ERROR_RSP),
{
    if cap < 2 {
        return Err(Error::InsufficientSpace);
    }
    match find_by_type(table, start, end, attribute_type) {
        None => error_response(
            ATT_READ_BY_TYPE_REQ,
            start,
            AttErrorCode::AttributeNotFound,
            cap,
        ),
        Some(i) => {
            if cap < 4 {
                return error_response(
                    ATT_READ_BY_TYPE_REQ,
                    start,
                    AttErrorCode::UnlikelyError,
                    cap,
                );
            }
            let att = &table.attributes[i];
            match att.data.att_read(&att.uuid, att.handle, 0, cap - 4, handler) {
                Ok(v) => {
                    let mut out: Vec<u8> = Vec::new();
                    out.push(ATT_READ_BY_TYPE_RSP);
                    out.push(((2 + v.len()) % 256) as u8);
                    crate::att::push_u16_le(&mut out, att.handle);
                    crate::att::append_range(&mut out, &v, 0, v.len());
                    proof {
                        assert(out@ =~= seq![
                            ATT_READ_BY_TYPE_RSP,
                            (((2 + v@.len()) % 256) as u8),
                        ] + le16(att.handle) + v@);
                    }
                    Ok(out)
                },
                Err(c) => error_response(ATT_READ_BY_TYPE_REQ, att.handle, c, cap),
            }
        },
    }
}

/// The response to a `ReadByGroupType` request: the handle, group end and
/// value of the first matching attribute behind a header.
pub open spec fn spec_read_by_group_type_rsp(
    attrs: Seq<Attribute>,
    start: u16,
    end: u16,
    ty: Seq<u8>,
    cap: int,
) -> Result<Seq<u8>, ()> {
    if cap < 2 {
        Err(())
    } else {
        match spec_find_type_from(attrs, 0, start, end, ty) {
            None => spec_err_or(
                cap,
                ATT_READ_BY_GROUP_TYPE_REQ,
                start,
                AttErrorCode::AttributeNotFound,
            ),
            Some(i) => if cap < 6 {
                spec_err_or(cap, ATT_READ_BY_GROUP_TYPE_REQ, start, AttErrorCode::UnlikelyError)
            } else {
                let h = attrs[i].handle;
                match spec_value_read(attrs[i].data, 0, cap - 6) {
                    Ok(v) => Ok(
                        seq![ATT_READ_BY_GROUP_TYPE_RSP, (((4 + v.len()) % 256) as u8)] + le16(h)
                            + le16(attrs[i].last_handle_in_group) + v,
                    ),
                    Err(c) => spec_err_or(cap, ATT_READ_BY_GROUP_TYPE_REQ, h, c),
                }
            },
        }
    }
}

fn handle_read_by_group_type_req<const MAX: usize, T: AttrHandler>(
    table: &AttributeTable<MAX>,
    start: u16,
    end: u16,
    group_type: &Uuid,
    cap: usize,
    handler: &mut T,
) -> (r: Result<Vec<u8>, Error>)
    ensures
        !spec_type_read_delegates(table.attrs(), start, end, group_type@) ==> res_rsp_match(
            r,
            spec_read_by_group_type_rsp(table.attrs(), start, end, group_type@, cap as int),
        ),
        r matches Ok(v) ==> v@.len() <= cap && v@.len() >= 1 && (v@[0]
            == ATT_READ_BY_GROUP_TYPE_RSP || v@[0] == ATT_ERROR_RSP),
{
    if cap < 2 {
        return Err(Error::InsufficientSpace);
    }
    match find_by_type(table, start, end, group_type) {
        None => error_response(
            ATT_READ_BY_GROUP_TYPE_REQ,
            start,
            AttErrorCode::AttributeNotFound,
            cap,
        ),
        Some(i) => {
            if cap < 6 {
                return error_response(
                    ATT_READ_BY_GROUP_TYPE_REQ,
                    start,
                    AttErrorCode::UnlikelyError,
                    cap,
                );
            }
            let att = &table.attributes[i];
            match att.data.att_read(&att.uuid, att.handle, 0, cap - 6, handler) {
                Ok(v) => {
                    let mut out: Vec<u8> = Vec::new();
                    out.push(ATT_READ_BY_GROUP_TYPE_RSP);
                    out.push(((4 + v.len()) % 256) as u8);
                    crate::att::push_u16_le(&mut out, att.handle);
                    crate::att::push_u16_le(&mut out, att.last_handle_in_group);
                    crate::att::append_range(&mut out, &v, 0, v.len());
                    proof {
                        assert(out@ =~= seq![
                            ATT_READ_BY_GROUP_TYPE_RSP,
                            (((4 + v@.len()) % 256) as u8),
                        ] + le16(att.handle) + le16(att.last_handle_in_group) + v@);
                    }
                    Ok(out)
                },
                Err(c) => error_response(ATT_READ_BY_GROUP_TYPE_REQ, att.handle, c, cap),
            }
        },
    }
}

/// The accumulation of a `FindInformation` scan from index `i`: pairs
/// `handle ‖ identifier bytes` for every attribute in range, stopping when
/// the identifier width class changes from the first match, refusing when a
/// pair does not fit into `cap` body bytes. `t` is 0 until the first match
/// fixes the width class.
pub open spec fn spec_find_info_scan(
    attrs: Seq<Attribute>,
    i: int,
    start: u16,
    end: u16,
    t: u8,
    acc: Seq<u8>,
    cap: int,
) -> Result<(Seq<u8>, u8), ()>
    decreases attrs.len() - i,
{
    if i < 0 || i >= attrs.len() {
        Ok((acc, t))
    } else {
        let a = attrs[i];
        if !(start <= a.handle && a.handle <= end) {
            spec_find_info_scan(attrs, i + 1, start, end, t, acc, cap)
        } else {
            let ut: u8 = if a.uuid@.len() == 2 {
                1u8
            } else {
                2u8
            };
            if t != 0 && ut != t {
                Ok((acc, t))
            } else if acc.len() + 2 + a.uuid@.len() > cap {
                Err(())
            } else {
                spec_find_info_scan(attrs, i + 1, start, end, ut, acc + le16(a.handle) + a.uuid@, cap)
            }
        }
    }
}

/// The response to a `FindInformation` request: the accumulated pairs behind
/// `opcode ‖ format`, or an error response when nothing was in range.
pub open spec fn spec_find_info_rsp(attrs: Seq<Attribute>, start: u16, end: u16, cap: int) -> Result<
    Seq<u8>,
    (),
> {
    if cap < 2 {
        Err(())
    } else {
        match spec_find_info_scan(attrs, 0, start, end, 0, seq![], cap - 2) {
            Err(_) => Err(()),
            Ok(body_t) => if body_t.0.len() > 2 {
                Ok(seq![ATT_FIND_INFORMATION_RSP, body_t.1] + body_t.0)
            } else {
                spec_err_or(cap, ATT_FIND_INFORMATION_REQ, start, AttErrorCode::AttributeNotFound)
            },
        }
    }
}

fn handle_find_information<const MAX: usize>(
    table: &AttributeTable<MAX>,
    start: u16,
    end: u16,
    cap: usize,
) -> (r: Result<Vec<u8>, Error>)
    ensures
        res_rsp_match(r, spec_find_info_rsp(table.attrs(), start, end, cap as int)),
        r matches Ok(v) ==> v@.len() <= cap && v@.len() >= 1 && (v@[0] == ATT_FIND_INFORMATION_RSP
            || v@[0] == ATT_ERROR_RSP),
{
    if cap < 2 {
        return Err(Error::InsufficientSpace);
    }
    let capb = cap - 2;
    let n = table.attributes.len();
    let mut body: Vec<u8> = Vec::new();
    let mut t: u8 = 0;
    let mut i: usize = 0;
    let mut stop = false;
    while i < n && !stop
        invariant
            i <= n,
            n == table.attrs().len(),
            body@.len() <= capb,
            cap >= 2,
            capb == cap - 2,
            capb <= usize::MAX - 2,
            !stop ==> spec_find_info_scan(table.attrs(), 0, start, end, 0, seq![], capb as int)
                == spec_find_info_scan(table.attrs(), i as int, start, end, t, body@, capb as int),
            stop ==> spec_find_info_scan(table.attrs(), 0, start, end, 0, seq![], capb as int)
                == Ok::<(Seq<u8>, u8), ()>((body@, t)),
        decreases n - i + (if stop {
            0int
        } else {
            1int
        }),
    {
        let att = &table.attributes[i];
        if att.handle >= start && att.handle <= end {
            let ut = att.uuid.get_type();
            if t != 0 && ut != t {
                stop = true;
            } else if body.len() + 2 > capb || att.uuid.len() > capb - (body.len() + 2) {
                return Err(Error::InsufficientSpace);
            } else {
                let ghost body0 = body@;
                crate::att::push_u16_le(&mut body, att.handle);
                crate::att::append_range(&mut body, att.uuid.as_raw(), 0, att.uuid.len());
                proof {
                    assert(att.uuid@.subrange(0, att.uuid@.len() as int) =~= att.uuid@);
                    assert(body@ =~= body0 + le16(att.handle) + att.uuid@);
                }
                t = ut;
                i += 1;
            }
        } else {
            i += 1;
        }
    }
    if body.len() > 2 {
        let mut out: Vec<u8> = Vec::new();
        out.push(ATT_FIND_INFORMATION_RSP);
        out.push(t);
        crate::att::append_range(&mut out, &body, 0, body.len());
        proof {
            assert(out@ =~= seq![ATT_FIND_INFORMATION_RSP, t] + body@);
        }
        Ok(out)
    } else {
        error_response(ATT_FIND_INFORMATION_REQ, start, AttErrorCode::AttributeNotFound, cap)
    }
}

/// The accumulation of a `FindByTypeValue` scan from index `i`: pairs
/// `found handle ‖ group end handle` for every service declaration in range
/// whose stored type matches and whose service identifier bytes equal the
/// requested value; the scan ends early when another pair does not fit.
pub open spec fn spec_ftv_scan(
    attrs: Seq<Attribute>,
    i: int,
    start: u16,
    end: u16,
    ty16: u16,
    value: Seq<u8>,
    acc: Seq<u8>,
    cap: int,
) -> Seq<u8>
    decreases attrs.len() - i,
{
    if i < 0 || i >= attrs.len() {
        acc
    } else {
        let a = attrs[i];
        if start <= a.handle && a.handle <= end && a.uuid@ == le16(ty16) && (a.data matches
        AttributeData::Service { uuid: su } && su@ == value) {
            if cap - acc.len() < 4 {
                acc
            } else {
                spec_ftv_scan(
                    attrs,
                    i + 1,
                    start,
                    end,
                    ty16,
                    value,
                    acc + le16(a.handle) + le16(a.last_handle_in_group),
                    cap,
                )
            }
        } else {
            spec_ftv_scan(attrs, i + 1, start, end, ty16, value, acc, cap)
        }
    }
}

/// The response to a `FindByTypeValue` request: the accumulated handle
/// pairs behind the response opcode (the service identifier itself is
/// omitted, the client supplied it), or an error response when none matched.
pub open spec fn spec_ftv_rsp(
    attrs: Seq<Attribute>,
    start: u16,
    end: u16,
    ty16: u16,
    value: Seq<u8>,
    cap: int,
) -> Result<Seq<u8>, ()> {
    if cap < 1 {
        Err(())
    } else {
        let body = spec_ftv_scan(attrs, 0, start, end, ty16, value, seq![], cap - 1);
        if body.len() > 0 {
            Ok(seq![ATT_FIND_BY_TYPE_VALUE_RSP] + body)
        } else {
            spec_err_or(cap, ATT_FIND_BY_TYPE_VALUE_REQ, start, AttErrorCode::AttributeNotFound)
        }
    }
}

fn handle_find_type_value<const MAX: usize>(
    table: &AttributeTable<MAX>,
    start: u16,
    end: u16,
    att_type: u16,
    att_value: &Vec<u8>,
    cap: usize,
) -> (r: Result<Vec<u8>, Error>)
    ensures
        res_rsp_match(r, spec_ftv_rsp(table.attrs(), start, end, att_type, att_value@, cap as int)),
        r matches Ok(v) ==> v@.len() <= cap && v@.len() >= 1 && (v@[0]
            == ATT_FIND_BY_TYPE_VALUE_RSP || v@[0] == ATT_ERROR_RSP),
{
    if cap < 1 {
        return Err(Error::InsufficientSpace);
    }
    let capb = cap - 1;
    let ty = Uuid::new_short(att_type);
    proof {
        assert(Uuid::spec_short(att_type) =~= le16(att_type));
    }
    let n = table.attributes.len();
    let mut body: Vec<u8> = Vec::new();
    let mut i: usize = 0;
    let mut stop = false;
    while i < n && !stop
        invariant
            i <= n,
            n == table.attrs().len(),
            body@.len() <= capb,
            ty@ == le16(att_type),
            !stop ==> spec_ftv_scan(
                table.attrs(),
                0,
                start,
                end,
                att_type,
                att_value@,
                seq![],
                capb as int,
            ) == spec_ftv_scan(
                table.attrs(),
                i as int,
                start,
                end,
                att_type,
                att_value@,
                body@,
                capb as int,
            ),
            stop ==> spec_ftv_scan(
                table.attrs(),
                0,
                start,
                end,
                att_type,
                att_value@,
                seq![],
                capb as int,
            ) == body@,
        decreases n - i + (if stop {
            0int
        } else {
            1int
        }),
    {
        let att = &table.attributes[i];
        let mut matched = false;
        if att.handle >= start && att.handle <= end && att.uuid == ty {
            match &att.data {
                AttributeData::Service { uuid: su } => {
                    if crate::att::vecs_equal(su.as_raw(), att_value) {
                        matched = true;
                    }
                },
                _ => {},
            }
        }
        if matched {
            if capb - body.len() < 4 {
                stop = true;
            } else {
                crate::att::push_u16_le(&mut body, att.handle);
                crate::att::push_u16_le(&mut body, att.last_handle_in_group);
                i += 1;
            }
        } else {
            i += 1;
        }
    }
    if body.len() > 0 {
        let mut out: Vec<u8> = Vec::new();
        out.push(ATT_FIND_BY_TYPE_VALUE_RSP);
        crate::att::append_range(&mut out, &body, 0, body.len());
        proof {
            assert(out@ =~= seq![ATT_FIND_BY_TYPE_VALUE_RSP] + body@);
        }
        Ok(out)
    } else {
        error_response(ATT_FIND_BY_TYPE_VALUE_REQ, start, AttErrorCode::AttributeNotFound, cap)
    }
}

/// The response to an `ExecuteWrite` request: the bare response opcode (no
/// staged-write coalescing is implemented).
pub open spec fn spec_execute_rsp(cap: int) -> Result<Seq<u8>, ()> {
    if cap >= 1 {
        Ok(seq![ATT_EXECUTE_WRITE_RSP])
    } else {
        Err(())
    }
}

fn handle_execute_write(_flags: u8, cap: usize) -> (r: Result<Vec<u8>, Error>)
    ensures
        res_rsp_match(r, spec_execute_rsp(cap as int)),
        r matches Ok(v) ==> v@.len() <= cap,
{
    if cap < 1 {
        return Err(Error::InsufficientSpace);
    }
    let mut out: Vec<u8> = Vec::new();
    out.push(ATT_EXECUTE_WRITE_RSP);
    proof {
        assert(out@ =~= seq![ATT_EXECUTE_WRITE_RSP]);
    }
    Ok(out)
}

/// The response to a `ReadMultiple` request: always the attribute-not-found
/// error response naming the first requested handle (serving it is a known
/// limitation).
pub open spec fn spec_read_multiple_rsp(handles: Seq<u8>, cap: int) -> Result<Seq<u8>, ()> {
    spec_err_or(
        cap,
        ATT_READ_MULTIPLE_REQ,
        u16_of(handles[0], handles[1]),
        AttErrorCode::AttributeNotFound,
    )
}

fn handle_read_multiple(handles: &Vec<u8>, cap: usize) -> (r: Result<Vec<u8>, Error>)
    requires
        handles@.len() >= 2,
    ensures
        res_rsp_match(r, spec_read_multiple_rsp(handles@, cap as int)),
        r matches Ok(v) ==> v@.len() <= cap,
{
    error_response(
        ATT_READ_MULTIPLE_REQ,
        crate::att::read_u16_le(handles[0], handles[1]),
        AttErrorCode::AttributeNotFound,
        cap,
    )
}

/// Wrap a response as the dispatcher's outcome.
pub open spec fn spec_lift_rsp(r: Result<Seq<u8>, ()>) -> Result<Option<Seq<u8>>, ()> {
    match r {
        Ok(v) => Ok(Some(v)),
        Err(e) => Err(e),
    }
}

/// The dispatcher's response for one request against a database, given
/// `cap` bytes of response room; not specified (and not used) where serving
/// the request delegates value bytes to the user handler.
pub open spec fn spec_process_rsp(attrs: Seq<Attribute>, req: AttReq, cap: int) -> Result<
    Option<Seq<u8>>,
    (),
> {
    match req {
        AttReq::ReadByType { start, end, attribute_type } => spec_lift_rsp(
            spec_read_by_type_rsp(attrs, start, end, attribute_type@, cap),
        ),
        AttReq::ReadByGroupType { start, end, group_type } => spec_lift_rsp(
            spec_read_by_group_type_rsp(attrs, start, end, group_type@, cap),
        ),
        AttReq::FindInformation { start_handle, end_handle } => spec_lift_rsp(
            spec_find_info_rsp(attrs, start_handle, end_handle, cap),
        ),
        AttReq::FindByTypeValue { start_handle, end_handle, att_type, att_value } => spec_lift_rsp(
            spec_ftv_rsp(attrs, start_handle, end_handle, att_type, att_value@, cap),
        ),
        AttReq::Read { handle } => spec_lift_rsp(
            spec_read_like_rsp(attrs, ATT_READ_REQ, ATT_READ_RSP, handle, 0, cap),
        ),
        AttReq::ReadBlob { handle, offset } => spec_lift_rsp(
            spec_read_like_rsp(attrs, ATT_READ_BLOB_REQ, ATT_READ_BLOB_RSP, handle, offset as int, cap),
        ),
        AttReq::ReadMultiple { handles } => spec_lift_rsp(spec_read_multiple_rsp(handles@, cap)),
        AttReq::Write { handle, data } => spec_lift_rsp(spec_write_rsp(attrs, handle, data@, cap)),
        AttReq::WriteCmd { .. } => Ok(None),
        AttReq::PrepareWrite { handle, offset, value } => spec_lift_rsp(
            spec_prepare_rsp(attrs, handle, offset, value@, cap),
        ),
        AttReq::ExecuteWrite { .. } => spec_lift_rsp(spec_execute_rsp(cap)),
        AttReq::ExchangeMtu { .. } => Ok(None),
    }
}

/// Whether serving the request hands value bytes to the user handler, which
/// then decides part of the response.
pub open spec fn spec_process_delegates(attrs: Seq<Attribute>, req: AttReq) -> bool {
    match req {
        AttReq::ReadByType { start, end, attribute_type } => spec_type_read_delegates(
            attrs,
            start,
            end,
            attribute_type@,
        ),
        AttReq::ReadByGroupType { start, end, group_type } => spec_type_read_delegates(
            attrs,
            start,
            end,
            group_type@,
        ),
        AttReq::Read { handle } => spec_read_delegates(attrs, handle),
        AttReq::ReadBlob { handle, .. } => spec_read_delegates(attrs, handle),
        AttReq::Write { handle, .. } => spec_write_delegates(attrs, handle),
        AttReq::PrepareWrite { handle, .. } => spec_write_delegates(attrs, handle),
        _ => false,
    }
}

/// The database after one request: only writes can change it, and of those
/// only a CCCD write changes stored data.
pub open spec fn spec_attrs_after(attrs: Seq<Attribute>, req: AttReq, cap: int) -> Seq<Attribute> {
    match req {
        AttReq::Write { handle, data } => spec_attrs_after_write(attrs, handle, 0, data@),
        AttReq::WriteCmd { handle, data } => spec_attrs_after_write(attrs, handle, 0, data@),
        AttReq::PrepareWrite { handle, offset, value } => if cap >= 5 {
            spec_attrs_after_write(attrs, handle, offset as int, value@)
        } else {
            attrs
        },
        _ => attrs,
    }
}

/// The subscription registry after one request: only a responded `Write`
/// to a CCCD touches it.
pub open spec fn spec_registry_after(
    attrs: Seq<Attribute>,
    reg: Seq<(u16, ConnHandle)>,
    conn: ConnHandle,
    req: AttReq,
) -> Seq<(u16, ConnHandle)> {
    match req {
        AttReq::Write { handle, data } => spec_reg_after_write(attrs, reg, conn, handle, data@),
        _ => reg,
    }
}

/// Whether a dispatcher outcome agrees with the specified one.
pub open spec fn res_opt_match(r: Result<Option<Vec<u8>>, Error>, s: Result<Option<Seq<u8>>, ()>) -> bool {
    match (r, s) {
        (Ok(v), Ok(sq)) => match (v, sq) {
            (Some(v2), Some(sq2)) => v2@ == sq2,
            (None, None) => true,
            _ => false,
        },
        (Err(e), Err(_)) => e == Error::InsufficientSpace,
        _ => false,
    }
}

/// Serving a pure read request changes neither the database nor the
/// subscription registry, and its response is a function of the database,
/// the request and the buffer room alone; hence issuing the same read-class
/// request twice in a row returns the same response bytes.
pub proof fn lemma_read_requests_idempotent(
    attrs: Seq<Attribute>,
    reg: Seq<(u16, ConnHandle)>,
    conn: ConnHandle,
    req: AttReq,
    cap: int,
)
    requires
        req is ReadByType || req is ReadByGroupType || req is FindInformation || req
            is FindByTypeValue || req is Read || req is ReadBlob || req is ReadMultiple,
    ensures
        spec_attrs_after(attrs, req, cap) == attrs,
        spec_registry_after(attrs, reg, conn, req) == reg,
        spec_process_rsp(spec_attrs_after(attrs, req, cap), req, cap) == spec_process_rsp(
            attrs,
            req,
            cap,
        ),
{
}

/// The notification PDU for a value handle: `opcode ‖ handle (LE) ‖ value`.
pub open spec fn spec_notification_pdu(handle: u16, value: Seq<u8>) -> Seq<u8> {
    seq![ATT_HANDLE_VALUE_NTF] + le16(handle) + value
}

/// The L2CAP frame around an ATT payload on the attribute channel: the
/// payload length, the channel number 4, then the payload truncated to the
/// negotiated MTU. The length field quotes the untruncated payload length.
pub open spec fn spec_l2cap_frame(payload: Seq<u8>, att_mtu: int) -> Seq<u8> {
    le16(payload.len() as u16) + le16(4u16) + payload.take(vstd::math::min(
        payload.len() as int,
        att_mtu,
    ))
}

/// Wrap an ATT payload in its L2CAP frame for the attribute channel,
/// truncating the payload to the negotiated MTU.
pub fn l2cap_frame(payload: &Vec<u8>, att_mtu: usize) -> (r: Vec<u8>)
    requires
        payload@.len() <= 0xFFFF,
    ensures
        r@ == spec_l2cap_frame(payload@, att_mtu as int),
{
    let mut out: Vec<u8> = Vec::new();
    crate::att::push_u16_le(&mut out, payload.len() as u16);
    crate::att::push_u16_le(&mut out, 4u16);
    let n = if payload.len() < att_mtu {
        payload.len()
    } else {
        att_mtu
    };
    crate::att::append_range(&mut out, payload, 0, n);
    proof {
        assert(payload@.subrange(0, n as int) =~= payload@.take(vstd::math::min(
            payload@.len() as int,
            att_mtu as int,
        )));
        assert(out@ =~= spec_l2cap_frame(payload@, att_mtu as int));
    }
    out
}

/// The ATT server: owns the attribute database and the subscription
/// registry, decodes nothing and sends nothing itself — it turns one decoded
/// request into at most one response buffer.
pub struct AttributeServer<const MAX: usize> {
    pub(crate) table: AttributeTable<MAX>,
    pub(crate) notification: NotificationTable<MAX_NOTIFICATIONS>,
}

impl<const MAX: usize> AttributeServer<MAX> {
    /// The stored attribute records.
    pub open(crate) spec fn attrs(&self) -> Seq<Attribute> {
        self.table.attrs()
    }

    /// The next free attribute handle of the owned table.
    pub open(crate) spec fn table_next(&self) -> u16 {
        self.table.next_handle()
    }

    /// The slots of the subscription registry.
    pub open(crate) spec fn registry(&self) -> Seq<(u16, ConnHandle)> {
        self.notification.entries()
    }

    /// Create a server over an attribute table; no subscriptions yet.
    pub fn new(table: AttributeTable<MAX>) -> (r: Self)
        ensures
            r.attrs() == table.attrs(),
            r.table_next() == table.next_handle(),
            r.registry().len() == MAX_NOTIFICATIONS,
            forall|i: int|
                0 <= i < MAX_NOTIFICATIONS ==> (#[trigger] r.registry()[i]) == (
                    0u16,
                    ConnHandle { raw: 0 },
                ),
    {
        AttributeServer { table, notification: NotificationTable::new() }
    }

    /// The owned attribute table.
    pub fn table(&self) -> (r: &AttributeTable<MAX>)
        ensures
            r.attrs() == self.attrs(),
            r.next_handle() == self.table_next(),
    {
        &self.table
    }

    /// Whether notifications to `conn` gated by `cccd_handle` are enabled.
    pub fn should_notify(&self, conn: ConnHandle, cccd_handle: u16) -> (r: bool)
        ensures
            r == spec_should_notify(self.registry(), conn, cccd_handle),
    {
        self.notification.should_notify(conn, cccd_handle)
    }

    /// Process one decoded request against the database and produce the
    /// response bytes, `None` for the request classes that take no response,
    /// or the insufficient-space error when `cap` cannot hold the response.
    pub fn process<T: AttrHandler>(
        &mut self,
        conn: ConnHandle,
        packet: &AttReq,
        cap: usize,
        handler: &mut T,
    ) -> (r: Result<Option<Vec<u8>>, Error>)
        requires
            packet.wf(),
        ensures
            final(self).attrs() == spec_attrs_after(old(self).attrs(), *packet, cap as int),
            final(self).table_next() == old(self).table_next(),
            final(self).registry() == spec_registry_after(
                old(self).attrs(),
                old(self).registry(),
                conn,
                *packet,
            ),
            !spec_process_delegates(old(self).attrs(), *packet) ==> res_opt_match(
                r,
                spec_process_rsp(old(self).attrs(), *packet, cap as int),
            ),
            spec_process_delegates(old(self).attrs(), *packet) ==> (r matches Ok(v) ==> (v
                matches Some(b) && b@.len() >= 1)),
            r matches Ok(v) ==> (v matches Some(b) ==> b@.len() <= cap),
    {
        match packet {
            AttReq::ReadByType { start, end, attribute_type } => {
                match handle_read_by_type_req(
                    &self.table,
                    *start,
                    *end,
                    attribute_type,
                    cap,
                    handler,
                ) {
                    Ok(v) => Ok(Some(v)),
                    Err(e) => Err(e),
                }
            },
            AttReq::ReadByGroupType { start, end, group_type } => {
                match handle_read_by_group_type_req(
                    &self.table,
                    *start,
                    *end,
                    group_type,
                    cap,
                    handler,
                ) {
                    Ok(v) => Ok(Some(v)),
                    Err(e) => Err(e),
                }
            },
            AttReq::FindInformation { start_handle, end_handle } => {
                match handle_find_information(&self.table, *start_handle, *end_handle, cap) {
                    Ok(v) => Ok(Some(v)),
                    Err(e) => Err(e),
                }
            },
            AttReq::FindByTypeValue { start_handle, end_handle, att_type, att_value } => {
                match handle_find_type_value(
                    &self.table,
                    *start_handle,
                    *end_handle,
                    *att_type,
                    att_value,
                    cap,
                ) {
                    Ok(v) => Ok(Some(v)),
                    Err(e) => Err(e),
                }
            },
            AttReq::Read { handle } => {
                match handle_read_like(
                    &self.table,
                    ATT_READ_REQ,
                    ATT_READ_RSP,
                    *handle,
                    0,
                    cap,
                    handler,
                ) {
                    Ok(v) => Ok(Some(v)),
                    Err(e) => Err(e),
                }
            },
            AttReq::ReadBlob { handle, offset } => {
                match handle_read_like(
                    &self.table,
                    ATT_READ_BLOB_REQ,
                    ATT_READ_BLOB_RSP,
                    *handle,
                    *offset as usize,
                    cap,
                    handler,
                ) {
                    Ok(v) => Ok(Some(v)),
                    Err(e) => Err(e),
                }
            },
            AttReq::ReadMultiple { handles } => {
                match handle_read_multiple(handles, cap) {
                    Ok(v) => Ok(Some(v)),
                    Err(e) => Err(e),
                }
            },
            AttReq::Write { handle, data } => {
                match handle_write_req(
                    &mut self.table,
                    &mut self.notification,
                    conn,
                    *handle,
                    data,
                    cap,
                    handler,
                ) {
                    Ok(v) => Ok(Some(v)),
                    Err(e) => Err(e),
                }
            },
            AttReq::WriteCmd { handle, data } => {
                handle_write_cmd(&mut self.table, *handle, data, handler);
                Ok(None)
            },
            AttReq::PrepareWrite { handle, offset, value } => {
                match handle_prepare_write(
                    &mut self.table,
                    *handle,
                    *offset,
                    value,
                    cap,
                    handler,
                ) {
                    Ok(v) => Ok(Some(v)),
                    Err(e) => Err(e),
                }
            },
            AttReq::ExecuteWrite { flags } => {
                match handle_execute_write(*flags, cap) {
                    Ok(v) => Ok(Some(v)),
                    Err(e) => Err(e),
                }
            },
            AttReq::ExchangeMtu { .. } => {
                // MTU negotiation is handled upstream of the dispatcher.
                Ok(None)
            },
        }
    }

    /// Build the framed notification PDU for a characteristic value, gated
    /// by the subscription registry: `Ok(None)` when the connection has not
    /// subscribed (nothing is to be sent), the framed PDU bytes when it has.
    pub fn notify(
        &self,
        characteristic: Characteristic,
        conn: ConnHandle,
        value: &Vec<u8>,
        l2cap_mtu: usize,
    ) -> (r: Result<Option<Vec<u8>>, Error>)
        requires
            value@.len() + 3 <= 0xFFFF,
        ensures
            characteristic.cccd_handle is None ==> r == Err::<Option<Vec<u8>>, Error>(Error::Other),
            characteristic.cccd_handle matches Some(ch) && !spec_should_notify(
                self.registry(),
                conn,
                ch,
            ) ==> r == Ok::<Option<Vec<u8>>, Error>(None),
            characteristic.cccd_handle matches Some(ch) && spec_should_notify(
                self.registry(),
                conn,
                ch,
            ) ==> (if 7 + value@.len() <= l2cap_mtu {
                r matches Ok(v) && (v matches Some(b) && b@ == spec_l2cap_frame(
                    spec_notification_pdu(characteristic.handle, value@),
                    l2cap_mtu - 4,
                ))
            } else {
                r == Err::<Option<Vec<u8>>, Error>(Error::InsufficientSpace)
            }),
    {
        let cccd_handle = match characteristic.cccd_handle {
            Some(ch) => ch,
            None => {
                return Err(Error::Other);
            },
        };
        if !self.should_notify(conn, cccd_handle) {
            return Ok(None);
        }
        if l2cap_mtu < 4 || 3 + value.len() > l2cap_mtu - 4 {
            return Err(Error::InsufficientSpace);
        }
        let mut pdu: Vec<u8> = Vec::new();
        pdu.push(ATT_HANDLE_VALUE_NTF);
        crate::att::push_u16_le(&mut pdu, characteristic.handle);
        crate::att::append_range(&mut pdu, value, 0, value.len());
        proof {
            assert(pdu@ =~= spec_notification_pdu(characteristic.handle, value@));
        }
        let framed = l2cap_frame(&pdu, l2cap_mtu - 4);
        proof {
            assert(pdu@.len() <= l2cap_mtu - 4);
        }
        Ok(Some(framed))
    }

    /// Find a characteristic by the handle of its value attribute.
    pub fn find_characteristic_by_value_handle(&self, handle: u16) -> (r: Result<
        Characteristic,
        Error,
    >)
        ensures
            r == crate::attribute::spec_find_char_from(self.attrs(), 0, handle),
    {
        self.table.find_characteristic_by_value_handle(handle)
    }

    /// One full server turn on an inbound ATT PDU: decode the request,
    /// process it against the database with `att_mtu` bytes of response
    /// room, and frame the response for the attribute channel. A PDU that
    /// does not decode, a request class without a response, and a response
    /// that cannot be built are all dropped (`None`), as the transport loop
    /// neither answers nor tears the link down for them.
    pub fn process_pdu<T: AttrHandler>(
        &mut self,
        conn: ConnHandle,
        pdu: &Vec<u8>,
        att_mtu: usize,
        handler: &mut T,
    ) -> (r: Option<Vec<u8>>)
        requires
            att_mtu <= 0xFFFF,
        ensures
            !crate::att::spec_req_parses(pdu@) ==> (r is None && final(self).attrs() == old(
                self,
            ).attrs() && final(self).registry() == old(self).registry() && final(self).table_next()
                == old(self).table_next()),
            crate::att::spec_req_parses(pdu@) ==> (exists|req: AttReq|
                {
                    &&& #[trigger] crate::att::req_matches_bytes(req, pdu@)
                    &&& req.wf()
                    &&& final(self).attrs() == spec_attrs_after(
                        old(self).attrs(),
                        req,
                        att_mtu as int,
                    )
                    &&& final(self).registry() == spec_registry_after(
                        old(self).attrs(),
                        old(self).registry(),
                        conn,
                        req,
                    )
                    &&& (!spec_process_delegates(old(self).attrs(), req) ==> (
                    match spec_process_rsp(old(self).attrs(), req, att_mtu as int) {
                        Ok(v) => match v {
                            Some(rsp) => r matches Some(b) && b@ == spec_l2cap_frame(
                                rsp,
                                att_mtu as int,
                            ),
                            None => r is None,
                        },
                        Err(_) => r is None,
                    }))
                }),
            final(self).table_next() == old(self).table_next(),
            r matches Some(b) ==> b@.len() <= 4 + att_mtu,
    {
        let req = match AttReq::decode(pdu) {
            Ok(req) => req,
            Err(_) => {
                return None;
            },
        };
        let r = self.process(conn, &req, att_mtu, handler);
        proof {
            assert(crate::att::req_matches_bytes(req, pdu@));
        }
        match r {
            Ok(Some(rsp)) => Some(l2cap_frame(&rsp, att_mtu)),
            Ok(None) => None,
            Err(_) => None,
        }
    }
}

} // verus!
