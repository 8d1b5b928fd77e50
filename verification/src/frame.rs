//! CAN frames as plain values, and the exact frames that mission-control
//! sends for each outbound message of the Analog3 protocol.

use vstd::prelude::*;

use crate::analog3::{
    A3_ADMIN_NOTIFY_ID, A3_ADMIN_REQ_UID_CANCEL, A3_ADMIN_SIGN_IN, A3_ID_MISSION_CONTROL,
    A3_MC_ASSIGN_MODULE_ID, A3_MC_CONTINUE_STREAM, A3_MC_MODIFY_CONFIG, A3_MC_PING,
    A3_MC_REQUEST_CONFIG, A3_MC_REQUEST_NAME, A3_MC_SIGN_IN,
};

verus! {

/// A CAN frame.  `id` is an 11-bit standard or 29-bit extended address,
/// `remote` marks a remote-transmission-request frame, and only the first
/// `data_length` bytes of `data` are meaningful.
#[derive(Debug, Clone)]
pub struct CanMessage {
    /// The CAN identifier.
    pub id: u32,
    /// Whether the identifier is a 29-bit extended address.
    pub extended: bool,
    /// Whether this is a remote-transmission-request frame.
    pub remote: bool,
    /// How many of the payload bytes are meaningful; at most 8.
    pub data_length: u8,
    /// The payload buffer; always exactly 8 bytes long.
    pub data: Vec<u8>,
}

impl CanMessage {
    /// A frame is well-formed when its payload buffer has the fixed CAN
    /// size and its declared length fits in it.
    pub open spec fn wf(&self) -> bool {
        self.data@.len() == 8 && self.data_length <= 8
    }

    /// A fresh frame: standard, not remote, empty payload.
    pub fn new() -> (r: Self)
        ensures
            r.wf(),
            r.id == 0,
            !r.extended,
            !r.remote,
            r.data_length == 0,
            r.data@ =~= seq![0u8, 0u8, 0u8, 0u8, 0u8, 0u8, 0u8, 0u8],
    {
        let mut data: Vec<u8> = Vec::new();
        let mut i: usize = 0;
        while i < 8
            invariant
                i <= 8,
                data@ =~= Seq::new(i as nat, |j: int| 0u8),
            decreases 8 - i,
        {
            data.push(0u8);
            i = i + 1;
        }
        CanMessage { id: 0, extended: false, remote: false, data_length: 0, data }
    }

    /// The CAN identifier.
    pub fn get_id(&self) -> (r: u32)
        ensures
            r == self.id,
    {
        self.id
    }

    /// Sets the CAN identifier.
    pub fn set_id(&mut self, id: u32)
        ensures
            *final(self) == (CanMessage { id, ..*old(self) }),
    {
        self.id = id;
    }

    /// Whether the identifier is extended.
    pub fn is_extended(&self) -> (r: bool)
        ensures
            r == self.extended,
    {
        self.extended
    }

    /// Marks the identifier as extended or standard.
    pub fn set_extended(&mut self, extended: bool)
        ensures
            *final(self) == (CanMessage { extended, ..*old(self) }),
    {
        self.extended = extended;
    }

    /// Whether this is a remote-transmission-request frame.
    pub fn is_remote(&self) -> (r: bool)
        ensures
            r == self.remote,
    {
        self.remote
    }

    /// Marks the frame as remote or data.
    pub fn set_remote(&mut self, remote: bool)
        ensures
            *final(self) == (CanMessage { remote, ..*old(self) }),
    {
        self.remote = remote;
    }

    /// The number of meaningful payload bytes.
    pub fn get_data_length(&self) -> (r: u8)
        ensures
            r == self.data_length,
    {
        self.data_length
    }

    /// Declares how many payload bytes are meaningful.
    pub fn set_data_length(&mut self, data_length: u8)
        requires
            data_length <= 8,
        ensures
            *final(self) == (CanMessage { data_length, ..*old(self) }),
    {
        self.data_length = data_length;
    }

    /// Reads one payload byte.
    pub fn get_data(&self, index: usize) -> (r: u8)
        requires
            self.wf(),
            index < 8,
        ensures
            r == self.data@[index as int],
    {
        self.data[index]
    }

    /// Writes one payload byte.
    pub fn set_data(&mut self, index: usize, value: u8)
        requires
            old(self).wf(),
            index < 8,
        ensures
            final(self).wf(),
            final(self).data@ == old(self).data@.update(index as int, value),
            final(self).id == old(self).id,
            final(self).extended == old(self).extended,
            final(self).remote == old(self).remote,
            final(self).data_length == old(self).data_length,
    {
        self.data.set(index, value);
    }

    /// The whole payload buffer.
    pub fn data(&self) -> (r: &Vec<u8>)
        ensures
            r@ == self.data@,
    {
        &self.data
    }
}

/// A standard frame from the mission-control id whose payload is an opcode
/// followed by a module id.
pub fn make_mission_control_message(opcode: u8, remote_id: u8) -> (r: CanMessage)
    ensures
        r.wf(),
        r.id == A3_ID_MISSION_CONTROL,
        !r.extended,
        !r.remote,
        r.data_length == 2,
        r.data@[0] == opcode,
        r.data@[1] == remote_id,
{
    let mut out = CanMessage::new();
    out.set_id(A3_ID_MISSION_CONTROL);
    out.set_extended(false);
    out.set_data_length(2);
    out.set_data(0, opcode);
    out.set_data(1, remote_id);
    out
}

/// An extended frame addressed by a module UID whose payload is a single
/// admin opcode.
pub fn make_message_by_uid(uid: u32, opcode: u8) -> (r: CanMessage)
    ensures
        r.wf(),
        r.id == uid,
        r.extended,
        !r.remote,
        r.data_length == 1,
        r.data@[0] == opcode,
{
    let mut out = CanMessage::new();
    out.set_id(uid);
    out.set_extended(true);
    out.set_data_length(1);
    out.set_data(0, opcode);
    out
}

/// The frame announcing mission-control on the bus.
pub fn sign_in() -> (r: CanMessage)
    ensures
        r.wf(),
        r.id == A3_ID_MISSION_CONTROL,
        !r.extended,
        !r.remote,
        r.data_length == 1,
        r.data@[0] == A3_MC_SIGN_IN,
{
    let mut out = CanMessage::new();
    out.set_id(A3_ID_MISSION_CONTROL);
    out.set_data_length(1);
    out.set_data(0, A3_MC_SIGN_IN);
    out
}

/// The frame assigning logical id `remote_id` to the module with serial
/// `remote_uid`; the UID travels big-endian.
pub fn assign_module_id(remote_uid: u32, remote_id: u8) -> (r: CanMessage)
    ensures
        r.wf(),
        r.id == A3_ID_MISSION_CONTROL,
        !r.extended,
        !r.remote,
        r.data_length == 6,
        r.data@[0] == A3_MC_ASSIGN_MODULE_ID,
        r.data@[1] == (remote_uid >> 24) as u8,
        r.data@[2] == (remote_uid >> 16) as u8,
        r.data@[3] == (remote_uid >> 8) as u8,
        r.data@[4] == remote_uid as u8,
        r.data@[5] == remote_id,
{
    let mut out = CanMessage::new();
    out.set_id(A3_ID_MISSION_CONTROL);
    out.set_data_length(6);
    out.set_data(0, A3_MC_ASSIGN_MODULE_ID);
    out.set_data(1, (remote_uid >> 24) as u8);
    out.set_data(2, (remote_uid >> 16) as u8);
    out.set_data(3, (remote_uid >> 8) as u8);
    out.set_data(4, remote_uid as u8);
    out.set_data(5, remote_id);
    out
}

/// The ping frame for module `remote_id`; a third byte asks the module to
/// blink when `enable_visual` is set.
pub fn ping(remote_id: u8, enable_visual: bool) -> (r: CanMessage)
    ensures
        r.wf(),
        r.id == A3_ID_MISSION_CONTROL,
        !r.extended,
        !r.remote,
        r.data_length == (if enable_visual { 3int } else { 2int }),
        r.data@[0] == A3_MC_PING,
        r.data@[1] == remote_id,
        enable_visual ==> r.data@[2] == 1,
{
    let mut out = CanMessage::new();
    out.set_id(A3_ID_MISSION_CONTROL);
    out.set_data_length(if enable_visual { 3 } else { 2 });
    out.set_data(0, A3_MC_PING);
    out.set_data(1, remote_id);
    if enable_visual {
        out.set_data(2, 1);
    }
    out
}

/// A request frame carrying an opcode, a module id, and the admin wire
/// address on which the module should answer.
pub fn make_wire_request(opcode: u8, remote_id: u8, wire_id: u8) -> (r: CanMessage)
    ensures
        r.wf(),
        r.id == A3_ID_MISSION_CONTROL,
        !r.extended,
        !r.remote,
        r.data_length == 3,
        r.data@[0] == opcode,
        r.data@[1] == remote_id,
        r.data@[2] == wire_id,
{
    let mut out = make_mission_control_message(opcode, remote_id);
    out.set_data(2, wire_id);
    out.set_data_length(3);
    out
}

/// The frame asking module `id` for its name, answered on wire `wire_id`.
pub fn request_name(id: u8, wire_id: u8) -> (r: CanMessage)
    ensures
        r.wf(),
        r.id == A3_ID_MISSION_CONTROL,
        !r.extended,
        !r.remote,
        r.data_length == 3,
        r.data@[0] == A3_MC_REQUEST_NAME,
        r.data@[1] == id,
        r.data@[2] == wire_id,
{
    make_wire_request(A3_MC_REQUEST_NAME, id, wire_id)
}

/// The frame asking module `id` for its configuration, answered on wire
/// `wire_id`.
pub fn request_config(id: u8, wire_id: u8) -> (r: CanMessage)
    ensures
        r.wf(),
        r.id == A3_ID_MISSION_CONTROL,
        !r.extended,
        !r.remote,
        r.data_length == 3,
        r.data@[0] == A3_MC_REQUEST_CONFIG,
        r.data@[1] == id,
        r.data@[2] == wire_id,
{
    make_wire_request(A3_MC_REQUEST_CONFIG, id, wire_id)
}

/// The frame asking module `id` for the next frame of the stream on wire
/// `wire_id`.
pub fn continue_stream(id: u8, wire_id: u8) -> (r: CanMessage)
    ensures
        r.wf(),
        r.id == A3_ID_MISSION_CONTROL,
        !r.extended,
        !r.remote,
        r.data_length == 3,
        r.data@[0] == A3_MC_CONTINUE_STREAM,
        r.data@[1] == id,
        r.data@[2] == wire_id,
{
    make_wire_request(A3_MC_CONTINUE_STREAM, id, wire_id)
}

/// The frame opening a configuration push towards module `id` on wire
/// `wire_id`.
pub fn modify_config(id: u8, wire_id: u8) -> (r: CanMessage)
    ensures
        r.wf(),
        r.id == A3_ID_MISSION_CONTROL,
        !r.extended,
        !r.remote,
        r.data_length == 3,
        r.data@[0] == A3_MC_MODIFY_CONFIG,
        r.data@[1] == id,
        r.data@[2] == wire_id,
{
    make_wire_request(A3_MC_MODIFY_CONFIG, id, wire_id)
}

/// The admin frame requesting deregistration of `uid`.
pub fn request_uid_cancel(uid: u32) -> (r: CanMessage)
    ensures
        r.wf(),
        r.id == uid,
        r.extended,
        !r.remote,
        r.data_length == 1,
        r.data@[0] == A3_ADMIN_REQ_UID_CANCEL,
{
    make_message_by_uid(uid, A3_ADMIN_REQ_UID_CANCEL)
}

/// The admin frame with which a module (or an operator pretending to be
/// one) signs in.
pub fn im_sign_in(uid: u32) -> (r: CanMessage)
    ensures
        r.wf(),
        r.id == uid,
        r.extended,
        !r.remote,
        r.data_length == 1,
        r.data@[0] == A3_ADMIN_SIGN_IN,
{
    make_message_by_uid(uid, A3_ADMIN_SIGN_IN)
}

/// The admin frame with which a module asserts that it holds logical id
/// `id`.
pub fn im_notify_id(uid: u32, id: u8) -> (r: CanMessage)
    ensures
        r.wf(),
        r.id == uid,
        r.extended,
        !r.remote,
        r.data_length == 2,
        r.data@[0] == A3_ADMIN_NOTIFY_ID,
        r.data@[1] == id,
{
    let mut out = make_message_by_uid(uid, A3_ADMIN_NOTIFY_ID);
    out.set_data(1, id);
    out.set_data_length(2);
    out
}

} // verus!
