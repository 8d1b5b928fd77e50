//! CAN-ID assignments and opcodes of the Analog3 wire protocol.

use vstd::prelude::*;

verus! {

// ID assignments /////////////////////////////////

/// Lowest CAN-ID of the MIDI range; traffic there is not handled here.
pub const A3_ID_MIDI_TIMING_CLOCK: u32 = 0x100;
/// Base CAN-ID of the MIDI voice range.
pub const A3_ID_MIDI_VOICE_BASE: u32 = 0x101;
/// Highest CAN-ID of the MIDI range.
pub const A3_ID_MIDI_REAL_TIME: u32 = 0x140;

/// Base CAN-ID of the admin wire pool used for multi-frame exchanges.
pub const A3_ID_ADMIN_WIRES_BASE: u32 = 0x680;

/// CAN-ID on which mission-control sends its outbound traffic.
pub const A3_ID_MISSION_CONTROL: u32 = 0x700;
/// Base CAN-ID for per-module reply streams: module `id` replies on
/// `A3_ID_INDIVIDUAL_MODULE_BASE + id`.
pub const A3_ID_INDIVIDUAL_MODULE_BASE: u32 = 0x700;

// Message types //////////////////////////////////

/* Module administration opcodes (extended frames, CAN-ID = module UID) */

/// A module requests a logical ID.
pub const A3_ADMIN_SIGN_IN: u8 = 0x01;
/// A module asserts the logical ID it currently holds (payload: id).
pub const A3_ADMIN_NOTIFY_ID: u8 = 0x02;
/// Deregistration of the sending UID is requested.
pub const A3_ADMIN_REQ_UID_CANCEL: u8 = 0x03;

/* Mission control opcodes (standard frames sent from A3_ID_MISSION_CONTROL) */

/// Mission-control announces itself on the bus.
pub const A3_MC_SIGN_IN: u8 = 0x01;
/// Assign a logical ID to a UID (payload: uid big-endian, id).
pub const A3_MC_ASSIGN_MODULE_ID: u8 = 0x02;
/// Ping a module (payload: id, optional visual flag).
pub const A3_MC_PING: u8 = 0x03;
/// Request a module's name over an admin wire (payload: id, wire address).
pub const A3_MC_REQUEST_NAME: u8 = 0x04;
/// Request a module's configuration over an admin wire (payload: id, wire address).
pub const A3_MC_REQUEST_CONFIG: u8 = 0x05;
/// Ask the module for the next frame of an ongoing stream (payload: id, wire address).
pub const A3_MC_CONTINUE_STREAM: u8 = 0x06;
/// Open a configuration push towards a module (payload: id, wire address).
pub const A3_MC_MODIFY_CONFIG: u8 = 0x08;

/* Individual module opcodes (standard frames from A3_ID_INDIVIDUAL_MODULE_BASE + id) */

/// A module answers a ping.
pub const A3_IM_REPLY_PING: u8 = 0x01;
/// A module acknowledges an ID assignment.
pub const A3_IM_ID_ASSIGN_ACK: u8 = 0x02;

/// Payload capacity of a CAN frame.
pub const A3_DATA_LENGTH: u8 = 8;

/* Common property ids */

/// Property carrying the module UID (u32, read-only).
pub const A3_PROP_MODULE_UID: u8 = 0;
/// Property carrying the module type id (u16, read-only).
pub const A3_PROP_MODULE_TYPE: u8 = 1;
/// Property carrying the module name (text).
pub const A3_PROP_NAME: u8 = 2;

} // verus!
