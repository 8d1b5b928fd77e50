//! The frame dispatcher and the per-command protocol machines.

use mission_control::analog3::{
    A3_ID_MISSION_CONTROL, A3_MC_CONTINUE_STREAM, A3_MC_MODIFY_CONFIG, A3_MC_REQUEST_NAME,
};
use mission_control::config::Property;
use mission_control::error::ErrorType;
use mission_control::frame;
use mission_control::frame::CanMessage;
use mission_control::mission_control::{
    classify_frame, name_from_properties, ping_request, registry_update_of,
    stream_status_from_byte, Dispatch, IdAssign, PullExchange, PullStep, PushExchange,
    StreamStatus,
};
use mission_control::schema::ValueType;

/// A frame as the driver would hand it in.
fn frame_with(id: u32, extended: bool, payload: &[u8]) -> CanMessage {
    let mut m = CanMessage::new();
    m.set_id(id);
    m.set_extended(extended);
    m.set_data_length(payload.len() as u8);
    for (i, b) in payload.iter().enumerate() {
        m.set_data(i, *b);
    }
    m
}

#[test]
fn test_dispatch_admin_frames() {
    let sign_in = frame_with(0xdeadbeef, true, &[0x01]);
    assert_eq!(classify_frame(&sign_in), Dispatch::AdminSignIn { uid: 0xdeadbeef });

    let notify = frame_with(0xdeadbeef, true, &[0x02, 0x07]);
    assert_eq!(
        classify_frame(&notify),
        Dispatch::AdminNotifyId { uid: 0xdeadbeef, id: 0x07 }
    );

    let cancel = frame_with(0xdeadbeef, true, &[0x03]);
    assert_eq!(classify_frame(&cancel), Dispatch::AdminUidCancel { uid: 0xdeadbeef });
}

#[test]
fn test_dispatch_tolerates_junk() {
    // No opcode byte: dropped, no registry mutation.
    assert_eq!(classify_frame(&frame_with(0xdeadbeef, true, &[])), Dispatch::Ignore);
    // An id notification without its id byte: dropped.
    assert_eq!(classify_frame(&frame_with(0xdeadbeef, true, &[0x02])), Dispatch::Ignore);
    // An unknown admin opcode: dropped.
    assert_eq!(classify_frame(&frame_with(0xdeadbeef, true, &[0x7f])), Dispatch::Ignore);
    // MIDI traffic: dropped.
    assert_eq!(classify_frame(&frame_with(0x120, false, &[0x09, 60])), Dispatch::Ignore);
    // An individual-module frame with an unknown opcode: dropped.
    assert_eq!(classify_frame(&frame_with(0x701, false, &[0x7f])), Dispatch::Ignore);
}

#[test]
fn test_dispatch_stream_replies() {
    // A ping reply and an id-assign acknowledgement route by CAN-ID.
    let ping = frame_with(0x709, false, &[0x01]);
    assert_eq!(classify_frame(&ping), Dispatch::StreamReply { stream_id: 0x709 });
    let ack = frame_with(0x701, false, &[0x02]);
    assert_eq!(classify_frame(&ack), Dispatch::StreamReply { stream_id: 0x701 });
    // Any admin-wire frame routes as a stream reply, opcode or not.
    let wire = frame_with(0x680, false, &[0x00]);
    assert_eq!(classify_frame(&wire), Dispatch::StreamReply { stream_id: 0x680 });
}

#[test]
fn test_sign_in_assignment_frame() {
    // A sign-in from 0xDEADBEEF gets id 1 and the assignment frame
    // carries the uid big-endian followed by the id.
    let m = frame::assign_module_id(0xdeadbeef, 0x01);
    assert_eq!(m.get_id(), 0x700);
    assert!(!m.is_extended());
    assert_eq!(m.get_data_length(), 6);
    assert_eq!(&m.data()[..6], &[0x02, 0xde, 0xad, 0xbe, 0xef, 0x01]);
}

#[test]
fn test_id_assign_retry_schedule() {
    let mut machine = IdAssign::new(0xdeadbeef, 1);
    assert_eq!(machine.stream_id(), 0x701);
    assert_eq!(machine.timeout_ms(), 50);
    let mut timeouts = vec![];
    let mut retries = 0;
    loop {
        timeouts.push(machine.timeout_ms());
        if !machine.on_timeout() {
            break;
        }
        retries += 1;
    }
    assert_eq!(retries, 9);
    assert_eq!(
        timeouts,
        vec![50, 100, 200, 400, 800, 1600, 3200, 6400, 12800, 25600]
    );
    assert!(!machine.confirmed);

    let mut confirmed = IdAssign::new(0xdeadbeef, 1);
    confirmed.on_ack();
    assert!(confirmed.confirmed);
}

#[test]
fn test_stream_status_bytes() {
    assert_eq!(stream_status_from_byte(0), Some(StreamStatus::Ready));
    assert_eq!(stream_status_from_byte(1), Some(StreamStatus::Busy));
    assert_eq!(stream_status_from_byte(2), Some(StreamStatus::NotSupported));
    assert_eq!(stream_status_from_byte(3), Some(StreamStatus::NoSuchStream));
    assert_eq!(stream_status_from_byte(4), None);
}

#[test]
fn test_get_name_exchange() {
    // Module 5 answers on wire 0x680 (wire address 0).
    let mut pull = PullExchange::for_get_name(5, 0x680);
    let req = pull.request_frame();
    assert_eq!(req.get_id(), A3_ID_MISSION_CONTROL);
    assert_eq!(&req.data()[..3], &[A3_MC_REQUEST_NAME, 5, 0]);

    // The wire reports ready; the puller asks for the first data frame.
    let ready = frame_with(0x680, false, &[0x00]);
    let step = pull.on_frame(&ready);
    let PullStep::Continue { frame } = step else {
        panic!("expected a continue step");
    };
    assert_eq!(&frame.data()[..3], &[A3_MC_CONTINUE_STREAM, 5, 0]);

    // One frame carries the whole single-field name chunk.
    let data = frame_with(0x680, false, &[0x02, 0x05, b'h', b'e', b'l', b'l', b'o']);
    let step = pull.on_frame(&data);
    let PullStep::Done { properties } = step else {
        panic!("expected completion");
    };
    assert_eq!(properties.len(), 1);
    assert_eq!(name_from_properties(&properties).unwrap(), "hello");
}

#[test]
fn test_get_name_busy_backoff() {
    let mut pull = PullExchange::for_get_name(5, 0x680);
    let busy = frame_with(0x680, false, &[0x01]);
    let mut delays = vec![];
    for _ in 0..3 {
        match pull.on_frame(&busy) {
            PullStep::Resend { frame, delay_ms } => {
                assert_eq!(&frame.data()[..3], &[A3_MC_REQUEST_NAME, 5, 0]);
                delays.push(delay_ms);
            }
            _ => panic!("expected a resend step"),
        }
    }
    assert_eq!(delays, vec![100, 200, 400]);
    // The fourth busy answer gives up with a stream conflict.
    match pull.on_frame(&busy) {
        PullStep::Fail { error } => {
            assert!(matches!(error.error_type, ErrorType::A3StreamConflict));
        }
        _ => panic!("expected a failure step"),
    }
}

#[test]
fn test_get_name_protocol_errors() {
    let mut pull = PullExchange::for_get_name(5, 0x680);
    let unsupported = frame_with(0x680, false, &[0x02]);
    match pull.on_frame(&unsupported) {
        PullStep::Fail { error } => {
            assert!(matches!(error.error_type, ErrorType::RuntimeError));
        }
        _ => panic!("expected a failure step"),
    }

    let mut pull = PullExchange::for_get_name(5, 0x680);
    let empty = frame_with(0x680, false, &[]);
    match pull.on_frame(&empty) {
        PullStep::Fail { error } => {
            assert!(matches!(error.error_type, ErrorType::RuntimeError));
        }
        _ => panic!("expected a failure step"),
    }
}

#[test]
fn test_get_config_exchange_multi_frame() {
    let mut pull = PullExchange::for_get_config(3, 0x681);
    let req = pull.request_frame();
    assert_eq!(&req.data()[..3], &[0x05, 3, 1]);

    let ready = frame_with(0x681, false, &[0x00]);
    assert!(matches!(pull.on_frame(&ready), PullStep::Continue { .. }));

    // The chunk [2 fields: (2, "hi"), (3, 0x0105)] over two frames.
    let first = frame_with(0x681, false, &[0x02, 0x02, 0x02, b'h', b'i', 0x03, 0x02]);
    assert!(matches!(pull.on_frame(&first), PullStep::Continue { .. }));
    let second = frame_with(0x681, false, &[0x01, 0x05]);
    match pull.on_frame(&second) {
        PullStep::Done { properties } => {
            assert_eq!(properties.len(), 2);
            assert_eq!(properties[0].data.as_slice(), b"hi");
            assert_eq!(properties[1].data, vec![0x01, 0x05]);
        }
        _ => panic!("expected completion"),
    }
}

#[test]
fn test_set_config_push() {
    // Renaming module 3 pushes one name property over wire 0x682.
    let prop = Property::from_string(2, "Lead", &ValueType::Text).unwrap();
    let props = vec![prop];
    let mut push = PushExchange::for_set_config(3, 0x682, &props);
    let req = push.request_frame();
    assert_eq!(&req.data()[..3], &[A3_MC_MODIFY_CONFIG, 3, 2]);

    assert!(!push.is_done());
    let (out, more) = push.on_solicit();
    assert_eq!(out.get_id(), 0x682);
    assert!(!out.is_extended() && !out.is_remote());
    // [1 field][id 2][len 4]"Lead" is seven bytes: one window.
    assert_eq!(out.get_data_length(), 7);
    assert_eq!(&out.data()[..7], &[1, 2, 4, b'L', b'e', b'a', b'd']);
    assert!(!more);
    assert!(push.is_done());

    // The pushed name is what set-config mirrors into the registry.
    assert_eq!(
        mission_control::mission_control::name_property_of(&props).unwrap(),
        "Lead"
    );
}

#[test]
fn test_ping_request_frame() {
    let (stream_id, m) = ping_request(9, false);
    assert_eq!(stream_id, 0x709);
    assert_eq!(&m.data()[..2], &[0x03, 9]);
    assert_eq!(m.get_data_length(), 2);
    let (_, visual) = ping_request(9, true);
    assert_eq!(visual.get_data_length(), 3);
    assert_eq!(&visual.data()[..3], &[0x03, 9, 1]);
}

#[test]
fn test_registry_update_from_config() {
    let props = vec![
        Property { id: 1, length: 2, data: vec![0x23, 0x45] },
        Property { id: 2, length: 4, data: b"Lead".to_vec() },
    ];
    let config = mission_control::config::Configuration::new(props);
    let (name, resolved_type, type_id) = registry_update_of(&config);
    assert_eq!(name.as_deref(), Some("Lead"));
    // No schema row is loaded, so the type resolves to the common
    // fallback name.
    assert_eq!(resolved_type.as_deref(), Some("unknown"));
    assert_eq!(type_id, Some(0x2345));
}

#[test]
fn test_outbound_admin_frames() {
    let m = frame::request_uid_cancel(0xdeadbeef);
    assert!(m.is_extended());
    assert_eq!(m.get_id(), 0xdeadbeef);
    assert_eq!(&m.data()[..1], &[0x03]);

    let m = frame::im_sign_in(0xdeadbeef);
    assert!(m.is_extended());
    assert_eq!(&m.data()[..1], &[0x01]);

    let m = frame::im_notify_id(0xdeadbeef, 7);
    assert!(m.is_extended());
    assert_eq!(m.get_data_length(), 2);
    assert_eq!(&m.data()[..2], &[0x02, 7]);

    let m = frame::sign_in();
    assert_eq!(m.get_id(), 0x700);
    assert_eq!(&m.data()[..1], &[0x01]);
}
