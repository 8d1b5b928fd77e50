//! The module registry, the stream manager, and the ring buffer.

use mission_control::a3_modules::A3Modules;
use mission_control::error::ErrorType;
use mission_control::queue::Queue;
use mission_control::streams::{ErrorType as StreamErrorType, StreamManager};

#[test]
fn test_get_or_create_is_idempotent() {
    let mut modules = A3Modules::new();
    let id = modules.get_or_create_id_by_uid(0xdeadbeef);
    assert_eq!(id, 1);
    let again = modules.get_or_create_id_by_uid(0xdeadbeef);
    assert_eq!(again, 1);
    let other = modules.get_or_create_id_by_uid(0x1acebeef);
    assert_eq!(other, 2);
    let list = modules.list();
    assert_eq!(list.len(), 2);
    assert_eq!((list[0].uid, list[0].id), (0xdeadbeef, 1));
    assert_eq!((list[1].uid, list[1].id), (0x1acebeef, 2));
}

#[test]
fn test_register_overwrites_both_keys() {
    let mut modules = A3Modules::new();
    modules.register(0x11111111, 1);
    modules.register(0x22222222, 2);
    // Rebinding the first uid to the second id drops both stale entries.
    modules.register(0x11111111, 2);
    let list = modules.list();
    assert_eq!(list.len(), 1);
    assert_eq!((list[0].uid, list[0].id), (0x11111111, 2));
    // The freed id is handed out again.
    assert_eq!(modules.get_or_create_id_by_uid(0x33333333), 1);
}

#[test]
fn test_register_refuses_reserved_id() {
    let mut modules = A3Modules::new();
    modules.register(0x12345678, 0);
    assert!(modules.list().is_empty());
}

#[test]
fn test_deregister_removes_both_entries() {
    let mut modules = A3Modules::new();
    modules.register(0xdeadbeef, 5);
    modules.deregister(0xdeadbeef);
    assert!(modules.list().is_empty());
    assert!(modules.get_by_id(5).is_err());
    // Deregistering a stranger changes nothing.
    modules.register(0xdeadbeef, 5);
    modules.deregister(0x0badf00d);
    assert_eq!(modules.list().len(), 1);
}

#[test]
fn test_id_pool_exhaustion_returns_zero() {
    let mut modules = A3Modules::new();
    for k in 0..255u32 {
        let id = modules.get_or_create_id_by_uid(0x1000 + k);
        assert_eq!(id as u32, k + 1);
    }
    // Every id in [1, 255] is taken: the sentinel comes back and the
    // registry stays as it was.
    assert_eq!(modules.get_or_create_id_by_uid(0xffff0000), 0);
    assert_eq!(modules.list().len(), 255);
}

#[test]
fn test_get_by_id_miss() {
    let modules = A3Modules::new();
    let e = modules.get_by_id(9).unwrap_err();
    assert!(matches!(e.error_type, ErrorType::A3ModuleNotFound));
    assert_eq!(e.message, "No such module ID: 9");
}

#[test]
fn test_set_properties_updates_both_views() {
    let mut modules = A3Modules::new();
    modules.register(0xdeadbeef, 3);
    modules.set_properties(3, &Some("Lead".to_string()), &None, &Some(0x2345));
    let m = modules.get_by_id(3).unwrap();
    assert_eq!(m.name.as_deref(), Some("Lead"));
    assert_eq!(m.module_type, None);
    assert_eq!(m.module_type_id, Some(0x2345));
    // None preserves, Some overwrites.
    modules.set_properties(3, &None, &Some("test-module".to_string()), &None);
    let m = modules.get_by_id(3).unwrap();
    assert_eq!(m.name.as_deref(), Some("Lead"));
    assert_eq!(m.module_type.as_deref(), Some("test-module"));
    assert_eq!(m.module_type_id, Some(0x2345));
}

#[test]
fn test_stream_busy_until_terminated() {
    let mut streams: StreamManager<u32> = StreamManager::new();
    assert!(streams.start_stream(0x705, 41).is_ok());
    let e = streams.start_stream(0x705, 42).unwrap_err();
    assert!(matches!(e.error_type, StreamErrorType::Busy));
    assert!(streams.terminate(0x705).is_ok());
    assert!(streams.start_stream(0x705, 43).is_ok());
}

#[test]
fn test_stream_get_and_continue() {
    let mut streams: StreamManager<u32> = StreamManager::new();
    let miss = streams.get(0x705).unwrap_err();
    assert!(matches!(miss.error_type, StreamErrorType::NoSuchStream));

    streams.start_stream(0x705, 7).unwrap();
    assert_eq!(streams.get(0x705).unwrap(), 7);
    let stale = streams.get(0x705).unwrap_err();
    assert!(matches!(stale.error_type, StreamErrorType::Stale));

    streams.continue_stream(0x705, 8).unwrap();
    assert_eq!(streams.get(0x705).unwrap(), 8);

    let gone = streams.continue_stream(0x999, 9).unwrap_err();
    assert!(matches!(gone.error_type, StreamErrorType::NoSuchStream));
    let gone = streams.terminate(0x999).unwrap_err();
    assert!(matches!(gone.error_type, StreamErrorType::NoSuchStream));
}

#[test]
fn test_create_wire_returns_smallest_free() {
    let mut streams: StreamManager<u32> = StreamManager::new();
    assert_eq!(streams.create_wire(1).unwrap(), 0x680);
    assert_eq!(streams.create_wire(2).unwrap(), 0x681);
    assert_eq!(streams.create_wire(3).unwrap(), 0x682);
    // Freeing a low wire makes it the next pick again.
    streams.terminate(0x680).unwrap();
    assert_eq!(streams.create_wire(4).unwrap(), 0x680);
}

#[test]
fn test_create_wire_pool_exhaustion() {
    let mut streams: StreamManager<u8> = StreamManager::new();
    for k in 0..64u32 {
        assert_eq!(streams.create_wire(0).unwrap(), 0x680 + k);
    }
    let e = streams.create_wire(0).unwrap_err();
    assert!(matches!(e.error_type, StreamErrorType::Busy));
}

#[test]
fn test_queue_round_trip() {
    let mut q: Queue<u32> = Queue::new();
    assert!(q.is_empty());
    assert_eq!(q.remove(), None);
    q.add(10);
    q.add(20);
    assert!(!q.is_empty());
    assert_eq!(q.remove(), Some(10));
    assert_eq!(q.remove(), Some(20));
    assert!(q.is_empty());
    // Wrap around the ring a few times.
    for round in 0..5u32 {
        for k in 0..15u32 {
            q.add(round * 100 + k);
        }
        for k in 0..15u32 {
            assert_eq!(q.remove(), Some(round * 100 + k));
        }
    }
    assert!(q.is_empty());
}
