//! The buffer-rendezvous table of the sandboxed boundary: identifiers
//! are single-use, reuse of a live identifier is refused, and allocation
//! draws fresh random identifiers.

use protocols::wasmhandler::{call_ffi_handle_request_wasm, RendezvousTable, WasmGuest};
use protocols::propagator::TransportNode;
use protocols::pluginhandler::ffi_handle_received_bytes;
use protocols::schema::SchemaIdentifier;
use protocols::test_interface::Interface;
use protocols::transport::{Destination, Payload, TransportError};
use protocols::transport_glue::TransportRequest;

#[test]
fn parked_bytes_come_back_once() {
    let mut table = RendezvousTable::new();
    assert!(table.put(7, vec![1, 2, 3]));
    assert!(table.contains(7));
    assert_eq!(table.take(7), Some(vec![1, 2, 3]));
    assert!(!table.contains(7));
    assert_eq!(table.take(7), None);
}

#[test]
fn reusing_a_live_identifier_is_refused_unchanged() {
    let mut table = RendezvousTable::new();
    assert!(table.put(1, vec![10]));
    assert!(!table.put(1, vec![20]));
    assert_eq!(table.take(1), Some(vec![10]));
}

#[test]
fn identifiers_do_not_interfere() {
    let mut table = RendezvousTable::new();
    assert!(table.put(1, vec![1]));
    assert!(table.put(2, vec![2]));
    assert!(table.put(-3, vec![3]));
    assert_eq!(table.take(2), Some(vec![2]));
    assert_eq!(table.take(1), Some(vec![1]));
    assert_eq!(table.take(-3), Some(vec![3]));
}

#[test]
fn a_released_identifier_can_be_used_again() {
    let mut table = RendezvousTable::new();
    assert!(table.put(5, vec![1]));
    assert_eq!(table.take(5), Some(vec![1]));
    assert!(table.put(5, vec![2]));
    assert_eq!(table.take(5), Some(vec![2]));
}

#[test]
fn allocation_parks_the_bytes_under_a_fresh_identifier() {
    let mut table = RendezvousTable::new();
    let id = table.allocate_identifier(vec![42, 43], 8).expect("an identifier is drawn");
    assert!(table.contains(id));
    assert_eq!(table.take(id), Some(vec![42, 43]));
}

#[test]
fn allocation_without_attempts_fails_cleanly() {
    let mut table = RendezvousTable::new();
    assert!(table.allocate_identifier(vec![1], 0).is_err());
    assert_eq!(table.len(), 0);
}

/// A guest that answers in-process: it pulls its argument out of the
/// argument table, runs it through a tree, and parks the answer in the
/// result table under its own identifier.
struct LoopbackGuest {
    node: TransportNode<Interface>,
}

impl WasmGuest for LoopbackGuest {
    fn handle_request_ffi_wasm(
        &self,
        args: &mut RendezvousTable,
        rets: &mut RendezvousTable,
        identifier: i32,
        length: usize,
    ) -> Result<i32, TransportError> {
        let bytes = match args.take(identifier) {
            Some(b) => b,
            None => return Err(TransportError::new("no argument parked".to_string())),
        };
        assert_eq!(bytes.len(), length);
        let answer = ffi_handle_received_bytes(&self.node, bytes.as_slice());
        let result_identifier = identifier.wrapping_add(1);
        if !rets.put(result_identifier, answer) {
            return Err(TransportError::new("result identifier already live".to_string()));
        }
        Ok(result_identifier)
    }
}

#[test]
fn sandboxed_call_round_trips_and_cleans_the_tables() {
    let mut node: TransportNode<Interface> = TransportNode::new();
    node.add_interface(Interface::new(
        SchemaIdentifier::new("test".to_string()),
        "test module".to_string(),
    ))
    .expect("module must register");
    let guest = LoopbackGuest { node };

    let mut args = RendezvousTable::new();
    let mut rets = RendezvousTable::new();
    let request = TransportRequest::create_GET_INFO(Destination { schema: None });
    let results = call_ffi_handle_request_wasm(&guest, &mut args, &mut rets, &request, 8)
        .expect("the loop-back call answers");
    assert_eq!(results.len(), 1);
    match &results[0].payload {
        Payload::vecmoduleinfo(infos) => assert_eq!(infos.vec[0].schema.val, "test"),
        other => panic!("expected module info, got {:?}", other),
    }
    // Both identifiers are single-use: nothing stays parked.
    assert_eq!(args.len(), 0);
    assert_eq!(rets.len(), 0);
}

/// A guest that answers with an identifier under which nothing is
/// parked: the protocol violation of the design notes.
struct LyingGuest;

impl WasmGuest for LyingGuest {
    fn handle_request_ffi_wasm(
        &self,
        _args: &mut RendezvousTable,
        _rets: &mut RendezvousTable,
        identifier: i32,
        _length: usize,
    ) -> Result<i32, TransportError> {
        Ok(identifier.wrapping_add(7))
    }
}

#[test]
fn a_guest_without_a_result_is_an_error_and_the_argument_is_cleaned() {
    let guest = LyingGuest;
    let mut args = RendezvousTable::new();
    let mut rets = RendezvousTable::new();
    let request = TransportRequest::create_GET_INFO(Destination { schema: None });
    let err = call_ffi_handle_request_wasm(&guest, &mut args, &mut rets, &request, 8)
        .expect_err("no result was parked");
    assert!(err.val.contains("holds no result"));
    assert_eq!(args.len(), 0);
    assert_eq!(rets.len(), 0);
}
