//! Wire-format round trips: every payload variant encodes and decodes
//! back to an equal envelope, unknown request kinds still decode, and
//! malformed input is rejected.

use protocols::schema::SchemaIdentifier;
use protocols::transport::{Destination, Data, GenerateMessageInfo, ModuleInfo, Payload, RequestType, RpcData, Transport, TransportError, VecData, VecModuleInfo, VecRpcData};
use protocols::transport_glue::TransportRequest;
use protocols::codec::{decode_transport, decode_transports, encode_transport, encode_transports};

fn schema(s: &str) -> SchemaIdentifier {
    SchemaIdentifier::new(s.to_string())
}

fn round_trip(t: Transport) {
    let bytes = encode_transport(&t);
    let back = decode_transport(bytes.as_slice()).expect("round trip must decode");
    assert_eq!(back, t);
}

#[test]
fn round_trip_destination_broadcast() {
    round_trip(TransportRequest::create_GET_INFO(Destination { schema: None }));
}

#[test]
fn round_trip_destination_unicast() {
    round_trip(TransportRequest::create_GET_INFO(Destination { schema: Some(schema("s1")) }));
}

#[test]
fn round_trip_generate_message_info() {
    let info = GenerateMessageInfo {
        schema: schema("s2"),
        template: "test".to_string(),
        args: vec![vec![1, 2, 3], vec![], vec![255]],
    };
    round_trip(TransportRequest::create_GENERATE_MESSAGE(info));
}

#[test]
fn round_trip_data() {
    let data = Data::new(schema("s3"), vec![9, 8, 7]);
    round_trip(TransportRequest::create_HANDLE_TRUSTED(data));
}

#[test]
fn round_trip_rpc_variants() {
    let rpc = RpcData::new("ClientRPC/receive_test".to_string(), schema("s4"), vec![4, 2]);
    round_trip(TransportRequest::create_RECEIVE_TRUSTED_RPC(rpc.clone()));
    round_trip(TransportRequest::create_RECEIVE_SERVER_RPC(rpc.clone()));
    round_trip(TransportRequest::create_RECEIVE_UNTRUSTED_RPC(rpc));
}

#[test]
fn round_trip_result_payloads() {
    let info = ModuleInfo::new(schema("a"), "Alpha".to_string());
    round_trip(TransportRequest::create_Transport_result(Payload::vecmoduleinfo(
        VecModuleInfo::new(vec![info.clone(), info]),
    )));
    round_trip(TransportRequest::create_Transport_result(Payload::vecdata(VecData::new(vec![
        Data::new(schema("b"), vec![1]),
        Data::new(schema("c"), vec![]),
    ]))));
    round_trip(TransportRequest::create_Transport_result(Payload::vecrpcdata(VecRpcData::new(
        vec![RpcData::new("Svc/m".to_string(), schema("d"), vec![0])],
    ))));
    round_trip(TransportRequest::create_Transport_result(Payload::data(Data::new(
        schema("e"),
        vec![5, 5],
    ))));
    round_trip(TransportRequest::create_Transport_result(Payload::error(TransportError::new(
        "something broke".to_string(),
    ))));
}

#[test]
fn round_trip_unicode_schema() {
    let data = Data::new(schema("sch\u{00e9}ma/\u{4e16}\u{754c}"), vec![0, 1]);
    round_trip(TransportRequest::create_HANDLE_TRUSTED(data));
}

#[test]
fn unknown_request_kind_still_decodes() {
    let t = Transport {
        request_type: RequestType::UNKNOWN(42),
        destination: None,
        payload: Payload::error(TransportError::new("future payload".to_string())),
    };
    round_trip(t);
}

#[test]
fn mismatched_kind_and_payload_is_a_decode_failure() {
    let t = Transport {
        request_type: RequestType::GET_INFO,
        destination: None,
        payload: Payload::data(Data::new(schema("x"), vec![1])),
    };
    let bytes = encode_transport(&t);
    assert!(decode_transport(bytes.as_slice()).is_err());
}

#[test]
fn trailing_bytes_are_a_decode_failure() {
    let t = TransportRequest::create_GET_INFO(Destination { schema: None });
    let mut bytes = encode_transport(&t);
    bytes.push(0);
    assert!(decode_transport(bytes.as_slice()).is_err());
}

#[test]
fn garbage_is_a_decode_failure() {
    assert!(decode_transport(&[7, 1, 200]).is_err());
    assert!(decode_transport(&[]).is_err());
}

#[test]
fn round_trip_result_collection() {
    let ts = vec![
        TransportRequest::create_Transport_result(Payload::error(TransportError::new(
            "e".to_string(),
        ))),
        TransportRequest::create_HANDLE_TRUSTED(Data::new(schema("s"), vec![1, 2])),
    ];
    let bytes = encode_transports(&ts);
    let back = decode_transports(bytes.as_slice()).expect("collection must decode");
    assert_eq!(back, ts);
}

#[test]
fn result_collection_rejects_truncation() {
    let ts = vec![TransportRequest::create_HANDLE_TRUSTED(Data::new(schema("s"), vec![1, 2]))];
    let mut bytes = encode_transports(&ts);
    bytes.pop();
    assert!(decode_transports(bytes.as_slice()).is_err());
}
