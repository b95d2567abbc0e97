//! Routing through the propagation tree: the matching rule, broadcast
//! against unicast, the concrete test-protocol scenario, the byte-level
//! boundary entry, and the cascade runner.

use protocols::schema::SchemaIdentifier;
use protocols::transport::{Destination, Data, GenerateMessageInfo, Payload, RpcData};
use protocols::transport_glue;
use protocols::propagator::TransportNode;
use protocols::test_interface::{encode_test, Interface, Test};
use protocols::root_interface::{generate_root_message, RootInterface};
use protocols::commonlibrary::StandardModule;
use protocols::transporter::RootTransporter;
use protocols::pluginhandler::ffi_handle_received_bytes;
use protocols::codec::decode_transports;

fn schema(s: &str) -> SchemaIdentifier {
    SchemaIdentifier::new(s.to_string())
}

fn test_module(s: &str) -> Interface {
    Interface::new(schema(s), format!("module {}", s))
}

fn tree_a_b_with_child_c() -> TransportNode<Interface> {
    let mut root: TransportNode<Interface> = TransportNode::new();
    root.add_interface(test_module("a")).expect("module a must register");
    root.add_interface(test_module("b")).expect("module b must register");
    let mut child: TransportNode<Interface> = TransportNode::new();
    child.add_interface(test_module("c")).expect("module c must register");
    root.add_node(child);
    root
}

#[test]
fn matching_rule_on_concrete_values() {
    let s = schema("schema-x");
    assert!(protocols::schema::matches(&None, &s));
    assert!(protocols::schema::matches(&Some(schema("schema-x")), &s));
    assert!(!protocols::schema::matches(&Some(schema("schema-y")), &s));
    assert!(!protocols::schema::matches(&Some(schema("")), &s));
    assert!(protocols::schema::matches(&Some(schema("")), &schema("")));
}

#[test]
fn get_appropriate_modules_selects_by_destination() {
    let tree = tree_a_b_with_child_c();
    let broadcast = TransportNode::get_appropriate_modules(
        &tree,
        &transport_glue::TransportRequest::create_GET_INFO(Destination { schema: None }),
    );
    let names: Vec<&str> = broadcast.iter().map(|s| s.val.as_str()).collect();
    assert_eq!(names, vec!["a", "b"]);

    let unicast = TransportNode::get_appropriate_modules(
        &tree,
        &transport_glue::TransportRequest::create_GET_INFO(Destination {
            schema: Some(schema("b")),
        }),
    );
    let names: Vec<&str> = unicast.iter().map(|s| s.val.as_str()).collect();
    assert_eq!(names, vec!["b"]);
}

#[test]
fn broadcast_reaches_every_module_in_the_tree() {
    let tree = tree_a_b_with_child_c();
    let (infos, log) = transport_glue::get_info(&tree, Destination { schema: None });
    let names: Vec<&str> = infos.vec.iter().map(|m| m.schema.val.as_str()).collect();
    assert_eq!(names, vec!["a", "b", "c"]);
    assert!(log.is_empty());
}

#[test]
fn unicast_reaches_only_the_equal_schema() {
    let tree = tree_a_b_with_child_c();
    let (infos, log) = transport_glue::get_info(&tree, Destination { schema: Some(schema("c")) });
    let names: Vec<&str> = infos.vec.iter().map(|m| m.schema.val.as_str()).collect();
    assert_eq!(names, vec!["c"]);
    assert!(log.is_empty());

    let (infos, log) = transport_glue::get_info(
        &tree,
        Destination { schema: Some(schema("nobody")) },
    );
    assert!(infos.vec.is_empty());
    assert!(log.is_empty());
}

#[test]
fn empty_node_answers_with_nothing() {
    let tree: TransportNode<Interface> = TransportNode::new();
    let (infos, log) = transport_glue::get_info(&tree, Destination { schema: None });
    assert!(infos.vec.is_empty());
    assert!(log.is_empty());
}

#[test]
fn test_scenario_client_rpc_is_invoked() {
    let mut tree: TransportNode<Interface> = TransportNode::new();
    tree.add_interface(test_module("test")).expect("module must register");

    let arg = encode_test(&Test::new("Test Name".to_string(), "Test Data".to_string()));
    let rpc = RpcData::new("ClientRPC/receive_test".to_string(), schema("test"), arg.clone());
    let (follow_ups, log) = transport_glue::receive_rpc_as_client(&tree, rpc);
    assert!(follow_ups.vec.is_empty());
    assert!(log.is_empty());

    // The same call aimed at another schema reaches nobody at all.
    let rpc_elsewhere = RpcData::new("ClientRPC/receive_test".to_string(), schema("other"), arg);
    let (follow_ups, log) = transport_glue::receive_rpc_as_client(&tree, rpc_elsewhere);
    assert!(follow_ups.vec.is_empty());
    assert!(log.is_empty());
}

#[test]
fn unknown_method_is_an_error_naming_it() {
    let mut tree: TransportNode<Interface> = TransportNode::new();
    tree.add_interface(test_module("test")).expect("module must register");
    let rpc = RpcData::new("ClientRPC/no_such".to_string(), schema("test"), vec![]);
    let (follow_ups, log) = transport_glue::receive_rpc_as_client(&tree, rpc);
    assert!(follow_ups.vec.is_empty());
    assert_eq!(log.len(), 1);
    assert!(log[0].val.contains("unknown method ClientRPC/no_such"));
}

#[test]
fn generate_message_builds_the_template() {
    let mut tree: TransportNode<Interface> = TransportNode::new();
    tree.add_interface(test_module("test")).expect("module must register");
    let info = GenerateMessageInfo {
        schema: schema("test"),
        template: "test".to_string(),
        args: vec![b"Test Name".to_vec(), b"Test Data".to_vec()],
    };
    let (result, log) = transport_glue::generate_message(&tree, info);
    let data = result.expect("one module answers");
    assert_eq!(data.schema.val, "test");
    let expected = encode_test(&Test::new("Test Name".to_string(), "Test Data".to_string()));
    assert_eq!(data.serialized, expected);
    assert!(log.is_empty());
}

#[test]
fn unknown_template_is_a_hard_error_with_a_logged_reason() {
    let mut tree: TransportNode<Interface> = TransportNode::new();
    tree.add_interface(test_module("test")).expect("module must register");
    let info = GenerateMessageInfo {
        schema: schema("test"),
        template: "no-such-template".to_string(),
        args: vec![],
    };
    let (result, log) = transport_glue::generate_message(&tree, info);
    let err = result.expect_err("no module answered");
    assert_eq!(err.val, "no response for request for target Data");
    assert_eq!(log.len(), 1);
    assert!(log[0].val.contains("unknown template no-such-template"));
}

#[test]
fn ffi_bytes_round_trip_through_the_tree() {
    let mut tree: TransportNode<Interface> = TransportNode::new();
    tree.add_interface(test_module("test")).expect("module must register");
    let request = transport_glue::TransportRequest::create_GET_INFO(Destination { schema: None });
    let request_bytes = protocols::codec::encode_transport(&request);
    let response_bytes = ffi_handle_received_bytes(&tree, request_bytes.as_slice());
    let results = decode_transports(response_bytes.as_slice()).expect("response must decode");
    assert_eq!(results.len(), 1);
    match &results[0].payload {
        Payload::vecmoduleinfo(infos) => {
            assert_eq!(infos.vec.len(), 1);
            assert_eq!(infos.vec[0].schema.val, "test");
        },
        other => panic!("expected a module info aggregate, got {:?}", other),
    }
}

#[test]
fn ffi_garbage_comes_back_as_one_error_envelope() {
    let tree: TransportNode<Interface> = TransportNode::new();
    let response_bytes = ffi_handle_received_bytes(&tree, &[1, 2, 3, 4]);
    let results = decode_transports(response_bytes.as_slice()).expect("response must decode");
    assert_eq!(results.len(), 1);
    match &results[0].payload {
        Payload::error(e) => assert!(e.val.contains("cannot parse data")),
        other => panic!("expected an error envelope, got {:?}", other),
    }
}

#[test]
fn cascade_unwraps_the_root_message_and_drains() {
    // The root-message handler lives beside the test-protocol module,
    // so both kinds of messages find a handler in one tree.
    let mut with_root: TransportNode<StandardModule> = TransportNode::new();
    with_root.add_interface(StandardModule::Root(RootInterface::new(schema("root"))))
        .expect("root module must register");
    with_root.add_interface(StandardModule::Test(test_module("test")))
        .expect("test module must register");
    let runner = RootTransporter { node: with_root };

    let inner = encode_test(&Test::new("Test Name".to_string(), "Test Data".to_string()));
    let wrapped = generate_root_message("test", inner);
    let initial = vec![Data::new(schema("root"), wrapped)];

    let (leftover, log) = runner.exec(initial.clone(), 10);
    assert!(leftover.is_empty());
    assert!(log.is_empty());

    // One unit of fuel dispatches the root message and leaves its
    // follow-up queued.
    let (leftover, log) = runner.exec(initial, 1);
    assert_eq!(leftover.len(), 1);
    assert_eq!(leftover[0].schema.val, "test");
    assert!(log.is_empty());
}

#[test]
fn plugin_handler_wraps_the_tree_behind_bytes() {
    let mut handler: protocols::PluginHandler<Interface> = protocols::PluginHandler::new();
    handler.node.add_interface(test_module("test")).expect("module must register");
    let request = transport_glue::TransportRequest::create_GET_INFO(Destination { schema: None });
    let request_bytes = protocols::codec::encode_transport(&request);
    let response = handler.handle_received_bytes(request_bytes.as_slice());
    let results = decode_transports(response.as_slice()).expect("response must decode");
    assert_eq!(results.len(), 1);
}

#[test]
fn two_modules_answering_one_generation_keep_the_first_and_warn() {
    // Within one node the module list is a map, so the duplicate module
    // lives in a child node: duplicate plugins for one schema can always
    // appear across the tree.
    let mut tree: TransportNode<Interface> = TransportNode::new();
    tree.add_interface(Interface::new(schema("dup"), "first module".to_string()))
        .expect("first module must register");
    let mut child: TransportNode<Interface> = TransportNode::new();
    child.add_interface(Interface::new(schema("dup"), "second module".to_string()))
        .expect("second module must register");
    tree.add_node(child);
    let info = GenerateMessageInfo {
        schema: schema("dup"),
        template: "test".to_string(),
        args: vec![b"n".to_vec(), b"d".to_vec()],
    };
    let (result, log) = transport_glue::generate_message(&tree, info);
    let data = result.expect("an answer is kept despite the ambiguity");
    assert_eq!(data.schema.val, "dup");
    assert_eq!(log.len(), 1);
    assert!(log[0].val.contains("multiple responses"));
}

#[test]
fn registering_a_schema_again_replaces_the_earlier_module() {
    let mut tree: TransportNode<Interface> = TransportNode::new();
    tree.add_interface(Interface::new(schema("s"), "earlier".to_string()))
        .expect("first module must register");
    tree.add_interface(Interface::new(schema("s"), "later".to_string()))
        .expect("replacement must register");
    let (infos, log) = transport_glue::get_info(&tree, Destination { schema: None });
    let names: Vec<&str> = infos.vec.iter().map(|m| m.display_name.as_str()).collect();
    assert_eq!(names, vec!["later"]);
    assert!(log.is_empty());
}

#[test]
fn a_module_with_an_empty_schema_is_not_added() {
    let mut tree: TransportNode<Interface> = TransportNode::new();
    let err = tree
        .add_interface(Interface::new(schema(""), "nameless".to_string()))
        .expect_err("an empty schema is invalid");
    assert!(err.val.contains("empty schema"));
    let (infos, _log) = transport_glue::get_info(&tree, Destination { schema: None });
    assert!(infos.vec.is_empty());
}
