//! The loader's version gate and the plugin table, exercised with a
//! loop-back boundary: a handle whose "foreign" call runs the byte-level
//! entry point over an in-process tree.

use protocols::schema::SchemaIdentifier;
use protocols::transport::{Data, GenerateMessageInfo, ModuleInfo, Payload, RequestType, Transport, TransportError, VecModuleInfo};
use protocols::propagator::TransportNode;
use protocols::pluginhandler::{call_ffi_handle_request, ffi_handle_received_bytes, CommonFFI};
use protocols::pluginmanager::{select_boundary, BoundaryKind, Plugin, PluginManager};
use protocols::test_interface::{decode_test, Interface};
use protocols::transport_glue::TransportRequest;

fn schema(s: &str) -> SchemaIdentifier {
    SchemaIdentifier::new(s.to_string())
}

/// A boundary handle that carries the bytes into an in-process tree
/// instead of foreign code.
struct Loopback {
    node: TransportNode<Interface>,
}

impl CommonFFI for Loopback {
    fn call_ffi_raw(&self, bytes: &Vec<u8>) -> Result<Vec<u8>, TransportError> {
        Ok(ffi_handle_received_bytes(&self.node, bytes.as_slice()))
    }

    fn call_ffi_init(&self) -> Result<(), TransportError> {
        Ok(())
    }
}

fn loopback_plugin(s: &str) -> Plugin<Loopback> {
    let mut node: TransportNode<Interface> = TransportNode::new();
    node.add_interface(Interface::new(schema(s), format!("module {}", s)))
        .expect("module must register");
    Plugin { library: Loopback { node } }
}

fn infos(names: &[&str]) -> VecModuleInfo {
    VecModuleInfo::new(
        names.iter().map(|s| ModuleInfo::new(schema(s), s.to_string())).collect(),
    )
}

#[test]
fn version_gate_rejects_and_leaves_the_table_unchanged() {
    let mut manager: PluginManager<Loopback> = PluginManager::new();
    let err = manager
        .register_plugin(
            loopback_plugin("test"),
            &infos(&["test"]),
            &"0.2".to_string(),
            &"0.1".to_string(),
        )
        .expect_err("a version mismatch must fail the load");
    assert!(err.val.contains("0.2"));
    assert!(err.val.contains("0.1"));
    assert!(manager.lookup(&"test".to_string()).is_none());
    assert!(manager.map.is_empty());
    assert!(manager.plugins.is_empty());
}

#[test]
fn matching_version_registers_under_every_schema() {
    let mut manager: PluginManager<Loopback> = PluginManager::new();
    manager
        .register_plugin(
            loopback_plugin("multi"),
            &infos(&["alpha", "beta"]),
            &"0.1".to_string(),
            &"0.1".to_string(),
        )
        .expect("matching versions must load");
    assert_eq!(manager.lookup(&"alpha".to_string()), Some(0));
    assert_eq!(manager.lookup(&"beta".to_string()), Some(0));
    assert!(manager.lookup(&"gamma".to_string()).is_none());
}

#[test]
fn a_failed_load_does_not_affect_already_loaded_modules() {
    let mut manager: PluginManager<Loopback> = PluginManager::new();
    manager
        .register_plugin(loopback_plugin("ok"), &infos(&["ok"]), &"1".to_string(), &"1".to_string())
        .expect("first load works");
    manager
        .register_plugin(loopback_plugin("bad"), &infos(&["bad"]), &"2".to_string(), &"1".to_string())
        .expect_err("second load is version-gated");
    assert_eq!(manager.lookup(&"ok".to_string()), Some(0));
    assert!(manager.lookup(&"bad".to_string()).is_none());
}

#[test]
fn later_registration_shadows_an_earlier_schema() {
    let mut manager: PluginManager<Loopback> = PluginManager::new();
    manager
        .register_plugin(loopback_plugin("s"), &infos(&["s"]), &"1".to_string(), &"1".to_string())
        .expect("first load works");
    manager
        .register_plugin(loopback_plugin("s"), &infos(&["s"]), &"1".to_string(), &"1".to_string())
        .expect("second load works");
    assert_eq!(manager.lookup(&"s".to_string()), Some(1));
}

#[test]
fn generate_message_for_an_unknown_schema_names_the_miss() {
    let manager: PluginManager<Loopback> = PluginManager::new();
    let err = manager
        .generate_message(&"nowhere".to_string(), &"test".to_string())
        .expect_err("nothing is loaded");
    assert_eq!(err.val, "the requested schema is not loaded: nowhere");
}

#[test]
fn generate_message_travels_across_the_loopback_boundary() {
    let mut manager: PluginManager<Loopback> = PluginManager::new();
    manager
        .register_plugin(
            loopback_plugin("test"),
            &infos(&["test"]),
            &"0.1".to_string(),
            &"0.1".to_string(),
        )
        .expect("load works");
    let plugin = &manager.plugins[0];
    let info = GenerateMessageInfo {
        schema: schema("test"),
        template: "test".to_string(),
        args: vec![b"Test Name".to_vec(), b"Test Data".to_vec()],
    };
    let data = plugin.generate_message(info).expect("the module answers");
    assert_eq!(data.schema.val, "test");
    let record = decode_test(data.serialized.as_slice()).expect("a test record comes back");
    assert_eq!(record.name, "Test Name");
    assert_eq!(record.data, "Test Data");
}

/// A boundary handle that answers with garbage bytes.
struct Garbage;

impl CommonFFI for Garbage {
    fn call_ffi_raw(&self, _bytes: &Vec<u8>) -> Result<Vec<u8>, TransportError> {
        Ok(vec![9, 9, 9])
    }

    fn call_ffi_init(&self) -> Result<(), TransportError> {
        Ok(())
    }
}

#[test]
fn the_boundary_reports_undecodable_answers_as_errors() {
    let request = TransportRequest::create_GET_INFO(protocols::transport::Destination {
        schema: None,
    });
    assert!(call_ffi_handle_request(&Garbage, &request).is_err());
}

#[test]
fn the_boundary_is_selected_by_the_extension() {
    assert!(matches!(select_boundary("plugins/handler.wasm"), BoundaryKind::Sandboxed));
    assert!(matches!(select_boundary("plugins/handler.so"), BoundaryKind::Native));
    assert!(matches!(select_boundary("handler.dll"), BoundaryKind::Native));
    assert!(matches!(select_boundary("wasm"), BoundaryKind::Native));
    assert!(matches!(select_boundary(".wasm"), BoundaryKind::Sandboxed));
}

#[test]
fn a_plugin_describes_itself_across_the_boundary() {
    let plugin = loopback_plugin("self-described");
    let infos = plugin.get_info().expect("the description comes back");
    assert_eq!(infos.vec.len(), 1);
    assert_eq!(infos.vec[0].schema.val, "self-described");
}

#[test]
fn an_empty_schema_fails_the_load_and_registers_nothing() {
    let mut manager: PluginManager<Loopback> = PluginManager::new();
    let err = manager
        .register_plugin(
            loopback_plugin("ok"),
            &infos(&["ok", ""]),
            &"1".to_string(),
            &"1".to_string(),
        )
        .expect_err("an empty schema is invalid");
    assert!(err.val.contains("empty schema"));
    assert!(manager.lookup(&"ok".to_string()).is_none());
    assert!(manager.map.is_empty());
    assert!(manager.plugins.is_empty());
}

#[test]
fn table_dispatch_wraps_every_failure_as_an_error_envelope() {
    let mut manager: PluginManager<Loopback> = PluginManager::new();
    manager
        .register_plugin(
            loopback_plugin("test"),
            &infos(&["test"]),
            &"1".to_string(),
            &"1".to_string(),
        )
        .expect("load works");

    // No destination at all.
    let no_dest = Transport {
        request_type: RequestType::NONE,
        destination: None,
        payload: Payload::error(protocols::transport::TransportError::new("x".to_string())),
    };
    let results = manager.transport_data(&no_dest);
    assert_eq!(results.len(), 1);
    match &results[0].payload {
        Payload::error(e) => assert!(e.val.contains("no destination schema")),
        other => panic!("expected an error envelope, got {:?}", other),
    }

    // A destination nobody registered.
    let miss = TransportRequest::create_HANDLE_TRUSTED(Data::new(schema("other"), vec![1]));
    let results = manager.transport_data(&miss);
    assert_eq!(results.len(), 1);
    match &results[0].payload {
        Payload::error(e) => {
            assert!(e.val.contains("no loaded module supports the destination schema other"))
        }
        other => panic!("expected an error envelope, got {:?}", other),
    }

    // A destination the loaded module serves: the call goes through and
    // the module's answer comes back as data.
    let hit = TransportRequest::create_HANDLE_TRUSTED(Data::new(schema("test"), vec![1]));
    let results = manager.transport_data(&hit);
    assert_eq!(results.len(), 1);
    assert!(matches!(&results[0].payload, Payload::vecdata(_)));
}

#[test]
fn table_dispatch_reports_a_failed_boundary_call_as_data() {
    let mut manager: PluginManager<Garbage> = PluginManager::new();
    manager
        .register_plugin(
            Plugin { library: Garbage },
            &infos(&["g"]),
            &"1".to_string(),
            &"1".to_string(),
        )
        .expect("load works");
    let request: Transport = TransportRequest::create_HANDLE_TRUSTED(Data::new(
        schema("g"),
        vec![1],
    ));
    let results = manager.transport_data(&request);
    assert_eq!(results.len(), 1);
    match &results[0].payload {
        Payload::error(e) => assert!(e.val.contains("Return Transport Error")),
        other => panic!("expected an error envelope, got {:?}", other),
    }
}
