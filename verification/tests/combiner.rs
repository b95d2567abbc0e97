//! The result combiner: error results are filtered into the log, the
//! typed aggregates concatenate what matches, and the single-value
//! target keeps exactly one answer.

use protocols::schema::SchemaIdentifier;
use protocols::transport::{Data, ModuleInfo, Payload, RpcData, Transport, TransportError, VecData, VecModuleInfo, VecRpcData};
use protocols::transportresponse::{filter_some_and_print_errors, TransportCombiner, TransportResponse};

fn schema(s: &str) -> SchemaIdentifier {
    SchemaIdentifier::new(s.to_string())
}

fn data_result(s: &str, bytes: Vec<u8>) -> Transport {
    TransportResponse::create(Payload::vecdata(VecData::new(vec![Data::new(schema(s), bytes)])))
}

#[test]
fn error_isolation_keeps_the_others_and_logs_the_error() {
    let results = vec![
        data_result("a", vec![1]),
        TransportResponse::create_TransportError("module b blew up"),
        data_result("c", vec![3]),
    ];
    let (merged, log) = TransportCombiner::combine_to_VecData(results);
    let kept: Vec<&str> = merged.vec.iter().map(|d| d.schema.val.as_str()).collect();
    assert_eq!(kept, vec!["a", "c"]);
    assert_eq!(log.len(), 1);
    assert_eq!(log[0].val, "module b blew up");
}

#[test]
fn filter_splits_errors_from_kept_payloads() {
    let results = vec![
        TransportResponse::create_TransportError("first failure"),
        data_result("a", vec![1]),
        TransportResponse::create_TransportError("second failure"),
    ];
    let (kept, errors) = filter_some_and_print_errors(results);
    assert_eq!(kept.len(), 1);
    assert!(matches!(kept[0], Payload::vecdata(_)));
    let texts: Vec<&str> = errors.iter().map(|e| e.val.as_str()).collect();
    assert_eq!(texts, vec!["first failure", "second failure"]);
}

#[test]
fn module_infos_concatenate_in_order() {
    let results = vec![
        TransportResponse::create(Payload::vecmoduleinfo(VecModuleInfo::new(vec![
            ModuleInfo::new(schema("a"), "Alpha".to_string()),
        ]))),
        TransportResponse::create(Payload::vecmoduleinfo(VecModuleInfo::new(vec![
            ModuleInfo::new(schema("b"), "Beta".to_string()),
            ModuleInfo::new(schema("c"), "Gamma".to_string()),
        ]))),
    ];
    let (merged, log) = TransportCombiner::combine_to_VecModuleInfo(results);
    let names: Vec<&str> = merged.vec.iter().map(|m| m.display_name.as_str()).collect();
    assert_eq!(names, vec!["Alpha", "Beta", "Gamma"]);
    assert!(log.is_empty());
}

#[test]
fn rpc_results_concatenate_and_skip_foreign_variants() {
    let results = vec![
        TransportResponse::create(Payload::vecrpcdata(VecRpcData::new(vec![RpcData::new(
            "Svc/one".to_string(),
            schema("a"),
            vec![],
        )]))),
        data_result("ignored", vec![9]),
        TransportResponse::create(Payload::vecrpcdata(VecRpcData::new(vec![RpcData::new(
            "Svc/two".to_string(),
            schema("b"),
            vec![],
        )]))),
    ];
    let (merged, log) = TransportCombiner::combine_to_VecRpcData(results);
    let methods: Vec<&str> = merged.vec.iter().map(|r| r.method_name.as_str()).collect();
    assert_eq!(methods, vec!["Svc/one", "Svc/two"]);
    assert!(log.is_empty());
}

#[test]
fn single_value_no_answer_is_a_hard_error() {
    let (result, log) = TransportCombiner::combine_to_Data(vec![]);
    let err = result.expect_err("nobody answered");
    assert_eq!(err.val, "no response for request for target Data");
    assert!(log.is_empty());
}

#[test]
fn single_value_ambiguity_keeps_the_first_and_warns() {
    let results = vec![
        TransportResponse::create(Payload::data(Data::new(schema("first"), vec![1]))),
        TransportResponse::create(Payload::data(Data::new(schema("second"), vec![2]))),
    ];
    let (result, log) = TransportCombiner::combine_to_Data(results);
    let data = result.expect("an answer is kept");
    assert_eq!(data.schema.val, "first");
    assert_eq!(data.serialized, vec![1]);
    assert_eq!(log.len(), 1);
    assert!(log[0].val.contains("multiple responses"));
}

#[test]
fn single_value_one_answer_is_clean() {
    let results = vec![TransportResponse::create(Payload::data(Data::new(
        schema("only"),
        vec![7],
    )))];
    let (result, log) = TransportCombiner::combine_to_Data(results);
    let data = result.expect("the answer is kept");
    assert_eq!(data.schema.val, "only");
    assert!(log.is_empty());
}

#[test]
fn errors_count_toward_the_log_even_for_single_value() {
    let results = vec![
        TransportResponse::create_TransportError("broken module"),
        TransportResponse::create(Payload::data(Data::new(schema("only"), vec![7]))),
    ];
    let (result, log) = TransportCombiner::combine_to_Data(results);
    assert!(result.is_ok());
    assert_eq!(log.len(), 1);
    assert_eq!(log[0].val, "broken module");
}
