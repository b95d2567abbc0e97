//! The computing half of the build helpers: name derivation and the
//! generated file texts.

use protocols::buildfunctions::{add_to_schema_urls_rs, base_name, create_schema_urls_rs, get_protobuf_generated_filename, get_schema_urls_rs_path, replace_all, replace_schema_url_comment_with_hash_constant};

#[test]
fn base_name_strips_directories_and_the_extension() {
    assert_eq!(base_name("schema/test.proto"), "test");
    assert_eq!(base_name("a/b/c/transport.proto"), "transport");
    assert_eq!(base_name("noext"), "noext");
    assert_eq!(base_name("dir.with.dots/plain"), "plain");
    assert_eq!(base_name("archive.tar.gz"), "archive.tar");
    assert_eq!(base_name(".hidden"), ".hidden");
}

#[test]
fn generated_filename_follows_the_base_name() {
    assert_eq!(
        get_protobuf_generated_filename("schema/test.proto"),
        "src/autogen_protobuf/test.rs"
    );
    assert_eq!(get_schema_urls_rs_path(), "src/autogen_protobuf/schema_urls.rs");
}

#[test]
fn replace_all_replaces_every_occurrence() {
    assert_eq!(replace_all("a-b-a", "a", "x"), "x-b-x");
    assert_eq!(replace_all("nothing here", "zzz", "x"), "nothing here");
    assert_eq!(replace_all("prefix MARK suffix", "MARK", "body"), "prefix body suffix");
    assert_eq!(replace_all("abcabc", "abc", ""), "");
    assert_eq!(replace_all("aaa", "aa", "b"), "ba");
}

#[test]
fn replacements_are_not_rescanned() {
    assert_eq!(replace_all("x", "x", "xx"), "xx");
}

#[test]
fn schema_url_comment_is_replaced_by_the_published_hash() {
    let generated = "header\n//__SCHEMA_URL__\nfooter";
    let out = replace_schema_url_comment_with_hash_constant(generated, "HASH123");
    assert_eq!(out, "header\npub static SCHEMA_URL: &str = \"HASH123\";\nfooter");
}

#[test]
fn every_schema_url_marker_is_filled_in() {
    let generated = "//__SCHEMA_URL__ and //__SCHEMA_URL__";
    let out = replace_schema_url_comment_with_hash_constant(generated, "H");
    assert_eq!(
        out,
        "pub static SCHEMA_URL: &str = \"H\"; and pub static SCHEMA_URL: &str = \"H\";"
    );
}

#[test]
fn alias_table_grows_one_entry_at_a_time() {
    let table = create_schema_urls_rs();
    assert!(table.contains("// __SCHEMA_MAP_INSERT__"));
    let with_one = add_to_schema_urls_rs(table.as_str(), "test", "HASH123");
    assert!(with_one.contains("ret.insert(\"test\".to_string(), \"HASH123\");"));
    assert!(with_one.contains("// __SCHEMA_MAP_INSERT__"));
    let with_two = add_to_schema_urls_rs(with_one.as_str(), "other", "HASH456");
    assert!(with_two.contains("ret.insert(\"test\".to_string(), \"HASH123\");"));
    assert!(with_two.contains("ret.insert(\"other\".to_string(), \"HASH456\");"));
}

#[test]
fn root_message_round_trip() {
    let bytes = protocols::root_interface::generate_root_message("inner-schema", vec![1, 2, 3]);
    let m = protocols::root_interface::decode_root_message(bytes.as_slice())
        .expect("a root message decodes");
    assert_eq!(m.schema_url, "inner-schema");
    assert_eq!(m.unencrypted_message, vec![1, 2, 3]);
}

#[test]
fn test_record_round_trip() {
    let t = protocols::test_interface::Test::new("Name".to_string(), "Data".to_string());
    let bytes = protocols::test_interface::encode_test(&t);
    let back = protocols::test_interface::decode_test(bytes.as_slice())
        .expect("a test record decodes");
    assert_eq!(back, t);
    let mut longer = bytes.clone();
    longer.push(0);
    assert!(protocols::test_interface::decode_test(longer.as_slice()).is_none());
}

#[test]
fn missing_text_is_reported_until_it_is_appended() {
    assert!(protocols::buildfunctions::is_file_missing_text("some file body", "marker"));
    assert!(!protocols::buildfunctions::is_file_missing_text("some marker body", "marker"));
}

#[test]
fn find_first_names_the_position() {
    assert_eq!(protocols::buildfunctions::find_first("abcabc", "ca"), Some(2));
    assert_eq!(protocols::buildfunctions::find_first("abcabc", "zz"), None);
    assert_eq!(protocols::buildfunctions::find_first("abc", "abc"), Some(0));
}
