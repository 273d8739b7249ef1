use synth_table::cw_logging::CWLogSender;
use synth_table::get_glue_data::{is_s3_location, GlueDatabase, GlueTable};
use synth_table::text::{
    contains_ignore_case, contains_str, ends_with_str, eq_ignore_ascii_case_str, find_str,
    replace_all, str_eq, starts_with_str, trim_end_char, trim_str,
};
use synth_table::PROJECT_NAME;

#[test]
fn log_sender_uses_the_project_group() {
    let sender = CWLogSender::new("eu-west-1".to_string(), "orders".to_string());
    assert_eq!(sender.log_group_name, PROJECT_NAME);
    assert_eq!(sender.region_name, "eu-west-1");
    assert_eq!(sender.log_stream_name, "orders");
}

#[test]
fn database_choice_names_database_and_region() {
    let db = GlueDatabase::new(
        "eu-west-1".to_string(),
        "111122223333".to_string(),
        "sales".to_string(),
    );
    assert_eq!(db.format_choice(), "sales in eu-west-1");
    assert_eq!(db.region().as_str(), "eu-west-1");
    assert_eq!(db.account_id().as_str(), "111122223333");
    assert_eq!(db.name().as_str(), "sales");
}

#[test]
fn table_choice_is_the_table_name() {
    let db = GlueDatabase::new(
        "eu-west-1".to_string(),
        "111122223333".to_string(),
        "sales".to_string(),
    );
    let table = GlueTable::new(db, "orders".to_string(), "s3://b/p".to_string());
    assert_eq!(table.format_choice(), "orders");
    assert_eq!(table.name().as_str(), "orders");
    assert_eq!(table.s3_location().as_str(), "s3://b/p");
    assert_eq!(table.database().name().as_str(), "sales");
}

#[test]
fn object_store_locations_are_recognized() {
    assert!(is_s3_location("s3://bucket/prefix"));
    assert!(is_s3_location("S3://bucket/prefix"));
    assert!(!is_s3_location("hdfs://cluster/path"));
    assert!(!is_s3_location(""));
}

#[test]
fn replace_all_replaces_each_occurrence() {
    assert_eq!(replace_all("a<x>b<x>c", "<x>", "-"), "a-b-c");
    assert_eq!(replace_all("aaa", "aa", "b"), "ba");
    assert_eq!(replace_all("none here", "<x>", "-"), "none here");
    assert_eq!(replace_all("", "<x>", "-"), "");
}

#[test]
fn trim_and_case_helpers() {
    assert_eq!(trim_str("  done \t\n"), "done");
    assert_eq!(trim_str("done"), "done");
    assert_eq!(trim_str("   "), "");
    assert_eq!(trim_end_char("a/b///", '/'), "a/b");
    assert!(eq_ignore_ascii_case_str("DoNe", "dOnE"));
    assert!(!eq_ignore_ascii_case_str("done", "don"));
    assert!(contains_ignore_case("Job FAILED badly", "failed"));
    assert!(!contains_ignore_case("all good", "failed"));
}

#[test]
fn search_helpers() {
    assert!(str_eq("abc", "abc"));
    assert!(!str_eq("abc", "abd"));
    assert!(starts_with_str("s3://b", "s3://"));
    assert!(!starts_with_str("s3:/b", "s3://"));
    assert!(ends_with_str("policy.json", ".json"));
    assert!(!ends_with_str("policy.txt", ".json"));
    assert!(contains_str("arn:aws:s3:::bucket", ":::"));
    assert_eq!(find_str("arn:aws:s3:::bucket", ":::"), Some(10));
    assert_eq!(find_str("abc", "zz"), None);
}
