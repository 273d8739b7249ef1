use synth_table::get_glue_data::{GlueDatabase, GlueTable};
use synth_table::manage_iam::{
    cleanup_aim, create_instance_profile, ec2_trust_policy_document, generate_policy_docs,
    get_all_policies, next_teardown_action, IamAction, IamState,
};

fn sample_table() -> GlueTable {
    let db = GlueDatabase::new(
        "eu-west-1".to_string(),
        "111122223333".to_string(),
        "sales".to_string(),
    );
    GlueTable::new(db, "orders".to_string(), "s3://bucket/prefix/".to_string())
}

fn full_state() -> IamState {
    IamState {
        role_exists: true,
        managed_policy_attached: true,
        inline_policy_names: vec!["SynthTableS3".to_string(), "SynthTableGlue".to_string()],
        instance_profile_exists: true,
        role_attached_to_profile: true,
    }
}

#[test]
fn teardown_on_clean_state_does_nothing() {
    let (after, trace) = cleanup_aim(IamState::new_clean());
    assert_eq!(trace.len(), 0);
    assert!(!after.role_exists);
    assert!(!after.instance_profile_exists);
    assert!(!after.managed_policy_attached);
    assert!(!after.role_attached_to_profile);
    assert_eq!(after.inline_policy_names.len(), 0);
}

#[test]
fn teardown_twice_changes_nothing() {
    let (once, _) = cleanup_aim(full_state());
    let (twice, second_trace) = cleanup_aim(once.clone());
    assert_eq!(second_trace.len(), 0);
    assert_eq!(twice.role_exists, once.role_exists);
    assert_eq!(twice.instance_profile_exists, once.instance_profile_exists);
    assert_eq!(twice.managed_policy_attached, once.managed_policy_attached);
    assert_eq!(twice.role_attached_to_profile, once.role_attached_to_profile);
    assert_eq!(twice.inline_policy_names, once.inline_policy_names);
}

#[test]
fn teardown_detaches_and_deletes_in_order() {
    let (after, trace) = cleanup_aim(full_state());
    assert!(matches!(trace[0], IamAction::DetachManagedPolicy));
    assert!(matches!(trace[1], IamAction::DeleteInlinePolicy(ref n) if n == "SynthTableS3"));
    assert!(matches!(trace[2], IamAction::DeleteInlinePolicy(ref n) if n == "SynthTableGlue"));
    assert!(matches!(trace[3], IamAction::RemoveRoleFromProfile));
    assert!(matches!(trace[4], IamAction::DeleteInstanceProfile));
    assert!(matches!(trace[5], IamAction::DeleteRole));
    assert_eq!(trace.len(), 6);
    assert!(!after.role_exists);
}

#[test]
fn teardown_of_bare_role_only_deletes_the_role() {
    let state = IamState {
        role_exists: true,
        managed_policy_attached: false,
        inline_policy_names: vec![],
        instance_profile_exists: false,
        role_attached_to_profile: false,
    };
    let (_, trace) = cleanup_aim(state);
    assert_eq!(trace.len(), 1);
    assert!(matches!(trace[0], IamAction::DeleteRole));
}

#[test]
fn stray_profile_without_role_is_removed() {
    let state = IamState {
        role_exists: false,
        managed_policy_attached: false,
        inline_policy_names: vec![],
        instance_profile_exists: true,
        role_attached_to_profile: false,
    };
    let (after, trace) = cleanup_aim(state);
    assert_eq!(trace.len(), 1);
    assert!(matches!(trace[0], IamAction::DeleteInstanceProfile));
    assert!(!after.instance_profile_exists);
}

#[test]
fn next_step_on_clean_state_is_none() {
    assert!(next_teardown_action(&IamState::new_clean()).is_none());
}

#[test]
fn provision_creates_in_order_and_teardown_undoes_it() {
    let docs = vec![
        ("SynthTables3_access".to_string(), "{\"doc\":1}".to_string()),
        ("SynthTableglue_access".to_string(), "{\"doc\":2}".to_string()),
    ];
    let (ready, trace) = create_instance_profile(IamState::new_clean(), &docs);
    assert!(matches!(trace[0], IamAction::CreateRole));
    assert!(matches!(trace[1], IamAction::CreateInstanceProfile));
    assert!(matches!(trace[2], IamAction::AttachRoleToProfile));
    assert!(
        matches!(trace[3], IamAction::PutInlinePolicy(ref n, ref d) if n == "SynthTables3_access" && d == "{\"doc\":1}")
    );
    assert!(
        matches!(trace[4], IamAction::PutInlinePolicy(ref n, ref d) if n == "SynthTableglue_access" && d == "{\"doc\":2}")
    );
    assert_eq!(trace.len(), 5);
    assert!(ready.role_exists);
    assert!(ready.instance_profile_exists);
    assert!(ready.role_attached_to_profile);
    assert_eq!(
        ready.inline_policy_names,
        vec!["SynthTables3_access".to_string(), "SynthTableglue_access".to_string()]
    );

    let (clean, _) = cleanup_aim(ready);
    assert!(!clean.role_exists);
    assert!(!clean.instance_profile_exists);
    assert!(!clean.role_attached_to_profile);
    assert!(!clean.managed_policy_attached);
    assert_eq!(clean.inline_policy_names.len(), 0);
}

#[test]
fn only_json_files_become_policies() {
    let files = vec![
        ("s3_access.json".to_string(), "{\"a\":1}".to_string()),
        ("readme.txt".to_string(), "notes".to_string()),
        ("glue_access.json".to_string(), "{\"b\":2}".to_string()),
    ];
    let policies = get_all_policies(&files);
    assert_eq!(policies.len(), 2);
    assert_eq!(policies[0].0, "s3_access");
    assert_eq!(policies[0].1, "{\"a\":1}");
    assert_eq!(policies[1].0, "glue_access");
    assert_eq!(policies[1].1, "{\"b\":2}");
}

#[test]
fn policy_documents_are_scoped_to_the_table() {
    let table = sample_table();
    let templates = vec![(
        "s3_access".to_string(),
        "{\"region\":\"<your region>\",\"account\":\"<your account>\",\"db\":\"<your database>\",\"table\":\"<your table>\",\"project\":\"<your project>\",\"arn\":\"<your s3arn>\",\"bucket\":\"<your bucket>\"}"
            .to_string(),
    )];
    let docs = generate_policy_docs(&table, &templates);
    assert_eq!(docs.len(), 1);
    assert_eq!(docs[0].0, "SynthTables3_access");
    assert_eq!(
        docs[0].1,
        "{\"region\":\"eu-west-1\",\"account\":\"111122223333\",\"db\":\"sales\",\"table\":\"orders\",\"project\":\"SynthTable\",\"arn\":\"arn:aws:s3:::bucket/prefix\",\"bucket\":\"bucket\"}"
    );
}

#[test]
fn storage_arn_strips_scheme_and_trailing_slash() {
    let table = sample_table();
    assert_eq!(table.s3_arn(), "arn:aws:s3:::bucket/prefix");
    assert_eq!(table.s3_bucket(), "bucket");
}

#[test]
fn bucket_of_location_without_prefix() {
    let db = GlueDatabase::new(
        "eu-west-1".to_string(),
        "111122223333".to_string(),
        "sales".to_string(),
    );
    let table = GlueTable::new(db, "orders".to_string(), "s3://lonebucket".to_string());
    assert_eq!(table.s3_arn(), "arn:aws:s3:::lonebucket");
    assert_eq!(table.s3_bucket(), "lonebucket");
}

#[test]
fn trust_policy_names_the_compute_service() {
    let doc = ec2_trust_policy_document();
    assert!(doc.contains("ec2.amazonaws.com"));
    assert!(doc.contains("sts:AssumeRole"));
    assert!(doc.contains("2012-10-17"));
}
