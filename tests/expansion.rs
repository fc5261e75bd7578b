use aws_iam_expansion::command::ExpandSubCommand;
use aws_iam_expansion::expand::{expand_actions, expand_array_actions, expand_policy, expand_string_actions};
use aws_iam_expansion::index::{collect_action_names, ActionIndex};
use aws_iam_expansion::query::{contains_namespace, list_namespaces, query_namespace, resolve_query};
use aws_iam_expansion::types::{AWSPolicyDocument, AWSPolicyStatement, ActionValue, AwsAction, AwsService, ExpansionError};
use std::collections::HashSet;

fn service(name: &str, prefix: &str, actions: &[&str]) -> AwsService {
    AwsService {
        name: name.to_string(),
        prefix: prefix.to_string(),
        actions: actions
            .iter()
            .map(|a| AwsAction { name: a.to_string(), action_type: "Read".to_string() })
            .collect(),
    }
}

fn index_of(names: &[&str]) -> ActionIndex {
    ActionIndex::build(names.iter().map(|s| s.to_string()).collect())
}

fn as_set(v: &[String]) -> HashSet<String> {
    v.iter().cloned().collect()
}

fn set_of(v: &[&str]) -> HashSet<String> {
    v.iter().map(|s| s.to_string()).collect()
}

fn statement(action: ActionValue, not_action: Option<ActionValue>) -> AWSPolicyStatement {
    AWSPolicyStatement {
        sid: Some("Stmt".to_string()),
        effect: "Allow".to_string(),
        principal: None,
        action,
        not_action,
        resource: Some(serde_json::Value::String("*".to_string())),
        not_resource: None,
        condition: None,
    }
}

fn document(statements: Vec<AWSPolicyStatement>) -> AWSPolicyDocument {
    AWSPolicyDocument { version: "2012-10-17".to_string(), id: None, statement: statements }
}

fn list(items: &[&str]) -> ActionValue {
    ActionValue::List(items.iter().map(|s| Some(s.to_string())).collect())
}

fn list_names(v: &ActionValue) -> Vec<String> {
    match v {
        ActionValue::List(l) => l.iter().map(|e| e.clone().expect("expanded entries are strings")).collect(),
        _ => panic!("an expanded field is a list"),
    }
}

fn assert_unique(v: &[String]) {
    assert_eq!(as_set(v).len(), v.len());
}

#[test]
fn search_results_come_from_corpus_and_start_with_query() {
    let corpus = ["s3:GetObject", "s3:GetBucket", "s3:PutObject", "iam:CreateUser"];
    let index = index_of(&corpus);
    let r = index.search_prefix("s3:Get");
    assert_eq!(as_set(&r), set_of(&["s3:GetObject", "s3:GetBucket"]));
    for x in &r {
        assert!(corpus.contains(&x.as_str()));
        assert!(x.starts_with("s3:Get"));
    }
    assert!(index.search_prefix("ec2:").is_empty());
}

#[test]
fn empty_query_returns_whole_corpus() {
    let corpus = ["s3:GetObject", "s3:GetBucket", "s3:PutObject", "iam:CreateUser"];
    let index = index_of(&corpus);
    let r = index.search_prefix("");
    assert_eq!(r.len(), 4);
    assert_eq!(as_set(&r), set_of(&corpus));
}

#[test]
fn repeated_corpus_names_are_held_once() {
    let index = index_of(&["s3:GetObject", "s3:GetObject", "s3:PutObject"]);
    let r = index.search_prefix("");
    assert_eq!(r.len(), 2);
    assert_eq!(as_set(&r), set_of(&["s3:GetObject", "s3:PutObject"]));
}

#[test]
fn array_of_patterns_expands_to_union() {
    let index = index_of(&["s3:GetObject", "s3:GetBucket", "s3:PutObject"]);
    let doc = document(vec![statement(list(&["s3:Get*", "s3:Put*"]), None)]);
    let (out, errors) = expand_policy(doc, &index);
    assert!(errors.is_empty());
    let names = list_names(&out.statement[0].action);
    assert_eq!(names.len(), 3);
    assert_eq!(as_set(&names), set_of(&["s3:GetObject", "s3:GetBucket", "s3:PutObject"]));
}

#[test]
fn namespace_wildcard_expands_to_namespace() {
    let index = index_of(&["iam:CreateUser", "iam:CreateRole", "iam:DeleteUser", "s3:GetObject"]);
    let doc = document(vec![statement(ActionValue::Text("iam:*".to_string()), None)]);
    let (out, errors) = expand_policy(doc, &index);
    assert!(errors.is_empty());
    let names = list_names(&out.statement[0].action);
    assert_eq!(names.len(), 3);
    assert_eq!(as_set(&names), set_of(&["iam:CreateUser", "iam:CreateRole", "iam:DeleteUser"]));
}

#[test]
fn expanding_twice_changes_nothing() {
    let index = index_of(&["s3:GetObject", "s3:GetObjectAcl", "s3:GetBucket", "s3:PutObject", "iam:CreateUser"]);
    let doc = document(vec![
        statement(list(&["s3:Get*", "s3:Put*"]), Some(ActionValue::Text("iam:*".to_string()))),
        statement(ActionValue::Text("s3:GetObject".to_string()), None),
    ]);
    let (once, _) = expand_policy(doc, &index);
    let (twice, errors) = expand_policy(once.clone(), &index);
    assert!(errors.is_empty());
    for i in 0..2 {
        let a = list_names(&once.statement[i].action);
        let b = list_names(&twice.statement[i].action);
        assert_eq!(as_set(&a), as_set(&b));
        assert_eq!(a.len(), b.len());
    }
    assert_eq!(
        as_set(&list_names(twice.statement[0].not_action.as_ref().unwrap())),
        set_of(&["iam:CreateUser"])
    );
    assert_eq!(
        as_set(&list_names(&twice.statement[1].action)),
        set_of(&["s3:GetObject", "s3:GetObjectAcl"])
    );
}

#[test]
fn unknown_namespace_is_an_error_and_index_stays_usable() {
    let services = vec![service("Amazon S3", "s3", &["s3:GetObject", "s3:PutObject"])];
    let index = ActionIndex::from_services(&services);
    let r = query_namespace(&index, &services, "doesnotexist", None);
    assert_eq!(r, Err(ExpansionError::ServiceNotFound("doesnotexist".to_string())));
    let ok = query_namespace(&index, &services, "s3", Some("Get")).unwrap();
    assert_eq!(ok, vec!["s3:GetObject".to_string()]);
}

#[test]
fn malformed_action_is_recorded_and_isolated() {
    let index = index_of(&["s3:GetObject", "iam:CreateUser"]);
    let doc = document(vec![
        statement(ActionValue::Text("s3:*".to_string()), None),
        statement(ActionValue::Other, None),
        statement(list(&["iam:Create*"]), None),
    ]);
    let (out, errors) = expand_policy(doc, &index);
    assert_eq!(errors, vec![ExpansionError::MalformedActionValue(1)]);
    assert_eq!(list_names(&out.statement[0].action), vec!["s3:GetObject".to_string()]);
    assert!(list_names(&out.statement[1].action).is_empty());
    assert_eq!(list_names(&out.statement[2].action), vec!["iam:CreateUser".to_string()]);
}

#[test]
fn malformed_not_action_is_recorded() {
    let index = index_of(&["s3:GetObject"]);
    let doc = document(vec![statement(ActionValue::Text("s3:*".to_string()), Some(ActionValue::Other))]);
    let (out, errors) = expand_policy(doc, &index);
    assert_eq!(errors, vec![ExpansionError::MalformedActionValue(0)]);
    assert_eq!(out.statement[0].not_action, Some(ActionValue::List(vec![])));
    assert_eq!(list_names(&out.statement[0].action), vec!["s3:GetObject".to_string()]);
}

#[test]
fn services_sharing_a_namespace_merge() {
    let services = vec![
        service("Amazon S3", "s3", &["s3:GetObject", "s3:PutObject"]),
        service("Amazon S3 Express", "s3", &["s3:PutObject", "s3:CreateSession"]),
    ];
    let index = ActionIndex::from_services(&services);
    let r = query_namespace(&index, &services, "s3", None).unwrap();
    assert_eq!(r.len(), 3);
    assert_eq!(as_set(&r), set_of(&["s3:GetObject", "s3:PutObject", "s3:CreateSession"]));
}

#[test]
fn middle_wildcard_is_removed_not_matched() {
    let index = index_of(&["s3:GetObject", "s3:GetBucketObject", "s3:GetObjectAcl"]);
    let r = expand_string_actions("s3:Get*Object", &index);
    assert_eq!(as_set(&r), set_of(&["s3:GetObject", "s3:GetObjectAcl"]));
}

#[test]
fn wildcards_are_stripped() {
    assert_eq!(resolve_query("s3", Some("*Get**")), "s3:Get");
    assert_eq!(resolve_query("s3", Some("*")), "s3:");
    assert_eq!(resolve_query("iam", Some("List")), "iam:List");
}

#[test]
fn query_is_namespace_colon_prefix() {
    assert_eq!(resolve_query("iam", None), "iam:");
    assert_eq!(resolve_query("iam", Some("Create*")), "iam:Create");
    assert_eq!(resolve_query("s3", Some("")), "s3:");
}

#[test]
fn namespaces_are_listed_once_in_order() {
    let services = vec![
        service("Amazon S3", "s3", &["s3:GetObject"]),
        service("IAM", "iam", &["iam:CreateUser"]),
        service("Amazon S3 Express", "s3", &["s3:CreateSession"]),
    ];
    assert_eq!(list_namespaces(&services), vec!["s3".to_string(), "iam".to_string()]);
    assert!(contains_namespace(&services, "iam"));
    assert!(!contains_namespace(&services, "ec2"));
    assert!(list_namespaces(&vec![]).is_empty());
}

#[test]
fn action_names_are_collected_in_order() {
    let services = vec![
        service("Amazon S3", "s3", &["s3:GetObject", "s3:PutObject"]),
        service("IAM", "iam", &["iam:CreateUser"]),
    ];
    assert_eq!(
        collect_action_names(&services),
        vec!["s3:GetObject".to_string(), "s3:PutObject".to_string(), "iam:CreateUser".to_string()]
    );
}

#[test]
fn array_with_non_string_entry_is_malformed() {
    let index = index_of(&["s3:GetObject", "iam:CreateUser"]);
    let mixed = vec![Some("s3:Get*".to_string()), None];
    assert_eq!(expand_array_actions(&mixed, &index), None);
    assert_eq!(expand_actions(&ActionValue::List(mixed), &index), None);
    assert_eq!(expand_actions(&ActionValue::Other, &index), None);
    let strings = vec![Some("s3:Get*".to_string()), Some("s3:GetObject".to_string())];
    assert_eq!(expand_array_actions(&strings, &index), Some(vec!["s3:GetObject".to_string()]));
    assert_eq!(expand_array_actions(&vec![], &index), Some(vec![]));
}

#[test]
fn mixed_list_in_document_is_recorded() {
    let index = index_of(&["s3:GetObject", "iam:CreateUser"]);
    let doc = document(vec![
        statement(list(&["iam:*"]), None),
        statement(ActionValue::List(vec![Some("s3:Get*".to_string()), None]), None),
    ]);
    let (out, errors) = expand_policy(doc, &index);
    assert_eq!(errors, vec![ExpansionError::MalformedActionValue(1)]);
    assert_eq!(list_names(&out.statement[0].action), vec!["iam:CreateUser".to_string()]);
    assert_eq!(out.statement[1].action, ActionValue::List(vec![]));
}

#[test]
fn search_results_are_ascending_and_repeatable() {
    let index = index_of(&["s3:PutObject", "s3:GetObjectAcl", "s3:GetObject", "s3:GetBucket", "iam:CreateUser"]);
    let r = index.search_prefix("s3:");
    assert_eq!(
        r,
        vec![
            "s3:GetBucket".to_string(),
            "s3:GetObject".to_string(),
            "s3:GetObjectAcl".to_string(),
            "s3:PutObject".to_string()
        ]
    );
    assert_eq!(index.search_prefix("s3:"), r);
}

#[test]
fn other_fields_are_kept() {
    let index = index_of(&["s3:GetObject"]);
    let doc = document(vec![statement(ActionValue::Text("s3:Get*".to_string()), None)]);
    let (out, _) = expand_policy(doc, &index);
    assert_eq!(out.version, "2012-10-17");
    assert_eq!(out.id, None);
    let st = &out.statement[0];
    assert_eq!(st.sid, Some("Stmt".to_string()));
    assert_eq!(st.effect, "Allow");
    assert_eq!(st.resource, Some(serde_json::Value::String("*".to_string())));
    assert_eq!(st.not_action, None);
}

#[test]
fn expand_command_queries_its_namespace() {
    let services = vec![service("IAM", "iam", &["iam:CreateUser", "iam:CreateRole", "iam:DeleteUser"])];
    let index = ActionIndex::from_services(&services);
    let cmd = ExpandSubCommand { prefix: Some("Create*".to_string()), service_name: "iam".to_string() };
    let r = cmd.matching_actions(&index, &services).unwrap();
    assert_eq!(as_set(&r), set_of(&["iam:CreateUser", "iam:CreateRole"]));
    let missing = ExpandSubCommand { prefix: None, service_name: "ec2".to_string() };
    assert_eq!(
        missing.matching_actions(&index, &services),
        Err(ExpansionError::ServiceNotFound("ec2".to_string()))
    );
}
