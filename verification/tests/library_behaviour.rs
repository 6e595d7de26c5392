use cedar_agent::errors::AgentError;
use cedar_agent::routes::invalidation::{put_invalidation_targets, validate_targets};
use cedar_agent::routes::mutation::{MutationFlow, Step};
use cedar_agent::routes::policies::{change_error, duplicate_policy_id, get_policy, PolicyChange, PolicyStoreFailure};
use cedar_agent::routes::schema::{
    add_generic_attribute, add_table_attribute, add_user_attribute, delete_generic_attribute,
    delete_table_attribute, delete_user_attribute, start_add_generic_attribute, start_add_table_attribute,
    start_add_user_attribute, start_delete_generic_attribute, start_delete_table_attribute,
    start_delete_user_attribute,
};
use cedar_agent::schemas::json::JsonValue;
use cedar_agent::schemas::schema::{AttributeSchema, DeleteAttributeSchema, GenericAttributeSchema};
use cedar_agent::schemas::stats::StatsResponse;
use cedar_agent::services::invalidation::{
    combine_invalidation_errors, default_true, enabled_targets, join_failure_message, targets_setting_text,
    ExecuteOutcome, FlushStep, InvalidationTarget, InvalidationTargetKind, InvalidationTargetsStore, TargetFlush,
};
use cedar_agent::services::stats::memory::MemoryStatsStore;
use cedar_agent::services::stats::{Stats, StatsStore};
use cedar_agent::text::is_blank;
use cedar_agent::write_origin::WriteOrigin;

fn s(x: &str) -> String {
    x.to_string()
}

fn target(name: &str, kind: InvalidationTargetKind, dsn: &str, enabled: bool) -> InvalidationTarget {
    InvalidationTarget { name: s(name), kind, dsn: s(dsn), enabled }
}

fn obj(members: Vec<(&str, JsonValue)>) -> JsonValue {
    JsonValue::Object(members.into_iter().map(|(k, v)| (s(k), v)).collect())
}

fn attr_json(t: &str, required: bool) -> JsonValue {
    obj(vec![("type", JsonValue::String(s(t))), ("required", JsonValue::Bool(required))])
}

fn entity(attrs: Vec<(&str, JsonValue)>) -> JsonValue {
    obj(vec![("shape", obj(vec![("type", JsonValue::String(s("Record"))), ("attributes", obj(attrs))]))])
}

fn sample_schema() -> JsonValue {
    obj(vec![(
        "",
        obj(vec![
            (
                "entityTypes",
                obj(vec![
                    ("User", entity(vec![("age", attr_json("Long", true))])),
                    ("Table", entity(vec![])),
                ]),
            ),
            ("actions", obj(vec![])),
        ]),
    )])
}

fn bad_request_reason(e: AgentError) -> String {
    match e {
        AgentError::BadRequest { reason } => reason,
        other => panic!("expected a bad request, got {:?}", other),
    }
}

#[test]
fn write_origin_from_header() {
    assert_eq!(WriteOrigin::from_header(Some("db-entity-sync")), WriteOrigin::DbEntitySync);
    assert_eq!(WriteOrigin::from_header(Some("DB-ENTITY-SYNC")), WriteOrigin::Default);
    assert_eq!(WriteOrigin::from_header(Some("")), WriteOrigin::Default);
    assert_eq!(WriteOrigin::from_header(None), WriteOrigin::Default);
    assert!(WriteOrigin::DbEntitySync.is_db_entity_sync());
    assert!(!WriteOrigin::Default.is_db_entity_sync());
}

#[test]
fn blank_strings() {
    assert!(is_blank(""));
    assert!(is_blank("  \t\r\n"));
    assert!(is_blank("\u{3000}\u{00A0}"));
    assert!(!is_blank(" a "));
    assert!(!is_blank("\u{200B}"));
}

#[test]
fn stats_default_and_response() {
    let zero = Stats::default();
    assert_eq!((zero.total_requests, zero.allows, zero.denies), (0, 0, 0));
    let mut store = MemoryStatsStore::default();
    store.increment_auth_request();
    store.increment_auth_request();
    store.increment_deny();
    let response = StatsResponse::from(store.get_stats());
    assert_eq!(response.total_requests, 2);
    assert_eq!(response.allows, 0);
    assert_eq!(response.denies, 1);
}

#[test]
fn reset_forgets_earlier_events() {
    let mut store = MemoryStatsStore::new();
    store.increment_allow();
    store.increment_deny();
    store.reset();
    store.increment_allow();
    let stats = store.get_stats();
    assert_eq!((stats.total_requests, stats.allows, stats.denies), (0, 1, 0));
}

#[test]
fn targets_store_gives_back_what_was_written() {
    let mut store = InvalidationTargetsStore::new();
    assert!(store.list().is_empty());
    store.replace_all(vec![target("pg", InvalidationTargetKind::Postgres, "postgres://h/db", true)]);
    let listed = store.list();
    assert_eq!(listed.len(), 1);
    assert_eq!(listed[0].name, "pg");
    assert_eq!(listed[0].dsn, "postgres://h/db");
    assert_eq!(listed[0].kind, InvalidationTargetKind::Postgres);
    assert!(listed[0].enabled);
    let other = InvalidationTargetsStore::new_from_env(Some("[..]"), Some(vec![target("my", InvalidationTargetKind::Mysql, "mysql://h", false)]));
    assert_eq!(other.list()[0].name, "my");
    assert!(default_true());
}

#[test]
fn put_targets_accepts_valid_list() {
    let mut store = InvalidationTargetsStore::new();
    let list = vec![
        target("a", InvalidationTargetKind::Postgres, "postgres://a", true),
        target("b", InvalidationTargetKind::Mysql, "mysql://b", false),
    ];
    let answered = put_invalidation_targets(&mut store, list).unwrap();
    assert_eq!(answered.len(), 2);
    let listed = store.list();
    assert_eq!(listed.len(), 2);
    assert_eq!(listed[1].name, "b");
    assert!(!listed[1].enabled);
}

#[test]
fn put_targets_refuses_blank_name() {
    let mut store = InvalidationTargetsStore::new();
    store.replace_all(vec![target("keep", InvalidationTargetKind::Postgres, "postgres://k", true)]);
    let err = put_invalidation_targets(&mut store, vec![target("  ", InvalidationTargetKind::Postgres, "dsn", true)]).unwrap_err();
    assert_eq!(bad_request_reason(err), "Invalidation target name must be non-empty");
    let listed = store.list();
    assert_eq!(listed.len(), 1);
    assert_eq!(listed[0].name, "keep");
}

#[test]
fn put_targets_refuses_blank_dsn() {
    let mut store = InvalidationTargetsStore::new();
    let err = put_invalidation_targets(&mut store, vec![target("pg", InvalidationTargetKind::Postgres, " \t", true)]).unwrap_err();
    assert_eq!(bad_request_reason(err), "Invalidation target 'pg' dsn must be non-empty");
    assert!(store.list().is_empty());
}

#[test]
fn put_targets_refuses_duplicate_names() {
    let mut store = InvalidationTargetsStore::new();
    let list = vec![
        target("a", InvalidationTargetKind::Postgres, "postgres://a", true),
        target("b", InvalidationTargetKind::Mysql, "mysql://b", true),
        target("a", InvalidationTargetKind::Mysql, "mysql://a", true),
    ];
    match put_invalidation_targets(&mut store, list).unwrap_err() {
        AgentError::Duplicate { object, id } => {
            assert_eq!(object, "InvalidationTarget");
            assert_eq!(id, "a");
        },
        other => panic!("unexpected {:?}", other),
    }
    assert!(store.list().is_empty());
}

#[test]
fn first_faulty_target_decides_the_error() {
    let list = vec![
        target("a", InvalidationTargetKind::Postgres, "", true),
        target("", InvalidationTargetKind::Postgres, "x", true),
    ];
    assert_eq!(bad_request_reason(validate_targets(&list).unwrap_err()), "Invalidation target 'a' dsn must be non-empty");
    assert!(validate_targets(&vec![]).is_ok());
}

#[test]
fn only_enabled_targets_are_invalidated() {
    let list = vec![
        target("a", InvalidationTargetKind::Postgres, "pa", true),
        target("b", InvalidationTargetKind::Mysql, "mb", false),
        target("c", InvalidationTargetKind::Mysql, "mc", true),
    ];
    let enabled = enabled_targets(list);
    let names: Vec<&str> = enabled.iter().map(|t| t.name.as_str()).collect();
    assert_eq!(names, vec!["a", "c"]);
    assert!(enabled_targets(vec![target("x", InvalidationTargetKind::Mysql, "d", false)]).is_empty());
}

#[test]
fn invalidation_errors_are_joined() {
    assert!(combine_invalidation_errors(&vec![]).is_ok());
    assert_eq!(combine_invalidation_errors(&vec![s("one")]).unwrap_err(), "one");
    assert_eq!(combine_invalidation_errors(&vec![s("one"), s("two"), s("three")]).unwrap_err(), "one; two; three");
}

#[test]
fn invalidation_failure_messages() {
    let pg = target("main", InvalidationTargetKind::Postgres, "d", true);
    let my = target("side", InvalidationTargetKind::Mysql, "d", true);

    let mut flush = TargetFlush::new(&pg, false);
    assert_eq!(flush.next_step(), FlushStep::Connect);
    flush.connect_done(Err(s("refused")));
    assert_eq!(flush.next_step(), FlushStep::Finish);
    assert_eq!(flush.finished().unwrap().unwrap_err(), "target 'main' postgres connect failed: refused");

    let mut flush = TargetFlush::new(&my, false);
    flush.connect_done(Ok(()));
    assert_eq!(flush.next_step(), FlushStep::RememberPool);
    flush.pool_remembered();
    assert_eq!(flush.next_step(), FlushStep::Execute);
    assert_eq!(flush.statement(), "SET GLOBAL cedar_authorization_cache_flush = 1;");
    flush.execute_done(ExecuteOutcome::TimedOut);
    assert_eq!(flush.finished().unwrap().unwrap_err(), "target 'side' mysql invalidate timed out");

    let mut flush = TargetFlush::new(&my, true);
    assert_eq!(flush.next_step(), FlushStep::Execute);
    flush.execute_done(ExecuteOutcome::Failed(s("denied")));
    assert_eq!(flush.finished().unwrap().unwrap_err(), "target 'side' mysql invalidate failed: denied");

    let mut flush = TargetFlush::new(&pg, true);
    assert_eq!(flush.statement(), "SELECT pg_authorization_cache_reset();");
    flush.execute_done(ExecuteOutcome::Done);
    assert!(flush.finished().unwrap().is_ok());
    assert!(TargetFlush::new(&pg, true).finished().is_none());

    assert_eq!(join_failure_message("panicked"), "invalidation task join error: panicked");
    assert_eq!(InvalidationTargetKind::Postgres.cache_reset_statement(), "SELECT pg_authorization_cache_reset();");
    assert_eq!(InvalidationTargetKind::Mysql.label(), "mysql");
}

#[test]
fn targets_from_the_environment_setting() {
    assert_eq!(targets_setting_text(None), None);
    assert_eq!(targets_setting_text(Some("  \n")), None);
    assert_eq!(targets_setting_text(Some("[]")), Some("[]"));
    let parsed = vec![target("pg", InvalidationTargetKind::Postgres, "postgres://h", true)];
    let store = InvalidationTargetsStore::new_from_env(Some("[...]"), Some(parsed));
    assert_eq!(store.list()[0].name, "pg");
    let blank = InvalidationTargetsStore::new_from_env(Some(" "), Some(vec![target("x", InvalidationTargetKind::Mysql, "d", true)]));
    assert!(blank.list().is_empty());
    assert!(InvalidationTargetsStore::new_from_env(Some("not json"), None).list().is_empty());
    assert!(InvalidationTargetsStore::new_from_env(None, None).list().is_empty());
    let twice = vec![
        target("pg", InvalidationTargetKind::Postgres, "postgres://a", true),
        target("pg", InvalidationTargetKind::Mysql, "mysql://b", true),
    ];
    assert!(InvalidationTargetsStore::new_from_env(Some("[..]"), Some(twice)).list().is_empty());
    let blank_dsn = vec![target("pg", InvalidationTargetKind::Postgres, " ", true)];
    assert!(InvalidationTargetsStore::new_from_env(Some("[..]"), Some(blank_dsn)).list().is_empty());
}

#[test]
fn attribute_routes_hand_the_edited_schema_to_the_store() {
    let (mut flow, answer) = start_add_generic_attribute(sample_schema(), &generic(None, "Table", "rows"), vec![s("p0")], 7u8).unwrap();
    let edited = add_generic_attribute(sample_schema(), &generic(None, "Table", "rows")).unwrap();
    assert_eq!(answer, edited);
    assert_eq!(flow.document(), Some(&edited));
    assert_eq!(flow.previous_document(), Some(&sample_schema()));
    assert_eq!(flow.previous_policies(), Some(&vec![s("p0")]));
    assert_eq!(flow.previous_entities(), Some(&7u8));
    for _ in 0..4 {
        flow.step_done(Ok(()));
    }
    assert_eq!(flow.next_step(), Step::Invalidate);
    flow.step_done(Err(s("flush failed")));
    assert_eq!(flow.next_step(), Step::RestoreSchema);
    assert_eq!(flow.previous_document(), Some(&sample_schema()));
    for _ in 0..4 {
        flow.step_done(Ok(()));
    }
    assert_eq!(
        bad_request_reason(flow.finished().unwrap().unwrap_err()),
        "Authorization cache invalidation failed (schema change rolled back): flush failed"
    );

    let (flow, entity) = start_add_user_attribute(sample_schema(), &user_attr("email", "String", false), (), ()).unwrap();
    assert_eq!(entity, entity_with_email());
    assert_eq!(flow.document(), Some(&add_user_attribute(sample_schema(), &user_attr("email", "String", false)).unwrap().0));
    assert!(start_add_table_attribute(JsonValue::Null, &user_attr("x", "Long", true), (), ()).is_err());
    let flow = start_delete_user_attribute(sample_schema(), &s("age"), (), ()).unwrap();
    assert_eq!(flow.document(), Some(&delete_user_attribute(sample_schema(), &s("age")).unwrap()));
    assert!(start_delete_table_attribute(sample_schema(), &s("age"), (), ()).is_err());
    let del = DeleteAttributeSchema { namespace: None, entity_type: s("User"), name: s("age") };
    let flow = start_delete_generic_attribute(sample_schema(), &del, (), ()).unwrap();
    assert_eq!(flow.next_step(), Step::ConvertSchema);

    let flow = MutationFlow::delete_schema(sample_schema(), vec![s("p0")], 3u8);
    assert_eq!(flow.next_step(), Step::DeleteSchema);
    assert_eq!(flow.document(), None);
    assert_eq!(flow.previous_document(), Some(&sample_schema()));
    assert_eq!(flow.previous_policies(), Some(&vec![s("p0")]));
    assert_eq!(flow.previous_entities(), Some(&3u8));
}

#[test]
fn removing_a_member_moves_the_last_one_into_its_place() {
    let three = obj(vec![(
        "",
        obj(vec![(
            "entityTypes",
            obj(vec![("User", entity(vec![("a", attr_json("Long", true)), ("b", attr_json("Long", true)), ("c", attr_json("Long", true))]))]),
        )]),
    )]);
    let after = delete_user_attribute(three, &s("a")).unwrap();
    let expected = obj(vec![(
        "",
        obj(vec![(
            "entityTypes",
            obj(vec![("User", entity(vec![("c", attr_json("Long", true)), ("b", attr_json("Long", true))]))]),
        )]),
    )]);
    assert_eq!(after, expected);
}

fn entity_with_email() -> JsonValue {
    entity(vec![("age", attr_json("Long", true)), ("email", attr_json("String", false))])
}

fn user_attr(name: &str, t: &str, required: bool) -> AttributeSchema {
    AttributeSchema { name: s(name), attr_type: s(t), required }
}

#[test]
fn add_user_attribute_extends_the_user_shape() {
    let (schema, user) = add_user_attribute(sample_schema(), &user_attr("email", "String", false)).unwrap();
    let expected_user = entity(vec![("age", attr_json("Long", true)), ("email", attr_json("String", false))]);
    assert_eq!(user, expected_user);
    let expected = obj(vec![(
        "",
        obj(vec![
            (
                "entityTypes",
                obj(vec![("User", expected_user), ("Table", entity(vec![]))]),
            ),
            ("actions", obj(vec![])),
        ]),
    )]);
    assert_eq!(schema, expected);
}

#[test]
fn add_user_attribute_refuses_duplicates() {
    match add_user_attribute(sample_schema(), &user_attr("age", "Long", true)).unwrap_err() {
        AgentError::Duplicate { object, id } => {
            assert_eq!(object, "Attribute");
            assert_eq!(id, "User::age");
        },
        other => panic!("unexpected {:?}", other),
    }
}

#[test]
fn add_table_attribute_needs_the_entity_type() {
    let (_, table) = add_table_attribute(sample_schema(), &user_attr("owner", "String", true)).unwrap();
    assert_eq!(table, entity(vec![("owner", attr_json("String", true))]));
    let no_table = obj(vec![("", obj(vec![("entityTypes", obj(vec![]))]))]);
    let err = add_table_attribute(no_table, &user_attr("owner", "String", true)).unwrap_err();
    assert_eq!(bad_request_reason(err), "Entity type 'Table' not found in schema");
}

#[test]
fn delete_user_attribute_removes_it() {
    let schema = delete_user_attribute(sample_schema(), &s("age")).unwrap();
    let expected = obj(vec![(
        "",
        obj(vec![
            (
                "entityTypes",
                obj(vec![("User", entity(vec![])), ("Table", entity(vec![]))]),
            ),
            ("actions", obj(vec![])),
        ]),
    )]);
    assert_eq!(schema, expected);
    match delete_table_attribute(sample_schema(), &s("age")).unwrap_err() {
        AgentError::NotFound { object, id } => {
            assert_eq!(object, "Attribute");
            assert_eq!(id, "Table::age");
        },
        other => panic!("unexpected {:?}", other),
    }
    let err = delete_user_attribute(JsonValue::Null, &s("age")).unwrap_err();
    assert_eq!(bad_request_reason(err), "Entity type 'User' not found in schema");
}

#[test]
fn add_then_delete_gives_back_the_schema() {
    let (added, _) = add_user_attribute(sample_schema(), &user_attr("email", "String", true)).unwrap();
    let restored = delete_user_attribute(added, &s("email")).unwrap();
    assert_eq!(restored, sample_schema());
}

fn generic(ns: Option<&str>, et: &str, name: &str) -> GenericAttributeSchema {
    GenericAttributeSchema { namespace: ns.map(s), entity_type: s(et), name: s(name), attr_type: s("Long"), required: true }
}

#[test]
fn generic_attribute_errors_name_the_missing_step() {
    let err = add_generic_attribute(sample_schema(), &generic(Some("App"), "User", "x")).unwrap_err();
    assert_eq!(bad_request_reason(err), "Namespace 'App' not found in schema");
    let no_types = obj(vec![("", obj(vec![]))]);
    let err = add_generic_attribute(no_types, &generic(None, "User", "x")).unwrap_err();
    assert_eq!(bad_request_reason(err), "entityTypes not found in namespace ''");
    let err = add_generic_attribute(sample_schema(), &generic(None, "Doc", "x")).unwrap_err();
    assert_eq!(bad_request_reason(err), "Entity type 'Doc' not found in schema");
    let no_shape = obj(vec![("", obj(vec![("entityTypes", obj(vec![("User", obj(vec![]))]))]))]);
    let err = add_generic_attribute(no_shape, &generic(None, "User", "x")).unwrap_err();
    assert_eq!(bad_request_reason(err), "Shape not found for entity type 'User'");
    let no_attrs = obj(vec![("", obj(vec![("entityTypes", obj(vec![("User", obj(vec![("shape", obj(vec![]))]))]))]))]);
    let err = add_generic_attribute(no_attrs, &generic(None, "User", "x")).unwrap_err();
    assert_eq!(bad_request_reason(err), "Attributes not found for entity type 'User'");
    let attrs_array = obj(vec![(
        "",
        obj(vec![("entityTypes", obj(vec![("User", obj(vec![("shape", obj(vec![("attributes", JsonValue::Array(vec![]))]))]))]))]),
    )]);
    let err = add_generic_attribute(attrs_array, &generic(None, "User", "x")).unwrap_err();
    assert_eq!(bad_request_reason(err), "Attributes is not an object for entity type 'User'");
}

#[test]
fn generic_attribute_add_and_delete() {
    let added = add_generic_attribute(sample_schema(), &generic(None, "Table", "rows")).unwrap();
    let del = DeleteAttributeSchema { namespace: Some(s("")), entity_type: s("Table"), name: s("rows") };
    assert_eq!(delete_generic_attribute(added, &del).unwrap(), sample_schema());
    match delete_generic_attribute(sample_schema(), &del).unwrap_err() {
        AgentError::NotFound { object, id } => {
            assert_eq!(object, "Attribute");
            assert_eq!(id, "Table::rows");
        },
        other => panic!("unexpected {:?}", other),
    }
}

#[test]
fn duplicate_policy_ids() {
    assert_eq!(duplicate_policy_id("Policy with id p1 already exists"), "p1");
    assert_eq!(duplicate_policy_id("Policy with id  already exists"), "");
    assert_eq!(duplicate_policy_id("Policy with id p1 exists"), "");
    assert_eq!(duplicate_policy_id("no such message"), "");
}

#[test]
fn policy_change_errors() {
    let create = PolicyChange::Create { id: s("p") };
    match change_error(&create, PolicyStoreFailure::Other { message: s("io") }) {
        AgentError::Duplicate { object, id } => {
            assert_eq!(object, "policy");
            assert_eq!(id, "p");
        },
        other => panic!("unexpected {:?}", other),
    }
    assert_eq!(bad_request_reason(change_error(&create, PolicyStoreFailure::Invalid { reason: s("bad") })), "bad");
    assert_eq!(
        bad_request_reason(change_error(&create, PolicyStoreFailure::Parse { errors: s("line 1") })),
        "Policy parsing failed: line 1"
    );
    assert_eq!(
        bad_request_reason(change_error(&create, PolicyStoreFailure::OtherPolicyError { message: s("x") })),
        "Policy error: x"
    );
    match change_error(&PolicyChange::UpdateAll, PolicyStoreFailure::AlreadyExists { message: s("Policy with id q already exists") }) {
        AgentError::Duplicate { object, id } => {
            assert_eq!(object, "policy");
            assert_eq!(id, "q");
        },
        other => panic!("unexpected {:?}", other),
    }
    assert_eq!(bad_request_reason(change_error(&PolicyChange::UpdateAll, PolicyStoreFailure::Other { message: s("boom") })), "boom");
    assert_eq!(
        bad_request_reason(change_error(&PolicyChange::UpdateOne, PolicyStoreFailure::AlreadyExists { message: s("dup") })),
        "dup"
    );
    match change_error(&PolicyChange::Delete { id: s("d") }, PolicyStoreFailure::Other { message: s("gone") }) {
        AgentError::NotFound { object, id } => {
            assert_eq!(object, "Policy");
            assert_eq!(id, "d");
        },
        other => panic!("unexpected {:?}", other),
    }
    assert_eq!(get_policy(Some(7), s("x")).unwrap(), 7);
    match get_policy::<u8>(None, s("x")).unwrap_err() {
        AgentError::NotFound { object, id } => {
            assert_eq!(object, "policy");
            assert_eq!(id, "x");
        },
        other => panic!("unexpected {:?}", other),
    }
}

#[test]
fn policy_flow_success_and_rollback() {
    let mut flow = MutationFlow::<Vec<String>, ()>::policy(PolicyChange::UpdateOne, vec![s("p0")]);
    assert_eq!(flow.next_step(), Step::ApplyPolicyChange);
    assert_eq!(flow.previous_policies(), Some(&vec![s("p0")]));
    assert_eq!(flow.previous_entities(), None);
    flow.policy_change_done(Ok(()));
    assert_eq!(flow.next_step(), Step::Invalidate);
    flow.step_done(Ok(()));
    assert!(flow.finished().unwrap().is_ok());

    let mut flow = MutationFlow::<Vec<String>, ()>::policy(PolicyChange::UpdateAll, vec![]);
    flow.policy_change_done(Ok(()));
    flow.step_done(Err(s("pg down")));
    assert_eq!(flow.next_step(), Step::RestorePolicies);
    flow.step_done(Ok(()));
    assert_eq!(
        bad_request_reason(flow.finished().unwrap().unwrap_err()),
        "Authorization cache invalidation failed (policy change rolled back): pg down"
    );

    let mut flow = MutationFlow::<Vec<String>, ()>::policy(PolicyChange::Delete { id: s("p") }, vec![s("p")]);
    flow.policy_change_done(Ok(()));
    flow.step_done(Err(s("pg down")));
    flow.step_done(Err(s("store gone")));
    assert_eq!(
        bad_request_reason(flow.finished().unwrap().unwrap_err()),
        "Authorization cache invalidation failed and rollback failed: pg down (rollback error: store gone)"
    );

    let mut flow = MutationFlow::<Vec<String>, ()>::policy(PolicyChange::Create { id: s("p") }, vec![]);
    flow.policy_change_done(Err(PolicyStoreFailure::Invalid { reason: s("no") }));
    assert_eq!(flow.next_step(), Step::Finish);
    assert_eq!(bad_request_reason(flow.finished().unwrap().unwrap_err()), "no");
}

#[test]
fn schema_flow_steps() {
    let mut flow = MutationFlow::replace_schema(JsonValue::Null, sample_schema(), vec![s("p0")], 1u8);
    let mut seen = vec![];
    while flow.next_step() != Step::Finish {
        seen.push(flow.next_step());
        flow.step_done(Ok(()));
    }
    assert_eq!(
        seen,
        vec![Step::ConvertSchema, Step::RevalidatePolicies, Step::RevalidateEntities, Step::StoreSchema, Step::Invalidate]
    );
    assert!(flow.finished().unwrap().is_ok());

    let mut flow = MutationFlow::replace_schema(JsonValue::Null, sample_schema(), vec![s("p0")], 1u8);
    flow.step_done(Ok(()));
    flow.step_done(Err(s("policy p0 uses unknown attribute")));
    assert_eq!(
        bad_request_reason(flow.finished().unwrap().unwrap_err()),
        "Existing policies invalid with the new schema: policy p0 uses unknown attribute"
    );

    let mut flow = MutationFlow::delete_schema(sample_schema(), vec![s("p0")], 1u8);
    assert_eq!(flow.next_step(), Step::DeleteSchema);
    flow.step_done(Ok(()));
    flow.step_done(Err(s("timeout")));
    let mut restore = vec![];
    while flow.next_step() != Step::Finish {
        restore.push(flow.next_step());
        flow.step_done(Ok(()));
    }
    assert_eq!(
        restore,
        vec![Step::RestoreSchema, Step::ConvertPreviousSchema, Step::RestorePreviousPolicies, Step::RestorePreviousEntities]
    );
    assert_eq!(
        bad_request_reason(flow.finished().unwrap().unwrap_err()),
        "Authorization cache invalidation failed (schema change rolled back): timeout"
    );

    let mut flow = MutationFlow::replace_schema(JsonValue::Null, sample_schema(), vec![s("p0")], 1u8);
    for _ in 0..4 {
        flow.step_done(Ok(()));
    }
    flow.step_done(Err(s("timeout")));
    flow.step_done(Ok(()));
    flow.step_done(Err(s("bad json")));
    assert_eq!(
        bad_request_reason(flow.finished().unwrap().unwrap_err()),
        "Authorization cache invalidation failed and rollback failed: timeout (rollback error: schema rollback conversion failed: bad json)"
    );
}
