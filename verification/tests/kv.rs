use actias::error::{ErrorKind, ScriptError};
use actias::ids::id_text;
use actias::kv::database::{decode_token, encode_token, row_to_pair, Database, DatabaseError};
use actias::kv::kv_service::{status_of, KvService};
use actias::kv::model::{Pair, PairRequest};
use actias::kv::namespace::{read_reply, Entry, KvExtension, KvNamespace, KvRequest};
use actias::kv::value::{from_service_value, into_service_value, is_json, ScriptValue, ValueType};
use actias::error::Status;

const PROJECT: u128 = 0xabc;
const OTHER: u128 = 0xdef;

fn pair(project: u128, namespace: &str, key: &str, value: &str, value_type: ValueType) -> Pair {
    Pair {
        project_id: id_text(project),
        namespace: namespace.to_string(),
        key: key.to_string(),
        value: value.to_string(),
        value_type,
        ttl: None,
    }
}

fn request(project: u128, namespace: &str, key: &str) -> PairRequest {
    PairRequest {
        project_id: id_text(project),
        namespace: namespace.to_string(),
        key: key.to_string(),
    }
}

fn five_pairs() -> Database {
    let mut database = Database::new();
    let pairs: Vec<Pair> = (1..=5)
        .map(|i| pair(PROJECT, "n", &format!("k{}", i), &format!("v{}", i), ValueType::String))
        .collect();
    database.set(pairs).unwrap();
    database
}

#[test]
fn type_names_are_the_five_lower_case_words() {
    assert_eq!(ValueType::String.into(), "string");
    assert_eq!(ValueType::Integer.into(), "integer");
    assert_eq!(ValueType::Number.into(), "number");
    assert_eq!(ValueType::Boolean.into(), "boolean");
    assert_eq!(ValueType::Json.into(), "json");
}

#[test]
fn type_names_are_read_back() {
    for value_type in [
        ValueType::String,
        ValueType::Integer,
        ValueType::Number,
        ValueType::Boolean,
        ValueType::Json,
    ] {
        assert_eq!(ValueType::try_from(&value_type.into()), Ok(value_type));
    }
}

#[test]
fn an_unknown_type_name_is_refused() {
    assert_eq!(
        ValueType::try_from("object"),
        Err("Invalid metadata existed for 'type".to_string())
    );
    assert_eq!(ValueType::try_from("String").is_err(), true);
    assert_eq!(ValueType::try_from("").is_err(), true);
}

#[test]
fn values_are_stored_as_typed_text() {
    assert_eq!(into_service_value(&ScriptValue::Nil), Ok(None));
    assert_eq!(
        into_service_value(&ScriptValue::Boolean(true)),
        Ok(Some((ValueType::Boolean, "true".to_string())))
    );
    assert_eq!(
        into_service_value(&ScriptValue::Boolean(false)),
        Ok(Some((ValueType::Boolean, "false".to_string())))
    );
    assert_eq!(
        into_service_value(&ScriptValue::Integer(-17)),
        Ok(Some((ValueType::Integer, "-17".to_string())))
    );
    assert_eq!(
        into_service_value(&ScriptValue::Number("1.5".to_string())),
        Ok(Some((ValueType::Number, "1.5".to_string())))
    );
    assert_eq!(
        into_service_value(&ScriptValue::String("as is".to_string())),
        Ok(Some((ValueType::String, "as is".to_string())))
    );
    assert_eq!(
        into_service_value(&ScriptValue::Table("{\"a\":1}".to_string())),
        Ok(Some((ValueType::Json, "{\"a\":1}".to_string())))
    );
    assert_eq!(
        into_service_value(&ScriptValue::Vector("[1,2,3]".to_string())),
        Ok(Some((ValueType::Json, "[1,2,3]".to_string())))
    );
}

#[test]
fn values_that_cannot_be_stored_are_serialize_errors() {
    assert_eq!(
        into_service_value(&ScriptValue::Other),
        Err(ScriptError::SerializeError("Invalid datatype provided".to_string()))
    );
    assert_eq!(
        into_service_value(&ScriptValue::Unwritable("cycle".to_string())),
        Err(ScriptError::SerializeError("cycle".to_string()))
    );
}

#[test]
fn stored_text_is_read_by_its_type() {
    assert_eq!(
        from_service_value(ValueType::String, "true"),
        Ok(ScriptValue::String("true".to_string()))
    );
    assert_eq!(from_service_value(ValueType::Boolean, "true"), Ok(ScriptValue::Boolean(true)));
    assert_eq!(from_service_value(ValueType::Boolean, "false"), Ok(ScriptValue::Boolean(false)));
    assert_eq!(from_service_value(ValueType::Integer, "-17"), Ok(ScriptValue::Integer(-17)));
    assert_eq!(
        from_service_value(ValueType::Number, "1.5"),
        Ok(ScriptValue::Number("1.5".to_string()))
    );
    assert_eq!(
        from_service_value(ValueType::Json, "{\"a\":1}"),
        Ok(ScriptValue::Table("{\"a\":1}".to_string()))
    );
}

#[test]
fn malformed_stored_text_is_an_error_to_the_script() {
    assert_eq!(
        from_service_value(ValueType::Boolean, "yes"),
        Err(ScriptError::RuntimeError("Boolean value was not a boolean".to_string()))
    );
    assert_eq!(
        from_service_value(ValueType::Integer, "1.5"),
        Err(ScriptError::RuntimeError("Integer value was not an integer".to_string()))
    );
    assert_eq!(
        from_service_value(ValueType::Json, "{a=1}"),
        Err(ScriptError::DeserializeError("Stored value was not valid JSON".to_string()))
    );
    assert_eq!(
        from_service_value(ValueType::Number, "one"),
        Err(ScriptError::RuntimeError("Number value was not a number".to_string()))
    );
}

#[test]
fn json_is_told_from_what_is_not() {
    assert!(is_json("{\"a\":1}"));
    assert!(is_json("[1,2,3]"));
    assert!(is_json("null"));
    assert!(!is_json("{a=1}"));
    assert!(!is_json(""));
    assert!(!is_json("{\"a\":1"));
}

#[test]
fn a_value_is_read_back_as_it_was_stored() {
    let samples = vec![
        ScriptValue::Boolean(true),
        ScriptValue::Boolean(false),
        ScriptValue::Integer(0),
        ScriptValue::Integer(i64::MIN),
        ScriptValue::Integer(i64::MAX),
        ScriptValue::Number("-0.25".to_string()),
        ScriptValue::String("".to_string()),
        ScriptValue::String("true".to_string()),
        ScriptValue::Table("{\"a\":[1,2,{\"b\":null}]}".to_string()),
    ];
    for value in samples {
        let (value_type, text) = into_service_value(&value).unwrap().unwrap();
        assert_eq!(from_service_value(value_type, &text), Ok(value));
    }
}

#[test]
fn a_pair_that_was_set_is_got() {
    let mut database = Database::new();
    database.set(vec![pair(PROJECT, "n", "k", "v", ValueType::String)]).unwrap();
    let got = database.get(&id_text(PROJECT), "n", "k").unwrap().unwrap();
    assert_eq!(got, pair(PROJECT, "n", "k", "v", ValueType::String));
    assert_eq!(database.get(&id_text(PROJECT), "n", "other").unwrap(), None);
    assert_eq!(database.get(&id_text(PROJECT), "m", "k").unwrap(), None);
    assert_eq!(database.get(&id_text(OTHER), "n", "k").unwrap(), None);
}

#[test]
fn setting_a_key_again_replaces_its_value() {
    let mut database = Database::new();
    database.set(vec![pair(PROJECT, "n", "k", "1", ValueType::Integer)]).unwrap();
    database
        .set(vec![
            pair(PROJECT, "n", "k", "two", ValueType::String),
            pair(PROJECT, "n", "k", "3", ValueType::Integer),
        ])
        .unwrap();
    let got = database.get(&id_text(PROJECT), "n", "k").unwrap().unwrap();
    assert_eq!(got.value, "3");
    assert_eq!(got.value_type, ValueType::Integer);
    let listed = database.list(&id_text(PROJECT), "n", 10, None).unwrap();
    assert_eq!(listed.pairs.len(), 1);
}

#[test]
fn a_time_to_live_of_zero_means_that_the_pair_stays() {
    let mut database = Database::new();
    let mut staying = pair(PROJECT, "n", "a", "1", ValueType::Integer);
    staying.ttl = Some(0);
    let mut passing = pair(PROJECT, "n", "b", "2", ValueType::Integer);
    passing.ttl = Some(60);
    database.set(vec![staying, passing]).unwrap();
    assert_eq!(database.get(&id_text(PROJECT), "n", "a").unwrap().unwrap().ttl, None);
    assert_eq!(database.get(&id_text(PROJECT), "n", "b").unwrap().unwrap().ttl, Some(60));
}

#[test]
fn nothing_is_written_when_a_pair_is_refused() {
    let mut database = Database::new();
    let mut bad = pair(PROJECT, "n", "b", "2", ValueType::Integer);
    bad.project_id = "project".to_string();
    let error = database.set(vec![pair(PROJECT, "n", "a", "1", ValueType::Integer), bad]).unwrap_err();
    assert_eq!(
        error,
        DatabaseError::InvalidError("project id was not a valid uuid".to_string())
    );
    assert_eq!(error.message(), "Invalid data provided: project id was not a valid uuid");
    assert_eq!(database.get(&id_text(PROJECT), "n", "a").unwrap(), None);
    let mut negative = pair(PROJECT, "n", "c", "3", ValueType::Integer);
    negative.ttl = Some(-1);
    let error = database.set(vec![negative]).unwrap_err();
    assert_eq!(error, DatabaseError::QueryError("A TTL must be greater or equal to 0".to_string()));
    assert_eq!(error.message(), "A TTL must be greater or equal to 0");
}

#[test]
fn a_deleted_pair_is_gone() {
    let mut database = five_pairs();
    database.delete(vec![request(PROJECT, "n", "k2"), request(PROJECT, "n", "nope")]).unwrap();
    assert_eq!(database.get(&id_text(PROJECT), "n", "k2").unwrap(), None);
    let listed = database.list(&id_text(PROJECT), "n", 10, None).unwrap();
    let keys: Vec<String> = listed.pairs.iter().map(|p| p.key.clone()).collect();
    assert_eq!(keys, vec!["k1", "k3", "k4", "k5"]);
    assert!(database.delete(vec![request(PROJECT, "n", "k1"), PairRequest {
        project_id: "x".to_string(),
        namespace: "n".to_string(),
        key: "k3".to_string(),
    }]).is_err());
    assert!(database.get(&id_text(PROJECT), "n", "k1").unwrap().is_some());
}

#[test]
fn five_pairs_are_listed_in_pages_of_two() {
    let database = five_pairs();
    let first = database.list(&id_text(PROJECT), "n", 2, None).unwrap();
    assert_eq!(first.page_size, 2);
    assert_eq!(first.pairs.len(), 2);
    let token = first.token.clone().expect("more pairs follow");
    let second = database.list(&id_text(PROJECT), "n", 2, Some(&token)).unwrap();
    assert_eq!(second.pairs.len(), 2);
    let token = second.token.clone().expect("more pairs follow");
    let third = database.list(&id_text(PROJECT), "n", 2, Some(&token)).unwrap();
    assert_eq!(third.pairs.len(), 1);
    assert_eq!(third.token, None);
    let mut keys: Vec<String> = Vec::new();
    for page in [first, second, third] {
        for pair in page.pairs {
            keys.push(pair.key);
        }
    }
    assert_eq!(keys.len(), 5);
    let mut unique = keys.clone();
    unique.sort();
    unique.dedup();
    assert_eq!(unique.len(), 5);
    assert_eq!(keys, vec!["k1", "k2", "k3", "k4", "k5"]);
}

#[test]
fn every_pair_is_listed_once_for_any_page_size() {
    let database = five_pairs();
    for size in 1..=7 {
        let mut keys: Vec<String> = Vec::new();
        let mut token: Option<String> = None;
        let mut calls = 0;
        loop {
            let page = database.list(&id_text(PROJECT), "n", size, token.as_deref()).unwrap();
            calls += 1;
            assert!(page.pairs.len() <= size as usize);
            for pair in page.pairs {
                keys.push(pair.key);
            }
            token = page.token;
            if token.is_none() {
                break;
            }
            assert!(calls < 10);
        }
        assert_eq!(keys, vec!["k1", "k2", "k3", "k4", "k5"]);
    }
}

#[test]
fn a_page_that_ends_with_the_last_pair_has_no_token() {
    let database = five_pairs();
    let page = database.list(&id_text(PROJECT), "n", 5, None).unwrap();
    assert_eq!(page.pairs.len(), 5);
    assert_eq!(page.token, None);
    let empty = database.list(&id_text(PROJECT), "empty", 5, None).unwrap();
    assert!(empty.pairs.is_empty());
    assert_eq!(empty.token, None);
}

#[test]
fn a_listing_shows_only_its_namespace() {
    let mut database = five_pairs();
    database.set(vec![
        pair(PROJECT, "m", "x", "1", ValueType::Integer),
        pair(OTHER, "n", "y", "2", ValueType::Integer),
    ]).unwrap();
    let page = database.list(&id_text(PROJECT), "n", 10, None).unwrap();
    assert_eq!(page.pairs.len(), 5);
    assert!(page.pairs.iter().all(|p| p.namespace == "n" && p.project_id == id_text(PROJECT)));
}

#[test]
fn a_token_is_unpadded_base64_of_a_position() {
    assert_eq!(encode_token(2), "AgAAAAAAAAA");
    assert_eq!(decode_token("AgAAAAAAAAA"), Some(2));
    assert_eq!(decode_token(&encode_token(u64::MAX)), Some(u64::MAX));
    assert_eq!(decode_token("AgAAAAAAAAA="), None);
    assert_eq!(decode_token("AgAA"), None);
    assert_eq!(decode_token("not a token"), None);
}

#[test]
fn a_listing_refuses_bad_arguments() {
    let database = five_pairs();
    assert_eq!(
        database.list("p", "n", 2, None).unwrap_err(),
        DatabaseError::InvalidError("project id was not a valid uuid".to_string())
    );
    assert_eq!(
        database.list(&id_text(PROJECT), "n", 2, Some("???")).unwrap_err(),
        DatabaseError::InvalidError("Invalid token provided".to_string())
    );
    assert_eq!(
        database.list(&id_text(PROJECT), "n", 0, None).unwrap_err(),
        DatabaseError::InvalidError("page size must be larger than 0".to_string())
    );
    assert_eq!(
        database.list(&id_text(PROJECT), "n", 2, Some("AQID")).unwrap_err(),
        DatabaseError::InvalidError("Invalid token provided".to_string())
    );
    assert!(database.list(&id_text(PROJECT), "n", -3, None).is_err());
}

#[test]
fn a_token_behind_the_last_pair_gives_an_empty_page() {
    let database = five_pairs();
    let page = database.list(&id_text(PROJECT), "n", 2, Some(&encode_token(9))).unwrap();
    assert!(page.pairs.is_empty());
    assert_eq!(page.token, None);
    let page = database.list(&id_text(PROJECT), "n", 2, Some(&encode_token(u64::MAX))).unwrap();
    assert!(page.pairs.is_empty());
    assert_eq!(page.token, None);
}

#[test]
fn namespaces_are_counted() {
    let mut database = five_pairs();
    database.set(vec![
        pair(PROJECT, "m", "x", "1", ValueType::Integer),
        pair(OTHER, "o", "y", "2", ValueType::Integer),
        pair(PROJECT, "m", "z", "3", ValueType::Integer),
    ]).unwrap();
    let answer = database.get_namespaces(&id_text(PROJECT)).unwrap();
    let seen: Vec<(String, i32)> =
        answer.namespaces.iter().map(|n| (n.name.clone(), n.count)).collect();
    assert_eq!(seen, vec![("n".to_string(), 5), ("m".to_string(), 2)]);
    assert!(answer.namespaces.iter().all(|n| n.project_id == id_text(PROJECT)));
    assert!(database.get_namespaces(&id_text(0x999)).unwrap().namespaces.is_empty());
    assert!(database.get_namespaces("p").is_err());
}

#[test]
fn a_namespace_is_gone_with_its_last_pair() {
    let mut database = five_pairs();
    database.set(vec![pair(PROJECT, "m", "x", "1", ValueType::Integer)]).unwrap();
    database.delete(vec![request(PROJECT, "m", "x")]).unwrap();
    let answer = database.get_namespaces(&id_text(PROJECT)).unwrap();
    assert_eq!(answer.namespaces.len(), 1);
    assert_eq!(answer.namespaces[0].name, "n");
}

#[test]
fn a_namespace_is_deleted_with_all_its_pairs() {
    let mut database = five_pairs();
    database.set(vec![
        pair(PROJECT, "m", "x", "1", ValueType::Integer),
        pair(OTHER, "n", "y", "2", ValueType::Integer),
    ]).unwrap();
    database.delete_namespace(&id_text(PROJECT), "n").unwrap();
    assert!(database.list(&id_text(PROJECT), "n", 10, None).unwrap().pairs.is_empty());
    assert!(database.get(&id_text(PROJECT), "m", "x").unwrap().is_some());
    assert!(database.get(&id_text(OTHER), "n", "y").unwrap().is_some());
    assert!(database.delete_namespace("p", "n").is_err());
}

#[test]
fn a_project_is_deleted_with_all_its_pairs() {
    let mut database = five_pairs();
    database.set(vec![
        pair(PROJECT, "m", "x", "1", ValueType::Integer),
        pair(OTHER, "n", "y", "2", ValueType::Integer),
    ]).unwrap();
    database.delete_project(&id_text(PROJECT)).unwrap();
    assert!(database.get_namespaces(&id_text(PROJECT)).unwrap().namespaces.is_empty());
    assert!(database.get(&id_text(OTHER), "n", "y").unwrap().is_some());
    assert!(database.delete_project("p").is_err());
}

#[test]
fn a_stored_row_is_shown_with_its_type() {
    let shown = row_to_pair(
        Some(30),
        PROJECT,
        "n".to_string(),
        "k".to_string(),
        "12".to_string(),
        "integer",
    )
    .unwrap();
    assert_eq!(shown.project_id, id_text(PROJECT));
    assert_eq!(shown.value_type, ValueType::Integer);
    assert_eq!(shown.ttl, Some(30));
    let error = row_to_pair(None, PROJECT, "n".to_string(), "k".to_string(), "12".to_string(), "int")
        .unwrap_err();
    assert_eq!(error, DatabaseError::InvalidError("Invalid metadata existed for 'type".to_string()));
}

#[test]
fn refusals_of_the_table_surface_as_statuses() {
    let status = status_of(&DatabaseError::InvalidError("x".to_string()));
    assert_eq!(status.kind, ErrorKind::InvalidArgument);
    assert_eq!(status.message, "Invalid data provided: x");
    let status = status_of(&DatabaseError::QueryError("y".to_string()));
    assert_eq!(status.kind, ErrorKind::Internal);
    assert_eq!(status.message, "y");
    assert_eq!(status_of(&DatabaseError::FromRowError("z".to_string())).kind, ErrorKind::Internal);
    assert_eq!(
        status_of(&DatabaseError::FirstRowTypedError("z".to_string())).kind,
        ErrorKind::Internal
    );
}

#[test]
fn a_pair_that_is_not_there_is_not_found() {
    let service = KvService::new(five_pairs());
    let status = service.get_pair(&request(PROJECT, "n", "k9")).unwrap_err();
    assert_eq!(status.kind, ErrorKind::NotFound);
    assert_eq!(status.message, "'k9' was not found in 'n' namespace.");
    assert_eq!(service.get_pair(&request(PROJECT, "n", "k1")).unwrap().value, "v1");
    let mut bad = request(PROJECT, "n", "k1");
    bad.project_id = "p".to_string();
    assert_eq!(service.get_pair(&bad).unwrap_err().kind, ErrorKind::InvalidArgument);
}

#[test]
fn the_service_lists_and_deletes_like_the_table() {
    let mut service = KvService::new(five_pairs());
    let page = service.list_pairs(&id_text(PROJECT), "n", 2, None).unwrap();
    assert_eq!(page.pairs.len(), 2);
    assert!(page.token.is_some());
    assert_eq!(
        service.list_pairs(&id_text(PROJECT), "n", 0, None).unwrap_err().kind,
        ErrorKind::InvalidArgument
    );
    service.delete_pairs(vec![request(PROJECT, "n", "k1")]).unwrap();
    assert_eq!(service.list_namespaces(&id_text(PROJECT)).unwrap().namespaces[0].count, 4);
    service.set_pairs(vec![pair(PROJECT, "m", "x", "1", ValueType::Integer)]).unwrap();
    service.delete_namespace(&id_text(PROJECT), "n").unwrap();
    assert_eq!(service.list_namespaces(&id_text(PROJECT)).unwrap().namespaces.len(), 1);
    service.delete_project(&id_text(PROJECT)).unwrap();
    assert!(service.list_namespaces(&id_text(PROJECT)).unwrap().namespaces.is_empty());
}

#[test]
fn a_table_set_by_a_script_is_read_back_and_nil_deletes() {
    let mut service = KvService::new(Database::new());
    let extension = KvExtension { project_id: id_text(PROJECT) };
    let namespace = extension.get_namespace("n".to_string());
    let table = ScriptValue::Table("{\"a\":1}".to_string());
    namespace.set(&mut service, "k", &table).unwrap();
    assert_eq!(namespace.get(&service, "k"), Ok(table));
    namespace.set(&mut service, "k", &ScriptValue::Nil).unwrap();
    assert_eq!(namespace.get(&service, "k"), Ok(ScriptValue::Nil));
}

#[test]
fn a_handle_reads_what_it_wrote_for_every_type() {
    let mut service = KvService::new(Database::new());
    let namespace = KvNamespace::new(&id_text(PROJECT), "n");
    let samples = vec![
        ("b", ScriptValue::Boolean(true)),
        ("i", ScriptValue::Integer(-5)),
        ("f", ScriptValue::Number("2.75".to_string())),
        ("s", ScriptValue::String("text".to_string())),
        ("t", ScriptValue::Table("[1,2]".to_string())),
    ];
    for (key, value) in &samples {
        namespace.set(&mut service, key, value).unwrap();
    }
    for (key, value) in &samples {
        assert_eq!(namespace.get(&service, key), Ok(value.clone()));
    }
    assert_eq!(namespace.get(&service, "none"), Ok(ScriptValue::Nil));
}

#[test]
fn a_value_that_cannot_be_stored_is_not_set() {
    let mut service = KvService::new(Database::new());
    let namespace = KvNamespace::new(&id_text(PROJECT), "n");
    assert_eq!(
        namespace.set(&mut service, "k", &ScriptValue::Other),
        Err(ScriptError::SerializeError("Invalid datatype provided".to_string()))
    );
    assert_eq!(namespace.get(&service, "k"), Ok(ScriptValue::Nil));
}

#[test]
fn a_batch_sets_and_deletes() {
    let mut service = KvService::new(Database::new());
    let namespace = KvNamespace::new(&id_text(PROJECT), "n");
    namespace.set(&mut service, "old", &ScriptValue::Integer(1)).unwrap();
    let entries = vec![
        Entry { key: "a".to_string(), value: ScriptValue::Integer(1) },
        Entry { key: "old".to_string(), value: ScriptValue::Nil },
        Entry { key: "b".to_string(), value: ScriptValue::String("x".to_string()) },
    ];
    namespace.set_batch(&mut service, &entries).unwrap();
    assert_eq!(namespace.get(&service, "a"), Ok(ScriptValue::Integer(1)));
    assert_eq!(namespace.get(&service, "b"), Ok(ScriptValue::String("x".to_string())));
    assert_eq!(namespace.get(&service, "old"), Ok(ScriptValue::Nil));
}

#[test]
fn a_batch_with_a_value_that_cannot_be_stored_does_nothing() {
    let mut service = KvService::new(Database::new());
    let namespace = KvNamespace::new(&id_text(PROJECT), "n");
    let entries = vec![
        Entry { key: "a".to_string(), value: ScriptValue::Integer(1) },
        Entry { key: "b".to_string(), value: ScriptValue::Other },
    ];
    assert!(namespace.set_batch(&mut service, &entries).is_err());
    assert_eq!(namespace.get(&service, "a"), Ok(ScriptValue::Nil));
}

#[test]
fn keys_are_deleted_together() {
    let mut service = KvService::new(five_pairs());
    let namespace = KvNamespace::new(&id_text(PROJECT), "n");
    namespace.delete(&mut service, &vec!["k1".to_string(), "k5".to_string()]).unwrap();
    assert_eq!(namespace.get(&service, "k1"), Ok(ScriptValue::Nil));
    assert_eq!(namespace.get(&service, "k3"), Ok(ScriptValue::String("v3".to_string())));
    assert_eq!(service.list_namespaces(&id_text(PROJECT)).unwrap().namespaces[0].count, 3);
}

#[test]
fn a_set_is_a_write_and_a_nil_is_a_removal() {
    let namespace = KvNamespace::new(&id_text(PROJECT), "n");
    match namespace.set_request("k", &ScriptValue::Integer(4)).unwrap() {
        KvRequest::Write(pairs) => {
            assert_eq!(pairs, vec![pair(PROJECT, "n", "k", "4", ValueType::Integer)]);
        }
        KvRequest::Remove(_) => panic!("a value is written"),
    }
    match namespace.set_request("k", &ScriptValue::Nil).unwrap() {
        KvRequest::Remove(requests) => assert_eq!(requests, vec![request(PROJECT, "n", "k")]),
        KvRequest::Write(_) => panic!("nil removes"),
    }
}

#[test]
fn the_answer_to_a_read_becomes_a_value() {
    assert_eq!(
        read_reply(Ok(pair(PROJECT, "n", "k", "12", ValueType::Integer))),
        Ok(ScriptValue::Integer(12))
    );
    assert_eq!(
        read_reply(Err(Status { kind: ErrorKind::NotFound, message: "gone".to_string() })),
        Ok(ScriptValue::Nil)
    );
    assert_eq!(
        read_reply(Err(Status { kind: ErrorKind::Internal, message: "down".to_string() })),
        Err(ScriptError::RuntimeError("down".to_string()))
    );
    assert_eq!(
        read_reply(Ok(pair(PROJECT, "n", "k", "maybe", ValueType::Boolean))),
        Err(ScriptError::RuntimeError("Boolean value was not a boolean".to_string()))
    );
}

#[test]
fn a_handle_on_a_project_that_is_no_uuid_fails_with_a_runtime_error() {
    let mut service = KvService::new(five_pairs());
    let namespace = KvNamespace::new("project", "n");
    let refused = ScriptError::RuntimeError(
        "Invalid data provided: project id was not a valid uuid".to_string(),
    );
    assert_eq!(namespace.get(&service, "k1"), Err(refused.clone()));
    assert_eq!(namespace.set(&mut service, "k", &ScriptValue::Integer(1)), Err(refused.clone()));
    assert_eq!(namespace.set(&mut service, "k", &ScriptValue::Nil), Err(refused.clone()));
    assert_eq!(namespace.delete(&mut service, &vec!["k1".to_string()]), Err(refused.clone()));
    assert_eq!(namespace.delete(&mut service, &Vec::new()), Ok(()));
    let entries = vec![Entry { key: "a".to_string(), value: ScriptValue::Integer(1) }];
    assert_eq!(namespace.set_batch(&mut service, &entries), Err(refused));
    assert_eq!(namespace.set_batch(&mut service, &Vec::new()), Ok(()));
    assert_eq!(service.list_namespaces(&id_text(PROJECT)).unwrap().namespaces[0].count, 5);
}
