//! Full exchanges against the reference peer: the client builds the
//! request frame, the peer answers it from its store, and the client
//! decodes the response.

use unary_client::ops::{
    get_config_request, get_data_source_request, get_data_source_response,
    get_tidb_patterns_request, get_tidb_patterns_response, CallError,
};
use unary_client::peer::{respond_data_source, respond_tidb_patterns};
use unary_client::types::{
    DataSource, DataSourceKey, EventCategory, TiKind, TiRule, Tidb,
};

fn data_source_store() -> Vec<DataSource> {
    vec![
        DataSource {
            id: 3,
            name: "name3".to_string(),
            description: None,
        },
        DataSource {
            id: 5,
            name: "name5".to_string(),
            description: Some("the fifth source".to_string()),
        },
    ]
}

fn tidb_store() -> Vec<(String, Tidb)> {
    vec![(
        "db1".to_string(),
        Tidb {
            id: 1,
            name: "name1".to_string(),
            description: Some("description1".to_string()),
            kind: TiKind::Token,
            category: EventCategory::Execution,
            version: "1.0.0".to_string(),
            patterns: vec![TiRule {
                rule_id: 9,
                category: EventCategory::Unknown,
                name: "rule1".to_string(),
                description: Some("description1".to_string()),
                references: Some(vec!["ref1".to_string()]),
                samples: Some(vec!["sample1".to_string()]),
                signatures: Some(vec!["sig1".to_string()]),
            }],
        },
    )]
}

#[test]
fn get_data_source() {
    let store = data_source_store();
    let request = get_data_source_request(&DataSourceKey::Id(5));
    let response = respond_data_source(&store, &request).unwrap();
    let client_res = get_data_source_response(&response);
    assert!(client_res.is_ok());
    let received_data_source = client_res.unwrap();
    assert_eq!(received_data_source.name, "name5");
}

#[test]
fn get_data_source_by_name() {
    let store = data_source_store();
    let request = get_data_source_request(&DataSourceKey::Name("name3".to_string()));
    let got = get_data_source_response(&respond_data_source(&store, &request).unwrap());
    assert_eq!(got.unwrap().id, 3);
}

#[test]
fn get_data_source_absent_is_not_found() {
    let store = data_source_store();
    let request = get_data_source_request(&DataSourceKey::Id(999));
    let got = get_data_source_response(&respond_data_source(&store, &request).unwrap());
    assert!(matches!(got, Err(CallError::NotFound)));
}

#[test]
fn get_tidb_patterns() {
    let store = tidb_store();
    let db_names = vec![
        ("db1".to_string(), "table1".to_string()),
        ("db2".to_string(), "table2".to_string()),
    ];
    let request = get_tidb_patterns_request(&db_names);
    let response = respond_tidb_patterns(&store, &request).unwrap();
    let client_res = get_tidb_patterns_response(&response);
    assert!(client_res.is_ok());
    let received_patterns = client_res.unwrap();
    assert_eq!(received_patterns.len(), db_names.len());
    for (i, (name, _)) in received_patterns.iter().enumerate() {
        assert_eq!(name, &db_names[i].0);
    }
    assert_eq!(received_patterns[0].0, "db1");
    let db1 = received_patterns[0].1.as_ref().unwrap();
    assert_eq!(db1.name, "name1");
    assert_eq!(db1.version, "1.0.0");
    assert_eq!(db1.patterns.len(), 1);
    assert_eq!(db1.patterns[0].name, "rule1");
    assert_eq!(received_patterns[1].0, "db2");
    assert!(received_patterns[1].1.is_none());
}

#[test]
fn batch_output_always_one_entry_per_key() {
    let store = tidb_store();
    // Duplicate and unmatched keys still get one entry each, in order.
    let db_names = vec![
        ("db9".to_string(), "t".to_string()),
        ("db1".to_string(), "t".to_string()),
        ("db1".to_string(), "t".to_string()),
        ("db8".to_string(), "t".to_string()),
    ];
    let request = get_tidb_patterns_request(&db_names);
    let got =
        get_tidb_patterns_response(&respond_tidb_patterns(&store, &request).unwrap()).unwrap();
    assert_eq!(got.len(), 4);
    for (i, (name, hit)) in got.iter().enumerate() {
        assert_eq!(name, &db_names[i].0);
        assert_eq!(hit.is_some(), db_names[i].0 == "db1");
    }
}

#[test]
fn misdirected_request_is_rejected() {
    let store = tidb_store();
    // A request carrying another operation's code is answered with an
    // error outcome, not with a guessed value.
    let request = get_config_request();
    let response = respond_tidb_patterns(&store, &request).unwrap();
    match get_tidb_patterns_response(&response) {
        Err(CallError::Service(m)) => assert_eq!(m, "unexpected request"),
        other => panic!("expected the rejection error, got {other:?}"),
    }
}
