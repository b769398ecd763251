//! The typed call layer against handcrafted peer responses: success
//! values come back as-is, error strings come back as service errors
//! with the identical message, the keyed lookup distinguishes absence
//! from failure, the request-code table is a stable bijection, and a
//! malformed or truncated response frame fails the call instead of
//! producing a default value.

use unary_client::codec::{write_bytes, write_str, write_tag, write_u32};
use unary_client::ops;
use unary_client::types::DataSourceKey;
use unary_client::frame::frame_of;
use unary_client::ops::{
    get_allow_list_response, get_config_request, get_config_response, get_data_source_response,
    get_pretrained_model_response, get_tor_exit_node_list_response, renew_certificate_response,
    CallError,
};
use unary_client::request_code::{code_to_u32, u32_to_code, RequestCode};
use unary_client::wire::{
    write_host_network_group, write_opt_data_source, write_vec_str,
};
use unary_client::types::{DataSource, HostNetworkGroup};

/// A success response frame whose value bytes are written by `fill`.
fn ok_frame(fill: impl FnOnce(&mut Vec<u8>)) -> Vec<u8> {
    let mut payload: Vec<u8> = Vec::new();
    write_tag(&mut payload, 0);
    fill(&mut payload);
    frame_of(&payload)
}

/// An error response frame carrying the message `m`.
fn err_frame(m: &str) -> Vec<u8> {
    let mut payload: Vec<u8> = Vec::new();
    write_tag(&mut payload, 1);
    write_str(&mut payload, m);
    frame_of(&payload)
}

#[test]
fn config_success_matches_peer_answer() {
    let resp = ok_frame(|p| write_str(p, "log_level = \"info\""));
    assert_eq!(get_config_response(&resp).unwrap(), "log_level = \"info\"");
}

#[test]
fn config_error_keeps_identical_message() {
    let resp = err_frame("backend unavailable");
    match get_config_response(&resp) {
        Err(CallError::Service(m)) => assert_eq!(m, "backend unavailable"),
        other => panic!("expected the service error, got {other:?}"),
    }
}

#[test]
fn allow_list_success() {
    let g = HostNetworkGroup {
        hosts: vec!["10.0.0.1".to_string()],
        networks: vec![],
        ip_ranges: vec![("10.3.0.1".to_string(), "10.3.0.9".to_string())],
    };
    let resp = ok_frame(|p| write_host_network_group(p, &g));
    let got = get_allow_list_response(&resp).unwrap();
    assert_eq!(got.hosts, g.hosts);
    assert_eq!(got.networks, g.networks);
    assert_eq!(got.ip_ranges, g.ip_ranges);
}

#[test]
fn tor_exit_node_list_success() {
    let resp = ok_frame(|p| write_vec_str(p, &vec!["n1".to_string(), "n2".to_string()]));
    assert_eq!(
        get_tor_exit_node_list_response(&resp).unwrap(),
        vec!["n1".to_string(), "n2".to_string()]
    );
}

#[test]
fn pretrained_model_success() {
    let resp = ok_frame(|p| write_bytes(p, &[1u8, 2, 3]));
    assert_eq!(get_pretrained_model_response(&resp).unwrap(), vec![1u8, 2, 3]);
}

#[test]
fn renew_certificate_success() {
    let resp = ok_frame(|p| {
        write_str(p, "cert-pem");
        write_str(p, "key-pem");
    });
    assert_eq!(
        renew_certificate_response(&resp).unwrap(),
        ("cert-pem".to_string(), "key-pem".to_string())
    );
}

#[test]
fn data_source_found_versus_absent_versus_error() {
    let record = DataSource {
        id: 5,
        name: "name5".to_string(),
        description: None,
    };
    let found = ok_frame(|p| write_opt_data_source(p, &Some(record)));
    assert_eq!(get_data_source_response(&found).unwrap().name, "name5");

    let absent = ok_frame(|p| write_opt_data_source(p, &None));
    assert!(matches!(
        get_data_source_response(&absent),
        Err(CallError::NotFound)
    ));

    let failed = err_frame("backend down");
    match get_data_source_response(&failed) {
        Err(CallError::Service(m)) => assert_eq!(m, "backend down"),
        other => panic!("absence and failure must stay distinct, got {other:?}"),
    }
}

#[test]
fn truncated_response_is_incomplete_not_success() {
    let resp = ok_frame(|p| write_str(p, "value"));
    for cut in 0..resp.len() {
        let r = get_config_response(&resp[..cut]);
        assert!(matches!(r, Err(CallError::Incomplete)));
    }
    assert_eq!(get_config_response(&resp).unwrap(), "value");
}

#[test]
fn malformed_response_is_an_error_not_a_default() {
    // An unknown outcome tag.
    let bad_tag = frame_of(&vec![7u8, 0, 0, 0, 0]);
    assert!(matches!(
        get_config_response(&bad_tag),
        Err(CallError::Malformed)
    ));
    // An empty payload.
    let empty = frame_of(&Vec::new());
    assert!(matches!(
        get_config_response(&empty),
        Err(CallError::Malformed)
    ));
    // A success tag whose value bytes are cut short inside the frame.
    let mut payload: Vec<u8> = Vec::new();
    write_tag(&mut payload, 0);
    write_u32(&mut payload, 3);
    let short = frame_of(&payload);
    assert!(matches!(
        get_config_response(&short),
        Err(CallError::Malformed)
    ));
    // Trailing bytes inside the payload after a complete value.
    let mut padded: Vec<u8> = Vec::new();
    write_tag(&mut padded, 0);
    write_str(&mut padded, "value");
    write_tag(&mut padded, 9);
    let padded = frame_of(&padded);
    assert!(matches!(
        get_config_response(&padded),
        Err(CallError::Malformed)
    ));
}

#[test]
fn request_codes_are_a_stable_bijection() {
    let all = [
        (RequestCode::GetConfig, 0u32),
        (RequestCode::GetAllowList, 1),
        (RequestCode::GetBlockList, 2),
        (RequestCode::GetDataSource, 3),
        (RequestCode::GetInternalNetworkList, 4),
        (RequestCode::GetTidbPatterns, 5),
        (RequestCode::GetTorExitNodeList, 6),
        (RequestCode::GetTrustedDomainList, 7),
        (RequestCode::GetTrustedUserAgentList, 8),
        (RequestCode::GetPretrainedModel, 9),
        (RequestCode::RenewCertificate, 10),
    ];
    for (c, n) in all {
        assert_eq!(code_to_u32(c), n);
        assert_eq!(u32_to_code(n), Some(c));
    }
    assert_eq!(u32_to_code(11), None);
    assert_eq!(u32_to_code(u32::MAX), None);
}

#[test]
fn request_frame_shape() {
    // [4-byte length][4-byte code][body]; an input-free request has an
    // empty body.
    let req = get_config_request();
    assert_eq!(req, vec![4u8, 0, 0, 0, 0, 0, 0, 0]);
}

#[test]
fn error_messages() {
    assert_eq!(CallError::Incomplete.message(), "incomplete response");
    assert_eq!(CallError::Malformed.message(), "malformed message");
    assert_eq!(CallError::NotFound.message(), "not found");
    assert_eq!(
        CallError::Service("backend down".to_string()).message(),
        "backend down"
    );
}

#[test]
fn empty_batch_round_trip() {
    let resp = ok_frame(|p| unary_client::wire_tidb::write_batch(p, &Vec::new()));
    let got = unary_client::ops::get_tidb_patterns_response(&resp).unwrap();
    assert!(got.is_empty());
}

#[test]
fn every_request_carries_its_operation_code() {
    let frames: Vec<(Vec<u8>, u8)> = vec![
        (ops::get_config_request(), 0),
        (ops::get_allow_list_request(), 1),
        (ops::get_block_list_request(), 2),
        (ops::get_data_source_request(&DataSourceKey::Id(5)), 3),
        (ops::get_internal_network_list_request(), 4),
        (
            ops::get_tidb_patterns_request(&vec![("db1".to_string(), "t1".to_string())]),
            5,
        ),
        (ops::get_tor_exit_node_list_request(), 6),
        (ops::get_trusted_domain_list_request(), 7),
        (ops::get_trusted_user_agent_list_request(), 8),
        (ops::get_pretrained_model_request("model"), 9),
        (ops::renew_certificate_request(&[1u8, 2]), 10),
    ];
    for (frame, code) in frames {
        // [4-byte length][4-byte code little endian][body]
        assert_eq!(&frame[4..8], &[code, 0, 0, 0]);
        let declared = u32::from_le_bytes([frame[0], frame[1], frame[2], frame[3]]) as usize;
        assert_eq!(declared, frame.len() - 4);
    }
}
