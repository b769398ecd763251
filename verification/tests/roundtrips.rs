//! Round trips through the wire codec on concrete values: decoding an
//! encoding yields the original value, for the input and output types
//! of every operation.

use unary_client::codec::{
    read_bytes, read_string, read_u32, write_bytes, write_str, write_u32,
};
use unary_client::frame::{frame_of, read_frame};
use unary_client::types::{
    DataSource, DataSourceKey, EventCategory, HostNetworkGroup, TiKind, TiRule, Tidb,
};
use unary_client::wire::{
    read_data_source, read_data_source_key, read_host_network_group, read_opt_data_source,
    read_pair, read_vec_pair, read_vec_string, write_data_source, write_data_source_key,
    write_host_network_group, write_opt_data_source, write_pair, write_vec_pair, write_vec_str,
};
use unary_client::wire_tidb::{read_batch, read_tidb, write_batch, write_tidb};

fn sample_tidb() -> Tidb {
    Tidb {
        id: 1,
        name: "name1".to_string(),
        description: Some("description1".to_string()),
        kind: TiKind::Token,
        category: EventCategory::Execution,
        version: "1.0.0".to_string(),
        patterns: vec![TiRule {
            rule_id: 9,
            category: EventCategory::Unknown,
            name: "rule1".to_string(),
            description: Some("description1".to_string()),
            references: Some(vec!["ref1".to_string()]),
            samples: Some(vec!["sample1".to_string()]),
            signatures: Some(vec!["sig1".to_string()]),
        }],
    }
}

#[test]
fn u32_round_trip() {
    let mut buf: Vec<u8> = Vec::new();
    write_u32(&mut buf, 0);
    write_u32(&mut buf, 305_419_896);
    write_u32(&mut buf, u32::MAX);
    assert_eq!(buf.len(), 12);
    let (a, i) = read_u32(&buf, 0).unwrap();
    let (b, j) = read_u32(&buf, i).unwrap();
    let (c, k) = read_u32(&buf, j).unwrap();
    assert_eq!((a, b, c), (0, 305_419_896, u32::MAX));
    assert_eq!(k, 12);
    assert!(read_u32(&buf, 9).is_none());
}

#[test]
fn string_round_trip() {
    let mut buf: Vec<u8> = Vec::new();
    write_str(&mut buf, "");
    write_str(&mut buf, "name5");
    write_str(&mut buf, "snowman \u{2603} and \u{1F600}");
    let (a, i) = read_string(&buf, 0).unwrap();
    let (b, j) = read_string(&buf, i).unwrap();
    let (c, _) = read_string(&buf, j).unwrap();
    assert_eq!(a, "");
    assert_eq!(b, "name5");
    assert_eq!(c, "snowman \u{2603} and \u{1F600}");
}

#[test]
fn string_rejects_bad_scalar() {
    let mut buf: Vec<u8> = Vec::new();
    write_u32(&mut buf, 1);
    write_u32(&mut buf, 0xD800);
    assert!(read_string(&buf, 0).is_none());
}

#[test]
fn bytes_round_trip() {
    let mut buf: Vec<u8> = Vec::new();
    write_bytes(&mut buf, &[7u8, 0, 255, 3]);
    let (v, i) = read_bytes(&buf, 0).unwrap();
    assert_eq!(v, vec![7u8, 0, 255, 3]);
    assert_eq!(i, 8);
}

#[test]
fn string_list_and_pair_round_trip() {
    let mut buf: Vec<u8> = Vec::new();
    write_vec_str(&mut buf, &vec!["tor1".to_string(), "tor2".to_string()]);
    write_pair(&mut buf, &("cert".to_string(), "key".to_string()));
    write_vec_pair(
        &mut buf,
        &vec![
            ("db1".to_string(), "table1".to_string()),
            ("db2".to_string(), "table2".to_string()),
        ],
    );
    let (v, i) = read_vec_string(&buf, 0).unwrap();
    let (p, j) = read_pair(&buf, i).unwrap();
    let (vp, _) = read_vec_pair(&buf, j).unwrap();
    assert_eq!(v, vec!["tor1".to_string(), "tor2".to_string()]);
    assert_eq!(p, ("cert".to_string(), "key".to_string()));
    assert_eq!(
        vp,
        vec![
            ("db1".to_string(), "table1".to_string()),
            ("db2".to_string(), "table2".to_string()),
        ]
    );
}

#[test]
fn host_network_group_round_trip() {
    let g = HostNetworkGroup {
        hosts: vec!["10.0.0.1".to_string()],
        networks: vec!["10.1.0.0/16".to_string(), "10.2.0.0/16".to_string()],
        ip_ranges: vec![("10.3.0.1".to_string(), "10.3.0.9".to_string())],
    };
    let mut buf: Vec<u8> = Vec::new();
    write_host_network_group(&mut buf, &g);
    let (h, i) = read_host_network_group(&buf, 0).unwrap();
    assert_eq!(i, buf.len());
    assert_eq!(h.hosts, g.hosts);
    assert_eq!(h.networks, g.networks);
    assert_eq!(h.ip_ranges, g.ip_ranges);
}

#[test]
fn data_source_round_trip() {
    let d = DataSource {
        id: 5,
        name: "name5".to_string(),
        description: Some("the fifth source".to_string()),
    };
    let mut buf: Vec<u8> = Vec::new();
    write_data_source(&mut buf, &d);
    write_opt_data_source(&mut buf, &None);
    let (e, i) = read_data_source(&buf, 0).unwrap();
    let (o, _) = read_opt_data_source(&buf, i).unwrap();
    assert_eq!(e.id, 5);
    assert_eq!(e.name, "name5");
    assert_eq!(e.description.as_deref(), Some("the fifth source"));
    assert!(o.is_none());
}

#[test]
fn data_source_key_round_trip() {
    let mut buf: Vec<u8> = Vec::new();
    write_data_source_key(&mut buf, &DataSourceKey::Id(5));
    write_data_source_key(&mut buf, &DataSourceKey::Name("name5".to_string()));
    let (a, i) = read_data_source_key(&buf, 0).unwrap();
    let (b, _) = read_data_source_key(&buf, i).unwrap();
    assert!(matches!(a, DataSourceKey::Id(5)));
    match b {
        DataSourceKey::Name(s) => assert_eq!(s, "name5"),
        DataSourceKey::Id(_) => panic!("decoded the wrong key variant"),
    }
}

#[test]
fn tidb_round_trip() {
    let t = sample_tidb();
    let mut buf: Vec<u8> = Vec::new();
    write_tidb(&mut buf, &t);
    let (u, i) = read_tidb(&buf, 0).unwrap();
    assert_eq!(i, buf.len());
    assert_eq!(u.id, 1);
    assert_eq!(u.name, "name1");
    assert_eq!(u.description.as_deref(), Some("description1"));
    assert!(matches!(u.kind, TiKind::Token));
    assert!(matches!(u.category, EventCategory::Execution));
    assert_eq!(u.version, "1.0.0");
    assert_eq!(u.patterns.len(), 1);
    let r = &u.patterns[0];
    assert_eq!(r.rule_id, 9);
    assert!(matches!(r.category, EventCategory::Unknown));
    assert_eq!(r.name, "rule1");
    assert_eq!(r.references, Some(vec!["ref1".to_string()]));
    assert_eq!(r.samples, Some(vec!["sample1".to_string()]));
    assert_eq!(r.signatures, Some(vec!["sig1".to_string()]));
}

#[test]
fn batch_round_trip() {
    let batch = vec![
        ("db1".to_string(), Some(sample_tidb())),
        ("db2".to_string(), None),
    ];
    let mut buf: Vec<u8> = Vec::new();
    write_batch(&mut buf, &batch);
    let (out, i) = read_batch(&buf, 0).unwrap();
    assert_eq!(i, buf.len());
    assert_eq!(out.len(), 2);
    assert_eq!(out[0].0, "db1");
    assert!(out[0].1.is_some());
    assert_eq!(out[0].1.as_ref().unwrap().name, "name1");
    assert_eq!(out[1].0, "db2");
    assert!(out[1].1.is_none());
}

#[test]
fn frame_round_trip() {
    let payload = vec![1u8, 2, 3, 4, 5];
    let framed = frame_of(&payload);
    assert_eq!(framed.len(), 9);
    assert_eq!(read_frame(&framed).unwrap(), payload);
    // Trailing bytes after the frame are not read.
    let mut longer = framed.clone();
    longer.extend_from_slice(&[9u8, 9, 9]);
    assert_eq!(read_frame(&longer).unwrap(), payload);
    // A truncated frame does not parse.
    assert!(read_frame(&framed[..8]).is_none());
    assert!(read_frame(&framed[..3]).is_none());
    assert!(read_frame(&[]).is_none());
}
