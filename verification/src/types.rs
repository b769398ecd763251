//! The values that the operations exchange, and their mathematical views.
//!
//! Each executable type has a view made of sequences and plain values, so
//! that contracts can speak about it independently of heap layout.  The
//! `wf_*` predicates say that every length in a value fits the 32-bit
//! counts the wire format carries; encoders require them.

use vstd::prelude::*;

verus! {

// ===================================================================
// Views of strings and their containers
// ===================================================================

/// A string small enough for its character count to ride in four bytes.
pub open spec fn wf_str(s: Seq<char>) -> bool {
    s.len() <= 0xFFFF_FFFF
}

pub open spec fn opt_str_view(o: Option<String>) -> Option<Seq<char>> {
    match o {
        Some(s) => Some(s@),
        None => None,
    }
}

pub open spec fn str_seq_view(v: Seq<String>) -> Seq<Seq<char>> {
    v.map_values(|s: String| s@)
}

pub open spec fn opt_str_seq_view(o: Option<Vec<String>>) -> Option<Seq<Seq<char>>> {
    match o {
        Some(v) => Some(str_seq_view(v@)),
        None => None,
    }
}

pub open spec fn pair_view(p: (String, String)) -> (Seq<char>, Seq<char>) {
    (p.0@, p.1@)
}

pub open spec fn pair_seq_view(v: Seq<(String, String)>) -> Seq<(Seq<char>, Seq<char>)> {
    v.map_values(|p: (String, String)| pair_view(p))
}

pub open spec fn wf_opt_str(o: Option<Seq<char>>) -> bool {
    match o {
        Some(s) => wf_str(s),
        None => true,
    }
}

pub open spec fn wf_str_seq(v: Seq<Seq<char>>) -> bool {
    &&& v.len() <= 0xFFFF_FFFF
    &&& forall|k: int| 0 <= k < v.len() ==> wf_str(#[trigger] v[k])
}

pub open spec fn wf_opt_str_seq(o: Option<Seq<Seq<char>>>) -> bool {
    match o {
        Some(v) => wf_str_seq(v),
        None => true,
    }
}

pub open spec fn wf_pair(p: (Seq<char>, Seq<char>)) -> bool {
    wf_str(p.0) && wf_str(p.1)
}

pub open spec fn wf_pair_seq(v: Seq<(Seq<char>, Seq<char>)>) -> bool {
    &&& v.len() <= 0xFFFF_FFFF
    &&& forall|k: int| 0 <= k < v.len() ==> wf_pair(#[trigger] v[k])
}

// ===================================================================
// Enumerated values
// ===================================================================

/// The kind of a threat-intelligence database.
#[derive(Clone, Copy, PartialEq, Eq, Structural, Debug)]
pub enum TiKind {
    Ip,
    Url,
    Token,
    Regex,
}

/// The category of the event a rule describes.
#[derive(Clone, Copy, PartialEq, Eq, Structural, Debug)]
pub enum EventCategory {
    Unknown,
    Reconnaissance,
    Execution,
}

// ===================================================================
// Records
// ===================================================================

/// One rule of a threat-intelligence database.
#[derive(Clone, Debug)]
pub struct TiRule {
    pub rule_id: u32,
    pub category: EventCategory,
    pub name: String,
    pub description: Option<String>,
    pub references: Option<Vec<String>>,
    pub samples: Option<Vec<String>>,
    pub signatures: Option<Vec<String>>,
}

pub struct TiRuleView {
    pub rule_id: u32,
    pub category: EventCategory,
    pub name: Seq<char>,
    pub description: Option<Seq<char>>,
    pub references: Option<Seq<Seq<char>>>,
    pub samples: Option<Seq<Seq<char>>>,
    pub signatures: Option<Seq<Seq<char>>>,
}

impl View for TiRule {
    type V = TiRuleView;

    open spec fn view(&self) -> TiRuleView {
        TiRuleView {
            rule_id: self.rule_id,
            category: self.category,
            name: self.name@,
            description: opt_str_view(self.description),
            references: opt_str_seq_view(self.references),
            samples: opt_str_seq_view(self.samples),
            signatures: opt_str_seq_view(self.signatures),
        }
    }
}

pub open spec fn rule_seq_view(v: Seq<TiRule>) -> Seq<TiRuleView> {
    v.map_values(|r: TiRule| r@)
}

pub open spec fn wf_ti_rule(r: TiRuleView) -> bool {
    &&& wf_str(r.name)
    &&& wf_opt_str(r.description)
    &&& wf_opt_str_seq(r.references)
    &&& wf_opt_str_seq(r.samples)
    &&& wf_opt_str_seq(r.signatures)
}

/// A threat-intelligence database: a named, versioned set of rules.
#[derive(Clone, Debug)]
pub struct Tidb {
    pub id: u32,
    pub name: String,
    pub description: Option<String>,
    pub kind: TiKind,
    pub category: EventCategory,
    pub version: String,
    pub patterns: Vec<TiRule>,
}

pub struct TidbView {
    pub id: u32,
    pub name: Seq<char>,
    pub description: Option<Seq<char>>,
    pub kind: TiKind,
    pub category: EventCategory,
    pub version: Seq<char>,
    pub patterns: Seq<TiRuleView>,
}

impl View for Tidb {
    type V = TidbView;

    open spec fn view(&self) -> TidbView {
        TidbView {
            id: self.id,
            name: self.name@,
            description: opt_str_view(self.description),
            kind: self.kind,
            category: self.category,
            version: self.version@,
            patterns: rule_seq_view(self.patterns@),
        }
    }
}

pub open spec fn wf_rule_seq(v: Seq<TiRuleView>) -> bool {
    &&& v.len() <= 0xFFFF_FFFF
    &&& forall|k: int| 0 <= k < v.len() ==> wf_ti_rule(#[trigger] v[k])
}

pub open spec fn wf_tidb(t: TidbView) -> bool {
    &&& wf_str(t.name)
    &&& wf_opt_str(t.description)
    &&& wf_str(t.version)
    &&& wf_rule_seq(t.patterns)
}

pub open spec fn opt_tidb_view(o: Option<Tidb>) -> Option<TidbView> {
    match o {
        Some(t) => Some(t@),
        None => None,
    }
}

pub open spec fn wf_opt_tidb(o: Option<TidbView>) -> bool {
    match o {
        Some(t) => wf_tidb(t),
        None => true,
    }
}

/// One entry of a batched-lookup response: the name that was asked for,
/// and the matching database if one exists.
pub open spec fn batch_entry_view(p: (String, Option<Tidb>)) -> (Seq<char>, Option<TidbView>) {
    (p.0@, opt_tidb_view(p.1))
}

pub open spec fn batch_view(v: Seq<(String, Option<Tidb>)>) -> Seq<(Seq<char>, Option<TidbView>)> {
    v.map_values(|p: (String, Option<Tidb>)| batch_entry_view(p))
}

pub open spec fn wf_batch_entry(p: (Seq<char>, Option<TidbView>)) -> bool {
    wf_str(p.0) && wf_opt_tidb(p.1)
}

pub open spec fn wf_batch(v: Seq<(Seq<char>, Option<TidbView>)>) -> bool {
    &&& v.len() <= 0xFFFF_FFFF
    &&& forall|k: int| 0 <= k < v.len() ==> wf_batch_entry(#[trigger] v[k])
}

/// A keyed data source held by the server.
#[derive(Clone, Debug)]
pub struct DataSource {
    pub id: u32,
    pub name: String,
    pub description: Option<String>,
}

pub struct DataSourceView {
    pub id: u32,
    pub name: Seq<char>,
    pub description: Option<Seq<char>>,
}

impl View for DataSource {
    type V = DataSourceView;

    open spec fn view(&self) -> DataSourceView {
        DataSourceView {
            id: self.id,
            name: self.name@,
            description: opt_str_view(self.description),
        }
    }
}

pub open spec fn wf_data_source(d: DataSourceView) -> bool {
    wf_str(d.name) && wf_opt_str(d.description)
}

pub open spec fn opt_data_source_view(o: Option<DataSource>) -> Option<DataSourceView> {
    match o {
        Some(d) => Some(d@),
        None => None,
    }
}

pub open spec fn wf_opt_data_source(o: Option<DataSourceView>) -> bool {
    match o {
        Some(d) => wf_data_source(d),
        None => true,
    }
}

/// The key of a single-record lookup: by numeric identifier or by name.
#[derive(Clone, Debug)]
pub enum DataSourceKey {
    Id(u32),
    Name(String),
}

pub enum DataSourceKeyView {
    Id(u32),
    Name(Seq<char>),
}

impl View for DataSourceKey {
    type V = DataSourceKeyView;

    open spec fn view(&self) -> DataSourceKeyView {
        match self {
            DataSourceKey::Id(n) => DataSourceKeyView::Id(*n),
            DataSourceKey::Name(s) => DataSourceKeyView::Name(s@),
        }
    }
}

pub open spec fn wf_data_source_key(k: DataSourceKeyView) -> bool {
    match k {
        DataSourceKeyView::Id(_) => true,
        DataSourceKeyView::Name(s) => wf_str(s),
    }
}

/// A group of hosts, networks and address ranges, as the allow, block
/// and internal-network lists carry it.
#[derive(Clone, Debug)]
pub struct HostNetworkGroup {
    pub hosts: Vec<String>,
    pub networks: Vec<String>,
    pub ip_ranges: Vec<(String, String)>,
}

pub struct HostNetworkGroupView {
    pub hosts: Seq<Seq<char>>,
    pub networks: Seq<Seq<char>>,
    pub ip_ranges: Seq<(Seq<char>, Seq<char>)>,
}

impl View for HostNetworkGroup {
    type V = HostNetworkGroupView;

    open spec fn view(&self) -> HostNetworkGroupView {
        HostNetworkGroupView {
            hosts: str_seq_view(self.hosts@),
            networks: str_seq_view(self.networks@),
            ip_ranges: pair_seq_view(self.ip_ranges@),
        }
    }
}

pub open spec fn wf_host_network_group(g: HostNetworkGroupView) -> bool {
    wf_str_seq(g.hosts) && wf_str_seq(g.networks) && wf_pair_seq(g.ip_ranges)
}

} // verus!
