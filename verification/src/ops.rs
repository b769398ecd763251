//! The compute side of the unary call engine, and the typed operation
//! layer over it.
//!
//! A call is one round trip: the caller sends the frame that a
//! `*_request` function builds, reads back one frame's worth of bytes,
//! and hands them to the matching `*_response` function.  The builders
//! say exactly which bytes go out; the parsers say exactly which typed
//! result every received byte sequence produces, by the spec functions
//! below.  Transport failures before a full frame arrived show up as an
//! incomplete error; a frame that arrived but does not decode is
//! malformed, never silently a default value; an error the server
//! reported is a service error carrying its message; and for the keyed
//! data-source lookup alone, an empty optional answer is the distinct
//! not-found outcome.

use vstd::prelude::*;

verus! {

use crate::codec::dec_bytes_at;
use crate::codec::dec_str_at;
use crate::codec::enc_str;
use crate::codec::enc_u32;
use crate::codec::read_bytes;
use crate::codec::read_string;
use crate::codec::read_tag;
use crate::codec::write_bytes;
use crate::codec::write_str;
use crate::codec::write_u32;
use crate::frame::enc_frame;
use crate::frame::frame_of;
use crate::frame::frame_payload;
use crate::frame::read_frame;
use crate::request_code::code_of;
use crate::request_code::code_to_u32;
use crate::request_code::RequestCode;
use crate::types::batch_view;
use crate::types::opt_data_source_view;
use crate::types::pair_seq_view;
use crate::types::pair_view;
use crate::types::str_seq_view;
use crate::types::wf_data_source_key;
use crate::types::wf_pair_seq;
use crate::types::wf_str;
use crate::types::DataSource;
use crate::types::DataSourceKey;
use crate::types::DataSourceView;
use crate::types::HostNetworkGroup;
use crate::types::HostNetworkGroupView;
use crate::types::Tidb;
use crate::types::TidbView;
use crate::wire::dec_host_network_group_at;
use crate::wire::dec_opt_data_source_at;
use crate::wire::dec_pair_at;
use crate::wire::dec_vec_str_at;
use crate::wire::enc_data_source_key;
use crate::wire::enc_vec_pair;
use crate::wire::read_host_network_group;
use crate::wire::read_opt_data_source;
use crate::wire::read_pair;
use crate::wire::read_vec_string;
use crate::wire::write_data_source_key;
use crate::wire::write_vec_pair;
use crate::wire_tidb::dec_batch_at;
use crate::wire_tidb::read_batch;

// ===================================================================
// Errors
// ===================================================================

/// Why a call failed.
///
/// An incomplete response is a transport-level failure: the stream
/// ended before one whole frame arrived.  A malformed message is a
/// protocol violation: a frame arrived but did not decode to the
/// expected shape.  A service error is the failure the server itself
/// reported, with its message.  Not-found is the distinguished outcome
/// of the single-record lookup whose answer was an empty optional.
#[derive(Debug, PartialEq, Eq)]
pub enum CallError {
    Incomplete,
    Malformed,
    Service(String),
    NotFound,
}

pub enum CallErrorView {
    Incomplete,
    Malformed,
    Service(Seq<char>),
    NotFound,
}

impl View for CallError {
    type V = CallErrorView;

    open spec fn view(&self) -> CallErrorView {
        match self {
            CallError::Incomplete => CallErrorView::Incomplete,
            CallError::Malformed => CallErrorView::Malformed,
            CallError::Service(m) => CallErrorView::Service(m@),
            CallError::NotFound => CallErrorView::NotFound,
        }
    }
}

impl CallError {
    /// The words of the failure: the server's own message for a
    /// service error, a fixed description otherwise.
    pub open spec fn message_spec(&self) -> Seq<char> {
        match self {
            CallError::Incomplete => "incomplete response"@,
            CallError::Malformed => "malformed message"@,
            CallError::Service(m) => m@,
            CallError::NotFound => "not found"@,
        }
    }

    /// A description of the failure, for callers that report it.
    pub fn message(&self) -> (r: String)
        ensures
            r@ == self.message_spec(),
    {
        match self {
            CallError::Incomplete => String::from_str("incomplete response"),
            CallError::Malformed => String::from_str("malformed message"),
            CallError::Service(m) => m.clone(),
            CallError::NotFound => String::from_str("not found"),
        }
    }
}

// ===================================================================
// The response payload: a tagged outcome
// ===================================================================

/// What one response payload carries: the operation's value, the
/// server's error message, or nothing well-formed.
pub enum SpecOutcome<TV> {
    Value(TV),
    Service(Seq<char>),
    Malformed,
}

/// The outcome carried by payload `p`, whose value part is decoded by
/// `fd`.  The payload must be one tag byte, then exactly the value or
/// exactly the message: trailing bytes are a protocol violation.
pub open spec fn outcome_of<TV>(
    p: Seq<u8>,
    fd: spec_fn(Seq<u8>, int) -> Option<(TV, int)>,
) -> SpecOutcome<TV> {
    if p.len() >= 1 && p[0] == 0 {
        match fd(p, 1) {
            Some((v, k)) => if k == p.len() {
                SpecOutcome::Value(v)
            } else {
                SpecOutcome::Malformed
            },
            None => SpecOutcome::Malformed,
        }
    } else if p.len() >= 1 && p[0] == 1 {
        match dec_str_at(p, 1) {
            Some((m, k)) => if k == p.len() {
                SpecOutcome::Service(m)
            } else {
                SpecOutcome::Malformed
            },
            None => SpecOutcome::Malformed,
        }
    } else {
        SpecOutcome::Malformed
    }
}

/// The result of a whole call, given the bytes read from the stream:
/// no complete frame is a transport-level incomplete response;
/// otherwise the frame's payload decides, as `outcome_of` says.
pub open spec fn call_result<TV>(
    b: Seq<u8>,
    fd: spec_fn(Seq<u8>, int) -> Option<(TV, int)>,
) -> Result<TV, CallErrorView> {
    match frame_payload(b) {
        None => Err(CallErrorView::Incomplete),
        Some(p) => match outcome_of(p, fd) {
            SpecOutcome::Value(v) => Ok(v),
            SpecOutcome::Service(m) => Err(CallErrorView::Service(m)),
            SpecOutcome::Malformed => Err(CallErrorView::Malformed),
        },
    }
}

/// The frame a well-behaved peer sends for a successful operation:
/// the success tag, then the encoded value.
pub open spec fn ok_response(body: Seq<u8>) -> Seq<u8> {
    enc_frame(crate::codec::enc_tag(0) + body)
}

/// The frame a peer sends to report a failure with message `m`.
pub open spec fn err_response(m: Seq<char>) -> Seq<u8> {
    enc_frame(crate::codec::enc_tag(1) + enc_str(m))
}

// ===================================================================
// Requests
// ===================================================================

/// The frame a request travels in: the operation's code, then the
/// encoded input, under one length prefix.
pub open spec fn request_frame(code: u32, body: Seq<u8>) -> Seq<u8> {
    enc_frame(enc_u32(code) + body)
}

/// Builds the one frame that carries a request.
pub fn build_request(code: u32, body: Vec<u8>) -> (r: Vec<u8>)
    requires
        body@.len() + 4 <= 0xFFFF_FFFF,
    ensures
        r@ == request_frame(code, body@),
{
    let mut payload: Vec<u8> = Vec::new();
    write_u32(&mut payload, code);
    let mut rest = body;
    payload.append(&mut rest);
    proof {
        vstd::bytes::lemma_auto_spec_u32_to_from_le_bytes();
        assert(payload@ =~= enc_u32(code) + body@);
    }
    frame_of(&payload)
}

pub fn get_config_request() -> (r: Vec<u8>)
    ensures
        r@ == request_frame(code_of(RequestCode::GetConfig), Seq::<u8>::empty()),
{
    plain_request(RequestCode::GetConfig)
}

pub fn get_allow_list_request() -> (r: Vec<u8>)
    ensures
        r@ == request_frame(code_of(RequestCode::GetAllowList), Seq::<u8>::empty()),
{
    plain_request(RequestCode::GetAllowList)
}

pub fn get_block_list_request() -> (r: Vec<u8>)
    ensures
        r@ == request_frame(code_of(RequestCode::GetBlockList), Seq::<u8>::empty()),
{
    plain_request(RequestCode::GetBlockList)
}

pub fn get_internal_network_list_request() -> (r: Vec<u8>)
    ensures
        r@ == request_frame(code_of(RequestCode::GetInternalNetworkList), Seq::<u8>::empty()),
{
    plain_request(RequestCode::GetInternalNetworkList)
}

pub fn get_tor_exit_node_list_request() -> (r: Vec<u8>)
    ensures
        r@ == request_frame(code_of(RequestCode::GetTorExitNodeList), Seq::<u8>::empty()),
{
    plain_request(RequestCode::GetTorExitNodeList)
}

pub fn get_trusted_domain_list_request() -> (r: Vec<u8>)
    ensures
        r@ == request_frame(code_of(RequestCode::GetTrustedDomainList), Seq::<u8>::empty()),
{
    plain_request(RequestCode::GetTrustedDomainList)
}

pub fn get_trusted_user_agent_list_request() -> (r: Vec<u8>)
    ensures
        r@ == request_frame(code_of(RequestCode::GetTrustedUserAgentList), Seq::<u8>::empty()),
{
    plain_request(RequestCode::GetTrustedUserAgentList)
}

/// The shared builder of the requests that carry no input.
fn plain_request(c: RequestCode) -> (r: Vec<u8>)
    ensures
        r@ == request_frame(code_of(c), Seq::<u8>::empty()),
{
    let code = code_to_u32(c);
    let body: Vec<u8> = Vec::new();
    build_request(code, body)
}

pub fn get_data_source_request(key: &DataSourceKey) -> (r: Vec<u8>)
    requires
        wf_data_source_key(key@),
        enc_data_source_key(key@).len() + 4 <= 0xFFFF_FFFF,
    ensures
        r@ == request_frame(code_of(RequestCode::GetDataSource), enc_data_source_key(key@)),
{
    let code = code_to_u32(RequestCode::GetDataSource);
    let mut body: Vec<u8> = Vec::new();
    write_data_source_key(&mut body, key);
    proof {
        assert(body@ =~= enc_data_source_key(key@));
    }
    build_request(code, body)
}

pub fn get_tidb_patterns_request(keys: &Vec<(String, String)>) -> (r: Vec<u8>)
    requires
        wf_pair_seq(pair_seq_view(keys@)),
        enc_vec_pair(pair_seq_view(keys@)).len() + 4 <= 0xFFFF_FFFF,
    ensures
        r@ == request_frame(
            code_of(RequestCode::GetTidbPatterns),
            enc_vec_pair(pair_seq_view(keys@)),
        ),
{
    let code = code_to_u32(RequestCode::GetTidbPatterns);
    let mut body: Vec<u8> = Vec::new();
    write_vec_pair(&mut body, keys);
    proof {
        assert(body@ =~= enc_vec_pair(pair_seq_view(keys@)));
    }
    build_request(code, body)
}

pub fn get_pretrained_model_request(name: &str) -> (r: Vec<u8>)
    requires
        wf_str(name@),
        enc_str(name@).len() + 4 <= 0xFFFF_FFFF,
    ensures
        r@ == request_frame(code_of(RequestCode::GetPretrainedModel), enc_str(name@)),
{
    let code = code_to_u32(RequestCode::GetPretrainedModel);
    let mut body: Vec<u8> = Vec::new();
    write_str(&mut body, name);
    proof {
        assert(body@ =~= enc_str(name@));
    }
    build_request(code, body)
}

pub fn renew_certificate_request(cert: &[u8]) -> (r: Vec<u8>)
    requires
        cert@.len() + 8 <= 0xFFFF_FFFF,
    ensures
        r@ == request_frame(
            code_of(RequestCode::RenewCertificate),
            crate::codec::enc_bytes(cert@),
        ),
{
    let code = code_to_u32(RequestCode::RenewCertificate);
    let mut body: Vec<u8> = Vec::new();
    write_bytes(&mut body, cert);
    proof {
        vstd::bytes::lemma_auto_spec_u32_to_from_le_bytes();
        assert(body@ =~= crate::codec::enc_bytes(cert@));
    }
    build_request(code, body)
}

// ===================================================================
// Result views
// ===================================================================

pub open spec fn res_str_view(r: Result<String, CallError>) -> Result<Seq<char>, CallErrorView> {
    match r {
        Ok(s) => Ok(s@),
        Err(e) => Err(e@),
    }
}

pub open spec fn res_hng_view(r: Result<HostNetworkGroup, CallError>) -> Result<
    HostNetworkGroupView,
    CallErrorView,
> {
    match r {
        Ok(g) => Ok(g@),
        Err(e) => Err(e@),
    }
}

pub open spec fn res_vec_str_view(r: Result<Vec<String>, CallError>) -> Result<
    Seq<Seq<char>>,
    CallErrorView,
> {
    match r {
        Ok(v) => Ok(str_seq_view(v@)),
        Err(e) => Err(e@),
    }
}

pub open spec fn res_bytes_view(r: Result<Vec<u8>, CallError>) -> Result<Seq<u8>, CallErrorView> {
    match r {
        Ok(v) => Ok(v@),
        Err(e) => Err(e@),
    }
}

pub open spec fn res_pair_view(r: Result<(String, String), CallError>) -> Result<
    (Seq<char>, Seq<char>),
    CallErrorView,
> {
    match r {
        Ok(p) => Ok(pair_view(p)),
        Err(e) => Err(e@),
    }
}

pub open spec fn res_ds_view(r: Result<DataSource, CallError>) -> Result<
    DataSourceView,
    CallErrorView,
> {
    match r {
        Ok(d) => Ok(d@),
        Err(e) => Err(e@),
    }
}

pub open spec fn res_batch_view(r: Result<Vec<(String, Option<Tidb>)>, CallError>) -> Result<
    Seq<(Seq<char>, Option<TidbView>)>,
    CallErrorView,
> {
    match r {
        Ok(v) => Ok(batch_view(v@)),
        Err(e) => Err(e@),
    }
}

// ===================================================================
// Spec decoder handles for the result types
// ===================================================================

pub open spec fn str_res_dec() -> spec_fn(Seq<u8>, int) -> Option<(Seq<char>, int)> {
    |b: Seq<u8>, i: int| dec_str_at(b, i)
}

pub open spec fn hng_res_dec() -> spec_fn(Seq<u8>, int) -> Option<(HostNetworkGroupView, int)> {
    |b: Seq<u8>, i: int| dec_host_network_group_at(b, i)
}

pub open spec fn vec_str_res_dec() -> spec_fn(Seq<u8>, int) -> Option<(Seq<Seq<char>>, int)> {
    |b: Seq<u8>, i: int| dec_vec_str_at(b, i)
}

pub open spec fn bytes_res_dec() -> spec_fn(Seq<u8>, int) -> Option<(Seq<u8>, int)> {
    |b: Seq<u8>, i: int| dec_bytes_at(b, i)
}

pub open spec fn pair_res_dec() -> spec_fn(Seq<u8>, int) -> Option<
    ((Seq<char>, Seq<char>), int),
> {
    |b: Seq<u8>, i: int| dec_pair_at(b, i)
}

pub open spec fn opt_ds_res_dec() -> spec_fn(Seq<u8>, int) -> Option<
    (Option<DataSourceView>, int),
> {
    |b: Seq<u8>, i: int| dec_opt_data_source_at(b, i)
}

pub open spec fn batch_res_dec() -> spec_fn(Seq<u8>, int) -> Option<
    (Seq<(Seq<char>, Option<TidbView>)>, int),
> {
    |b: Seq<u8>, i: int| dec_batch_at(b, i)
}

// ===================================================================
// The typed results, one spec function per operation
// ===================================================================

pub open spec fn get_config_result(b: Seq<u8>) -> Result<Seq<char>, CallErrorView> {
    call_result(b, str_res_dec())
}

pub open spec fn get_allow_list_result(b: Seq<u8>) -> Result<HostNetworkGroupView, CallErrorView> {
    call_result(b, hng_res_dec())
}

pub open spec fn get_block_list_result(b: Seq<u8>) -> Result<HostNetworkGroupView, CallErrorView> {
    call_result(b, hng_res_dec())
}

pub open spec fn get_internal_network_list_result(b: Seq<u8>) -> Result<
    HostNetworkGroupView,
    CallErrorView,
> {
    call_result(b, hng_res_dec())
}

pub open spec fn get_tor_exit_node_list_result(b: Seq<u8>) -> Result<
    Seq<Seq<char>>,
    CallErrorView,
> {
    call_result(b, vec_str_res_dec())
}

pub open spec fn get_trusted_domain_list_result(b: Seq<u8>) -> Result<
    Seq<Seq<char>>,
    CallErrorView,
> {
    call_result(b, vec_str_res_dec())
}

pub open spec fn get_trusted_user_agent_list_result(b: Seq<u8>) -> Result<
    Seq<Seq<char>>,
    CallErrorView,
> {
    call_result(b, vec_str_res_dec())
}

pub open spec fn get_pretrained_model_result(b: Seq<u8>) -> Result<Seq<u8>, CallErrorView> {
    call_result(b, bytes_res_dec())
}

pub open spec fn renew_certificate_result(b: Seq<u8>) -> Result<
    (Seq<char>, Seq<char>),
    CallErrorView,
> {
    call_result(b, pair_res_dec())
}

/// The keyed lookup: an empty optional answer is the distinct
/// not-found outcome, never a generic error.
pub open spec fn get_data_source_result(b: Seq<u8>) -> Result<DataSourceView, CallErrorView> {
    match call_result(b, opt_ds_res_dec()) {
        Ok(Some(d)) => Ok(d),
        Ok(None) => Err(CallErrorView::NotFound),
        Err(e) => Err(e),
    }
}

pub open spec fn get_tidb_patterns_result(b: Seq<u8>) -> Result<
    Seq<(Seq<char>, Option<TidbView>)>,
    CallErrorView,
> {
    call_result(b, batch_res_dec())
}

// ===================================================================
// The executable parsers
// ===================================================================

pub fn get_config_response(b: &[u8]) -> (r: Result<String, CallError>)
    ensures
        res_str_view(r) == get_config_result(b@),
{
    let p = match read_frame(b) {
        Some(p) => p,
        None => {
            return Err(CallError::Incomplete);
        },
    };
    match read_tag(p.as_slice(), 0) {
        Some((t, j)) => {
            if t == 0 {
                match read_string(p.as_slice(), j) {
                    Some((s, k)) => {
                        if k == p.len() {
                            Ok(s)
                        } else {
                            Err(CallError::Malformed)
                        }
                    },
                    None => Err(CallError::Malformed),
                }
            } else if t == 1 {
                match read_string(p.as_slice(), j) {
                    Some((m, k)) => {
                        if k == p.len() {
                            Err(CallError::Service(m))
                        } else {
                            Err(CallError::Malformed)
                        }
                    },
                    None => Err(CallError::Malformed),
                }
            } else {
                Err(CallError::Malformed)
            }
        },
        None => Err(CallError::Malformed),
    }
}

/// The shared parser of the three host-network-group responses.
fn parse_hng_response(b: &[u8]) -> (r: Result<HostNetworkGroup, CallError>)
    ensures
        res_hng_view(r) == call_result(b@, hng_res_dec()),
{
    let p = match read_frame(b) {
        Some(p) => p,
        None => {
            return Err(CallError::Incomplete);
        },
    };
    match read_tag(p.as_slice(), 0) {
        Some((t, j)) => {
            if t == 0 {
                match read_host_network_group(p.as_slice(), j) {
                    Some((g, k)) => {
                        if k == p.len() {
                            Ok(g)
                        } else {
                            Err(CallError::Malformed)
                        }
                    },
                    None => Err(CallError::Malformed),
                }
            } else if t == 1 {
                match read_string(p.as_slice(), j) {
                    Some((m, k)) => {
                        if k == p.len() {
                            Err(CallError::Service(m))
                        } else {
                            Err(CallError::Malformed)
                        }
                    },
                    None => Err(CallError::Malformed),
                }
            } else {
                Err(CallError::Malformed)
            }
        },
        None => Err(CallError::Malformed),
    }
}

pub fn get_allow_list_response(b: &[u8]) -> (r: Result<HostNetworkGroup, CallError>)
    ensures
        res_hng_view(r) == get_allow_list_result(b@),
{
    parse_hng_response(b)
}

pub fn get_block_list_response(b: &[u8]) -> (r: Result<HostNetworkGroup, CallError>)
    ensures
        res_hng_view(r) == get_block_list_result(b@),
{
    parse_hng_response(b)
}

pub fn get_internal_network_list_response(b: &[u8]) -> (r: Result<HostNetworkGroup, CallError>)
    ensures
        res_hng_view(r) == get_internal_network_list_result(b@),
{
    parse_hng_response(b)
}

/// The shared parser of the string-list responses.
fn parse_vec_str_response(b: &[u8]) -> (r: Result<Vec<String>, CallError>)
    ensures
        res_vec_str_view(r) == call_result(b@, vec_str_res_dec()),
{
    let p = match read_frame(b) {
        Some(p) => p,
        None => {
            return Err(CallError::Incomplete);
        },
    };
    match read_tag(p.as_slice(), 0) {
        Some((t, j)) => {
            if t == 0 {
                match read_vec_string(p.as_slice(), j) {
                    Some((v, k)) => {
                        if k == p.len() {
                            Ok(v)
                        } else {
                            Err(CallError::Malformed)
                        }
                    },
                    None => Err(CallError::Malformed),
                }
            } else if t == 1 {
                match read_string(p.as_slice(), j) {
                    Some((m, k)) => {
                        if k == p.len() {
                            Err(CallError::Service(m))
                        } else {
                            Err(CallError::Malformed)
                        }
                    },
                    None => Err(CallError::Malformed),
                }
            } else {
                Err(CallError::Malformed)
            }
        },
        None => Err(CallError::Malformed),
    }
}

pub fn get_tor_exit_node_list_response(b: &[u8]) -> (r: Result<Vec<String>, CallError>)
    ensures
        res_vec_str_view(r) == get_tor_exit_node_list_result(b@),
{
    parse_vec_str_response(b)
}

pub fn get_trusted_domain_list_response(b: &[u8]) -> (r: Result<Vec<String>, CallError>)
    ensures
        res_vec_str_view(r) == get_trusted_domain_list_result(b@),
{
    parse_vec_str_response(b)
}

pub fn get_trusted_user_agent_list_response(b: &[u8]) -> (r: Result<Vec<String>, CallError>)
    ensures
        res_vec_str_view(r) == get_trusted_user_agent_list_result(b@),
{
    parse_vec_str_response(b)
}

pub fn get_pretrained_model_response(b: &[u8]) -> (r: Result<Vec<u8>, CallError>)
    ensures
        res_bytes_view(r) == get_pretrained_model_result(b@),
{
    let p = match read_frame(b) {
        Some(p) => p,
        None => {
            return Err(CallError::Incomplete);
        },
    };
    match read_tag(p.as_slice(), 0) {
        Some((t, j)) => {
            if t == 0 {
                match read_bytes(p.as_slice(), j) {
                    Some((v, k)) => {
                        if k == p.len() {
                            Ok(v)
                        } else {
                            Err(CallError::Malformed)
                        }
                    },
                    None => Err(CallError::Malformed),
                }
            } else if t == 1 {
                match read_string(p.as_slice(), j) {
                    Some((m, k)) => {
                        if k == p.len() {
                            Err(CallError::Service(m))
                        } else {
                            Err(CallError::Malformed)
                        }
                    },
                    None => Err(CallError::Malformed),
                }
            } else {
                Err(CallError::Malformed)
            }
        },
        None => Err(CallError::Malformed),
    }
}

pub fn renew_certificate_response(b: &[u8]) -> (r: Result<(String, String), CallError>)
    ensures
        res_pair_view(r) == renew_certificate_result(b@),
{
    let p = match read_frame(b) {
        Some(p) => p,
        None => {
            return Err(CallError::Incomplete);
        },
    };
    match read_tag(p.as_slice(), 0) {
        Some((t, j)) => {
            if t == 0 {
                match read_pair(p.as_slice(), j) {
                    Some((v, k)) => {
                        if k == p.len() {
                            Ok(v)
                        } else {
                            Err(CallError::Malformed)
                        }
                    },
                    None => Err(CallError::Malformed),
                }
            } else if t == 1 {
                match read_string(p.as_slice(), j) {
                    Some((m, k)) => {
                        if k == p.len() {
                            Err(CallError::Service(m))
                        } else {
                            Err(CallError::Malformed)
                        }
                    },
                    None => Err(CallError::Malformed),
                }
            } else {
                Err(CallError::Malformed)
            }
        },
        None => Err(CallError::Malformed),
    }
}

pub fn get_data_source_response(b: &[u8]) -> (r: Result<DataSource, CallError>)
    ensures
        res_ds_view(r) == get_data_source_result(b@),
{
    let p = match read_frame(b) {
        Some(p) => p,
        None => {
            return Err(CallError::Incomplete);
        },
    };
    match read_tag(p.as_slice(), 0) {
        Some((t, j)) => {
            if t == 0 {
                match read_opt_data_source(p.as_slice(), j) {
                    Some((o, k)) => {
                        if k == p.len() {
                            match o {
                                Some(d) => Ok(d),
                                None => Err(CallError::NotFound),
                            }
                        } else {
                            Err(CallError::Malformed)
                        }
                    },
                    None => Err(CallError::Malformed),
                }
            } else if t == 1 {
                match read_string(p.as_slice(), j) {
                    Some((m, k)) => {
                        if k == p.len() {
                            Err(CallError::Service(m))
                        } else {
                            Err(CallError::Malformed)
                        }
                    },
                    None => Err(CallError::Malformed),
                }
            } else {
                Err(CallError::Malformed)
            }
        },
        None => Err(CallError::Malformed),
    }
}

pub fn get_tidb_patterns_response(b: &[u8]) -> (r: Result<Vec<(String, Option<Tidb>)>, CallError>)
    ensures
        res_batch_view(r) == get_tidb_patterns_result(b@),
{
    let p = match read_frame(b) {
        Some(p) => p,
        None => {
            return Err(CallError::Incomplete);
        },
    };
    match read_tag(p.as_slice(), 0) {
        Some((t, j)) => {
            if t == 0 {
                match read_batch(p.as_slice(), j) {
                    Some((v, k)) => {
                        if k == p.len() {
                            Ok(v)
                        } else {
                            Err(CallError::Malformed)
                        }
                    },
                    None => Err(CallError::Malformed),
                }
            } else if t == 1 {
                match read_string(p.as_slice(), j) {
                    Some((m, k)) => {
                        if k == p.len() {
                            Err(CallError::Service(m))
                        } else {
                            Err(CallError::Malformed)
                        }
                    },
                    None => Err(CallError::Malformed),
                }
            } else {
                Err(CallError::Malformed)
            }
        },
        None => Err(CallError::Malformed),
    }
}

// ===================================================================
// Laws of the call
//
// Against a well-behaved peer the call returns exactly the peer's
// answer; against a peer that reports an error it returns the service
// error with the identical message; and the keyed lookup turns an
// empty optional answer into the not-found outcome, never a generic
// error.  Transport truncation is pinned separately: a byte sequence
// without one complete frame yields the incomplete error by the very
// definition of `call_result`.
// ===================================================================

/// A byte sequence without one complete frame — the stream ended
/// before the declared length was reached — is the incomplete error,
/// whatever the operation: the call never hangs on it and never turns
/// it into a value.
pub proof fn lemma_incomplete_response<TV>(
    b: Seq<u8>,
    fd: spec_fn(Seq<u8>, int) -> Option<(TV, int)>,
)
    requires
        crate::frame::frame_incomplete(b),
    ensures
        call_result(b, fd) == Err::<TV, CallErrorView>(CallErrorView::Incomplete),
{
    crate::frame::lemma_frame_payload_none(b);
}

/// A success payload whose value decodes exactly is the value outcome.
pub proof fn lemma_outcome_value<TV>(
    body: Seq<u8>,
    v: TV,
    fd: spec_fn(Seq<u8>, int) -> Option<(TV, int)>,
)
    requires
        fd(crate::codec::enc_tag(0) + body, 1) == Some((v, 1 + body.len() as int)),
    ensures
        outcome_of(crate::codec::enc_tag(0) + body, fd) == SpecOutcome::Value(v),
{
    let p = crate::codec::enc_tag(0) + body;
    assert(p[0] == 0);
    assert(p.len() == 1 + body.len());
}

/// An error payload carries the server's message, whatever the
/// operation's value decoder is.
pub proof fn lemma_outcome_service<TV>(
    m: Seq<char>,
    fd: spec_fn(Seq<u8>, int) -> Option<(TV, int)>,
)
    requires
        wf_str(m),
    ensures
        outcome_of(crate::codec::enc_tag(1) + enc_str(m), fd) == SpecOutcome::<TV>::Service(m),
{
    let p = crate::codec::enc_tag(1) + enc_str(m);
    assert(p[0] == 1);
    crate::codec::lemma_rt_str(m, crate::codec::enc_tag(1), Seq::<u8>::empty());
    assert(p =~= crate::codec::enc_tag(1) + enc_str(m) + Seq::<u8>::empty());
    assert(p.len() == 1 + enc_str(m).len());
}

/// A whole call against a success response returns the peer's value.
pub proof fn lemma_call_value<TV>(
    body: Seq<u8>,
    v: TV,
    fd: spec_fn(Seq<u8>, int) -> Option<(TV, int)>,
)
    requires
        body.len() + 1 <= 0xFFFF_FFFF,
        fd(crate::codec::enc_tag(0) + body, 1) == Some((v, 1 + body.len() as int)),
    ensures
        call_result(ok_response(body), fd) == Ok::<TV, CallErrorView>(v),
{
    let p = crate::codec::enc_tag(0) + body;
    crate::frame::lemma_frame_round_trip(p);
    lemma_outcome_value(body, v, fd);
}

/// A whole call against an error response returns the service error
/// with the identical message.
pub proof fn lemma_call_service<TV>(m: Seq<char>, fd: spec_fn(Seq<u8>, int) -> Option<(TV, int)>)
    requires
        wf_str(m),
        enc_str(m).len() + 1 <= 0xFFFF_FFFF,
    ensures
        call_result(err_response(m), fd) == Err::<TV, CallErrorView>(CallErrorView::Service(m)),
{
    let p = crate::codec::enc_tag(1) + enc_str(m);
    crate::frame::lemma_frame_round_trip(p);
    lemma_outcome_service(m, fd);
}

/// The configuration call, against a peer answering `s`, returns `s`;
/// against a peer reporting `m`, the service error carrying `m`.
pub proof fn lemma_get_config_call(s: Seq<char>, m: Seq<char>)
    requires
        wf_str(s),
        wf_str(m),
        enc_str(s).len() + 1 <= 0xFFFF_FFFF,
        enc_str(m).len() + 1 <= 0xFFFF_FFFF,
    ensures
        get_config_result(ok_response(enc_str(s))) == Ok::<Seq<char>, CallErrorView>(s),
        get_config_result(err_response(m)) == Err::<Seq<char>, CallErrorView>(
            CallErrorView::Service(m),
        ),
{
    crate::codec::lemma_rt_str(s, crate::codec::enc_tag(0), Seq::<u8>::empty());
    assert(crate::codec::enc_tag(0) + enc_str(s) =~= crate::codec::enc_tag(0) + enc_str(s)
        + Seq::<u8>::empty());
    lemma_call_value(enc_str(s), s, str_res_dec());
    lemma_call_service::<Seq<char>>(m, str_res_dec());
}

/// The three network-list calls, against a peer answering group `g` or
/// reporting `m`.
pub proof fn lemma_host_group_call(g: HostNetworkGroupView, m: Seq<char>)
    requires
        crate::types::wf_host_network_group(g),
        wf_str(m),
        crate::wire::enc_host_network_group(g).len() + 1 <= 0xFFFF_FFFF,
        enc_str(m).len() + 1 <= 0xFFFF_FFFF,
    ensures
        get_allow_list_result(ok_response(crate::wire::enc_host_network_group(g)))
            == Ok::<HostNetworkGroupView, CallErrorView>(g),
        get_block_list_result(ok_response(crate::wire::enc_host_network_group(g)))
            == Ok::<HostNetworkGroupView, CallErrorView>(g),
        get_internal_network_list_result(ok_response(crate::wire::enc_host_network_group(g)))
            == Ok::<HostNetworkGroupView, CallErrorView>(g),
        get_allow_list_result(err_response(m)) == Err::<HostNetworkGroupView, CallErrorView>(
            CallErrorView::Service(m),
        ),
{
    let body = crate::wire::enc_host_network_group(g);
    crate::wire::lemma_rt_host_network_group(g, crate::codec::enc_tag(0), Seq::<u8>::empty());
    assert(crate::codec::enc_tag(0) + body =~= crate::codec::enc_tag(0) + body
        + Seq::<u8>::empty());
    lemma_call_value(body, g, hng_res_dec());
    lemma_call_service::<HostNetworkGroupView>(m, hng_res_dec());
}

/// The three string-list calls, against a peer answering list `v` or
/// reporting `m`.
pub proof fn lemma_string_list_call(v: Seq<Seq<char>>, m: Seq<char>)
    requires
        crate::types::wf_str_seq(v),
        wf_str(m),
        crate::wire::enc_vec_str(v).len() + 1 <= 0xFFFF_FFFF,
        enc_str(m).len() + 1 <= 0xFFFF_FFFF,
    ensures
        get_tor_exit_node_list_result(ok_response(crate::wire::enc_vec_str(v)))
            == Ok::<Seq<Seq<char>>, CallErrorView>(v),
        get_trusted_domain_list_result(ok_response(crate::wire::enc_vec_str(v)))
            == Ok::<Seq<Seq<char>>, CallErrorView>(v),
        get_trusted_user_agent_list_result(ok_response(crate::wire::enc_vec_str(v)))
            == Ok::<Seq<Seq<char>>, CallErrorView>(v),
        get_tor_exit_node_list_result(err_response(m)) == Err::<Seq<Seq<char>>, CallErrorView>(
            CallErrorView::Service(m),
        ),
{
    let body = crate::wire::enc_vec_str(v);
    crate::wire::lemma_rt_vec_str(v, crate::codec::enc_tag(0), Seq::<u8>::empty());
    assert(crate::codec::enc_tag(0) + body =~= crate::codec::enc_tag(0) + body
        + Seq::<u8>::empty());
    lemma_call_value(body, v, vec_str_res_dec());
    lemma_call_service::<Seq<Seq<char>>>(m, vec_str_res_dec());
}

/// The artifact-bytes call, against a peer answering `v` or reporting
/// `m`.
pub proof fn lemma_get_pretrained_model_call(v: Seq<u8>, m: Seq<char>)
    requires
        v.len() <= 0xFFFF_FFFF,
        wf_str(m),
        crate::codec::enc_bytes(v).len() + 1 <= 0xFFFF_FFFF,
        enc_str(m).len() + 1 <= 0xFFFF_FFFF,
    ensures
        get_pretrained_model_result(ok_response(crate::codec::enc_bytes(v))) == Ok::<
            Seq<u8>,
            CallErrorView,
        >(v),
        get_pretrained_model_result(err_response(m)) == Err::<Seq<u8>, CallErrorView>(
            CallErrorView::Service(m),
        ),
{
    let body = crate::codec::enc_bytes(v);
    crate::codec::lemma_rt_bytes(v, crate::codec::enc_tag(0), Seq::<u8>::empty());
    assert(crate::codec::enc_tag(0) + body =~= crate::codec::enc_tag(0) + body
        + Seq::<u8>::empty());
    lemma_call_value(body, v, bytes_res_dec());
    lemma_call_service::<Seq<u8>>(m, bytes_res_dec());
}

/// The certificate-renewal call, against a peer answering the pair `p`
/// or reporting `m`.
pub proof fn lemma_renew_certificate_call(p: (Seq<char>, Seq<char>), m: Seq<char>)
    requires
        crate::types::wf_pair(p),
        wf_str(m),
        crate::wire::enc_pair(p).len() + 1 <= 0xFFFF_FFFF,
        enc_str(m).len() + 1 <= 0xFFFF_FFFF,
    ensures
        renew_certificate_result(ok_response(crate::wire::enc_pair(p))) == Ok::<
            (Seq<char>, Seq<char>),
            CallErrorView,
        >(p),
        renew_certificate_result(err_response(m)) == Err::<
            (Seq<char>, Seq<char>),
            CallErrorView,
        >(CallErrorView::Service(m)),
{
    let body = crate::wire::enc_pair(p);
    crate::wire::lemma_rt_pair(p, crate::codec::enc_tag(0), Seq::<u8>::empty());
    assert(crate::codec::enc_tag(0) + body =~= crate::codec::enc_tag(0) + body
        + Seq::<u8>::empty());
    lemma_call_value(body, p, pair_res_dec());
    lemma_call_service::<(Seq<char>, Seq<char>)>(m, pair_res_dec());
}

/// The keyed lookup: a peer answering the record returns it; a peer
/// answering an empty optional yields the not-found outcome, never a
/// generic error; a peer reporting `m` yields the service error.
pub proof fn lemma_get_data_source_call(d: DataSourceView, m: Seq<char>)
    requires
        crate::types::wf_data_source(d),
        wf_str(m),
        crate::wire::enc_opt_data_source(Some(d)).len() + 1 <= 0xFFFF_FFFF,
        enc_str(m).len() + 1 <= 0xFFFF_FFFF,
    ensures
        get_data_source_result(ok_response(crate::wire::enc_opt_data_source(Some(d)))) == Ok::<
            DataSourceView,
            CallErrorView,
        >(d),
        get_data_source_result(
            ok_response(crate::wire::enc_opt_data_source(None::<DataSourceView>)),
        ) == Err::<DataSourceView, CallErrorView>(CallErrorView::NotFound),
        get_data_source_result(err_response(m)) == Err::<DataSourceView, CallErrorView>(
            CallErrorView::Service(m),
        ),
{
    let found = crate::wire::enc_opt_data_source(Some(d));
    crate::wire::lemma_rt_opt_data_source(Some(d), crate::codec::enc_tag(0), Seq::<u8>::empty());
    assert(crate::codec::enc_tag(0) + found =~= crate::codec::enc_tag(0) + found
        + Seq::<u8>::empty());
    lemma_call_value(found, Some(d), opt_ds_res_dec());
    let absent = crate::wire::enc_opt_data_source(None::<DataSourceView>);
    crate::wire::lemma_rt_opt_data_source(
        None::<DataSourceView>,
        crate::codec::enc_tag(0),
        Seq::<u8>::empty(),
    );
    assert(crate::codec::enc_tag(0) + absent =~= crate::codec::enc_tag(0) + absent
        + Seq::<u8>::empty());
    lemma_call_value(absent, None::<DataSourceView>, opt_ds_res_dec());
    lemma_call_service::<Option<DataSourceView>>(m, opt_ds_res_dec());
}

/// The batched lookup, against a peer answering list `v` or reporting
/// `m`.  The ordering obligations on `v` itself are the peer's; they
/// are stated with the reference peer.
pub proof fn lemma_get_tidb_patterns_call(
    v: Seq<(Seq<char>, Option<TidbView>)>,
    m: Seq<char>,
)
    requires
        crate::types::wf_batch(v),
        wf_str(m),
        crate::wire_tidb::enc_batch(v).len() + 1 <= 0xFFFF_FFFF,
        enc_str(m).len() + 1 <= 0xFFFF_FFFF,
    ensures
        get_tidb_patterns_result(ok_response(crate::wire_tidb::enc_batch(v))) == Ok::<
            Seq<(Seq<char>, Option<TidbView>)>,
            CallErrorView,
        >(v),
        get_tidb_patterns_result(err_response(m)) == Err::<
            Seq<(Seq<char>, Option<TidbView>)>,
            CallErrorView,
        >(CallErrorView::Service(m)),
{
    let body = crate::wire_tidb::enc_batch(v);
    crate::wire_tidb::lemma_rt_batch(v, crate::codec::enc_tag(0), Seq::<u8>::empty());
    assert(crate::codec::enc_tag(0) + body =~= crate::codec::enc_tag(0) + body
        + Seq::<u8>::empty());
    lemma_call_value(body, v, batch_res_dec());
    lemma_call_service::<Seq<(Seq<char>, Option<TidbView>)>>(m, batch_res_dec());
}

} // verus!
