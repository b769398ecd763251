//! The request-code table: the stable mapping between operations and
//! their numeric wire identifiers.
//!
//! The mapping is a bijection between the declared operations and their
//! codes, and decoding any other number fails; both directions are
//! proved below.  The numbers are wire contract: once published they
//! are never reassigned.

use vstd::prelude::*;

verus! {

/// One value for each operation the protocol offers.
#[derive(Clone, Copy, PartialEq, Eq, Structural, Debug)]
pub enum RequestCode {
    GetConfig,
    GetAllowList,
    GetBlockList,
    GetDataSource,
    GetInternalNetworkList,
    GetTidbPatterns,
    GetTorExitNodeList,
    GetTrustedDomainList,
    GetTrustedUserAgentList,
    GetPretrainedModel,
    RenewCertificate,
}

/// The wire identifier of an operation.
pub open spec fn code_of(c: RequestCode) -> u32 {
    match c {
        RequestCode::GetConfig => 0,
        RequestCode::GetAllowList => 1,
        RequestCode::GetBlockList => 2,
        RequestCode::GetDataSource => 3,
        RequestCode::GetInternalNetworkList => 4,
        RequestCode::GetTidbPatterns => 5,
        RequestCode::GetTorExitNodeList => 6,
        RequestCode::GetTrustedDomainList => 7,
        RequestCode::GetTrustedUserAgentList => 8,
        RequestCode::GetPretrainedModel => 9,
        RequestCode::RenewCertificate => 10,
    }
}

/// The operation a wire identifier names, if any.
pub open spec fn code_of_u32(n: u32) -> Option<RequestCode> {
    if n == 0 {
        Some(RequestCode::GetConfig)
    } else if n == 1 {
        Some(RequestCode::GetAllowList)
    } else if n == 2 {
        Some(RequestCode::GetBlockList)
    } else if n == 3 {
        Some(RequestCode::GetDataSource)
    } else if n == 4 {
        Some(RequestCode::GetInternalNetworkList)
    } else if n == 5 {
        Some(RequestCode::GetTidbPatterns)
    } else if n == 6 {
        Some(RequestCode::GetTorExitNodeList)
    } else if n == 7 {
        Some(RequestCode::GetTrustedDomainList)
    } else if n == 8 {
        Some(RequestCode::GetTrustedUserAgentList)
    } else if n == 9 {
        Some(RequestCode::GetPretrainedModel)
    } else if n == 10 {
        Some(RequestCode::RenewCertificate)
    } else {
        None
    }
}

pub fn code_to_u32(c: RequestCode) -> (r: u32)
    ensures
        r == code_of(c),
{
    match c {
        RequestCode::GetConfig => 0,
        RequestCode::GetAllowList => 1,
        RequestCode::GetBlockList => 2,
        RequestCode::GetDataSource => 3,
        RequestCode::GetInternalNetworkList => 4,
        RequestCode::GetTidbPatterns => 5,
        RequestCode::GetTorExitNodeList => 6,
        RequestCode::GetTrustedDomainList => 7,
        RequestCode::GetTrustedUserAgentList => 8,
        RequestCode::GetPretrainedModel => 9,
        RequestCode::RenewCertificate => 10,
    }
}

pub fn u32_to_code(n: u32) -> (r: Option<RequestCode>)
    ensures
        r == code_of_u32(n),
{
    if n == 0 {
        Some(RequestCode::GetConfig)
    } else if n == 1 {
        Some(RequestCode::GetAllowList)
    } else if n == 2 {
        Some(RequestCode::GetBlockList)
    } else if n == 3 {
        Some(RequestCode::GetDataSource)
    } else if n == 4 {
        Some(RequestCode::GetInternalNetworkList)
    } else if n == 5 {
        Some(RequestCode::GetTidbPatterns)
    } else if n == 6 {
        Some(RequestCode::GetTorExitNodeList)
    } else if n == 7 {
        Some(RequestCode::GetTrustedDomainList)
    } else if n == 8 {
        Some(RequestCode::GetTrustedUserAgentList)
    } else if n == 9 {
        Some(RequestCode::GetPretrainedModel)
    } else if n == 10 {
        Some(RequestCode::RenewCertificate)
    } else {
        None
    }
}

/// Decoding the code of an operation yields that operation back.
pub proof fn lemma_code_round_trip(c: RequestCode)
    ensures
        code_of_u32(code_of(c)) == Some(c),
{
}

/// No two operations share a wire identifier.
pub proof fn lemma_code_injective(a: RequestCode, b: RequestCode)
    requires
        code_of(a) == code_of(b),
    ensures
        a == b,
{
}

/// Exactly the published identifiers decode; all others are rejected.
pub proof fn lemma_code_total_on_range(n: u32)
    ensures
        code_of_u32(n) is Some <==> n <= 10,
        code_of_u32(n) matches Some(c) ==> code_of(c) == n,
{
}

} // verus!
