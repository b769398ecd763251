//! A reference peer for the two keyed operations.
//!
//! The server side of the protocol is an outside collaborator, but its
//! obligations are part of the wire contract: answer the keyed lookup
//! with the matching record or an empty optional, and answer the
//! batched lookup with one entry per key, in the key order, with an
//! empty optional for every unmatched key.  The functions here are a
//! verified embodiment of those obligations, used to state the
//! end-to-end laws and to stand in for a server under test.  Whether a
//! real server buffers its answer or produces it incrementally cannot
//! be observed here: only the one decoded response frame can.

use vstd::prelude::*;

verus! {

use crate::codec::dec_u32_at;
use crate::codec::enc_str;
use crate::codec::enc_tag;
use crate::codec::enc_u32;
use crate::codec::enc_list;
use crate::codec::lemma_enc_list_take_snoc;
use crate::codec::read_u32;
use crate::codec::write_str;
use crate::codec::write_tag;
use crate::codec::write_u32;
use crate::frame::frame_of;
use crate::frame::frame_payload;
use crate::frame::read_frame;
use crate::ops::err_response;
use crate::ops::ok_response;
use crate::request_code::code_of;
use crate::request_code::code_to_u32;
use crate::request_code::RequestCode;
use crate::types::pair_seq_view;
use crate::types::wf_data_source;
use crate::types::wf_str;
use crate::types::wf_tidb;
use crate::types::DataSource;
use crate::types::DataSourceKey;
use crate::types::DataSourceKeyView;
use crate::types::DataSourceView;
use crate::types::Tidb;
use crate::types::TidbView;
use crate::wire::dec_data_source_key_at;
use crate::wire::dec_vec_pair_at;
use crate::wire::enc_opt_data_source;
use crate::wire::read_data_source_key;
use crate::wire::read_vec_pair;
use crate::wire::write_data_source;
use crate::wire_tidb::enc_batch;
use crate::wire_tidb::write_tidb;
use crate::wire_tidb::entry_enc;
use crate::wire_tidb::enc_batch_entry;
use crate::wire_tidb::enc_opt_tidb;

// ===================================================================
// Stores and lookups
// ===================================================================

pub open spec fn ds_store_view(v: Seq<DataSource>) -> Seq<DataSourceView> {
    v.map_values(|d: DataSource| d@)
}

pub open spec fn wf_ds_store(s: Seq<DataSourceView>) -> bool {
    forall|k: int| 0 <= k < s.len() ==> wf_data_source(#[trigger] s[k])
}

pub open spec fn tidb_store_view(v: Seq<(String, Tidb)>) -> Seq<(Seq<char>, TidbView)> {
    v.map_values(|p: (String, Tidb)| (p.0@, p.1@))
}

pub open spec fn wf_tidb_store(s: Seq<(Seq<char>, TidbView)>) -> bool {
    forall|k: int|
        0 <= k < s.len() ==> wf_str((#[trigger] s[k]).0) && wf_tidb(s[k].1)
}

/// Whether a record answers a key.
pub open spec fn key_matches(d: DataSourceView, k: DataSourceKeyView) -> bool {
    match k {
        DataSourceKeyView::Id(n) => d.id == n,
        DataSourceKeyView::Name(s) => d.name == s,
    }
}

/// The first record from position `i` on that answers the key.
pub open spec fn first_data_source_from(
    s: Seq<DataSourceView>,
    k: DataSourceKeyView,
    i: int,
) -> Option<DataSourceView>
    decreases s.len() - i,
{
    if i < 0 || i >= s.len() {
        None
    } else if key_matches(s[i], k) {
        Some(s[i])
    } else {
        first_data_source_from(s, k, i + 1)
    }
}

/// The record the peer holds for a key, if any.
pub open spec fn ds_lookup(s: Seq<DataSourceView>, k: DataSourceKeyView) -> Option<
    DataSourceView,
> {
    first_data_source_from(s, k, 0)
}

/// The first database from position `i` on with the given name.
pub open spec fn first_tidb_from(
    s: Seq<(Seq<char>, TidbView)>,
    name: Seq<char>,
    i: int,
) -> Option<TidbView>
    decreases s.len() - i,
{
    if i < 0 || i >= s.len() {
        None
    } else if s[i].0 == name {
        Some(s[i].1)
    } else {
        first_tidb_from(s, name, i + 1)
    }
}

/// The database the peer holds under a name, if any.
pub open spec fn tidb_lookup(s: Seq<(Seq<char>, TidbView)>, name: Seq<char>) -> Option<TidbView> {
    first_tidb_from(s, name, 0)
}

/// The peer's whole answer to a batched lookup: one entry per key, in
/// the key order, carrying the key's name and the lookup of that name.
pub open spec fn batch_answer(
    s: Seq<(Seq<char>, TidbView)>,
    keys: Seq<(Seq<char>, Seq<char>)>,
) -> Seq<(Seq<char>, Option<TidbView>)> {
    keys.map_values(|k: (Seq<char>, Seq<char>)| (k.0, tidb_lookup(s, k.0)))
}

/// The batched answer always has one entry per key, in the key order:
/// entry `i` carries the name of key `i`, whether or not it matched.
pub proof fn lemma_batch_answer_shape(
    s: Seq<(Seq<char>, TidbView)>,
    keys: Seq<(Seq<char>, Seq<char>)>,
)
    ensures
        batch_answer(s, keys).len() == keys.len(),
        forall|i: int|
            0 <= i < keys.len() ==> (#[trigger] batch_answer(s, keys)[i]).0 == keys[i].0,
        forall|i: int|
            0 <= i < keys.len() ==> (#[trigger] batch_answer(s, keys)[i]).1 == tidb_lookup(
                s,
                keys[i].0,
            ),
{
}

/// What a well-formed store answers is itself well-formed.
pub proof fn lemma_first_tidb_wf(s: Seq<(Seq<char>, TidbView)>, name: Seq<char>, i: int)
    requires
        wf_tidb_store(s),
    ensures
        first_tidb_from(s, name, i) matches Some(t) ==> wf_tidb(t),
    decreases s.len() - i,
{
    if 0 <= i < s.len() && !(s[i].0 == name) {
        lemma_first_tidb_wf(s, name, i + 1);
    }
}

pub proof fn lemma_first_data_source_wf(s: Seq<DataSourceView>, k: DataSourceKeyView, i: int)
    requires
        wf_ds_store(s),
    ensures
        first_data_source_from(s, k, i) matches Some(d) ==> wf_data_source(d),
    decreases s.len() - i,
{
    if 0 <= i < s.len() && !key_matches(s[i], k) {
        lemma_first_data_source_wf(s, k, i + 1);
    }
}

/// The answer of a well-formed store to well-formed keys is a
/// well-formed batch.
pub proof fn lemma_batch_answer_wf(
    s: Seq<(Seq<char>, TidbView)>,
    keys: Seq<(Seq<char>, Seq<char>)>,
)
    requires
        wf_tidb_store(s),
        crate::types::wf_pair_seq(keys),
    ensures
        crate::types::wf_batch(batch_answer(s, keys)),
{
    let ans = batch_answer(s, keys);
    assert forall|i: int| 0 <= i < ans.len() implies crate::types::wf_batch_entry(
        #[trigger] ans[i],
    ) by {
        assert(crate::types::wf_pair(keys[i]));
        lemma_first_tidb_wf(s, keys[i].0, 0);
    }
}

/// End to end, the batched lookup: what the client decodes from the
/// peer's answer is exactly the ordered answer list, with one entry
/// per key, in the key order, carrying each key's name.
pub proof fn lemma_batch_call_end_to_end(
    s: Seq<(Seq<char>, TidbView)>,
    keys: Seq<(Seq<char>, Seq<char>)>,
)
    requires
        wf_tidb_store(s),
        crate::types::wf_pair_seq(keys),
        enc_batch(batch_answer(s, keys)).len() + 1 <= 0xFFFF_FFFF,
    ensures
        crate::ops::get_tidb_patterns_result(ok_response(enc_batch(batch_answer(s, keys))))
            == Ok::<Seq<(Seq<char>, Option<TidbView>)>, crate::ops::CallErrorView>(
            batch_answer(s, keys),
        ),
        batch_answer(s, keys).len() == keys.len(),
        forall|i: int|
            0 <= i < keys.len() ==> (#[trigger] batch_answer(s, keys)[i]).0 == keys[i].0,
{
    lemma_batch_answer_wf(s, keys);
    lemma_batch_answer_shape(s, keys);
    crate::codec::lemma_enc_str_len(Seq::<char>::empty());
    crate::ops::lemma_get_tidb_patterns_call(batch_answer(s, keys), Seq::<char>::empty());
}

/// End to end, the keyed lookup: the peer's answer decodes to the held
/// record, or to the not-found outcome where the store holds none.
pub proof fn lemma_data_source_call_end_to_end(s: Seq<DataSourceView>, k: DataSourceKeyView)
    requires
        wf_ds_store(s),
        enc_opt_data_source(ds_lookup(s, k)).len() + 1 <= 0xFFFF_FFFF,
    ensures
        crate::ops::get_data_source_result(ok_response(enc_opt_data_source(ds_lookup(s, k))))
            == (match ds_lookup(s, k) {
            Some(d) => Ok::<DataSourceView, crate::ops::CallErrorView>(d),
            None => Err::<DataSourceView, crate::ops::CallErrorView>(
                crate::ops::CallErrorView::NotFound,
            ),
        }),
{
    lemma_first_data_source_wf(s, k, 0);
    let o = ds_lookup(s, k);
    crate::wire::lemma_rt_opt_data_source(o, enc_tag(0), Seq::<u8>::empty());
    assert(enc_tag(0) + enc_opt_data_source(o) =~= enc_tag(0) + enc_opt_data_source(o)
        + Seq::<u8>::empty());
    crate::ops::lemma_call_value(
        enc_opt_data_source(o),
        o,
        crate::ops::opt_ds_res_dec(),
    );
}

// ===================================================================
// Executable lookups
// ===================================================================

pub fn find_data_source(store: &Vec<DataSource>, key: &DataSourceKey) -> (r: Option<usize>)
    ensures
        match r {
            Some(i) => i < store@.len() && ds_lookup(ds_store_view(store@), key@) == Some(
                store@[i as int]@,
            ),
            None => ds_lookup(ds_store_view(store@), key@) is None,
        },
{
    let ghost sv = ds_store_view(store@);
    let n: usize = store.len();
    let mut i: usize = 0;
    while i < n
        invariant
            n == store@.len(),
            sv == ds_store_view(store@),
            sv.len() == n,
            i <= n,
            first_data_source_from(sv, key@, 0) == first_data_source_from(sv, key@, i as int),
        decreases n - i,
    {
        proof {
            assert(sv[i as int] == store@[i as int]@);
        }
        let hit: bool = match key {
            DataSourceKey::Id(id) => store[i].id == *id,
            DataSourceKey::Name(s) => store[i].name.eq(s),
        };
        proof {
            assert(hit == key_matches(sv[i as int], key@));
        }
        if hit {
            proof {
                assert(first_data_source_from(sv, key@, i as int) == Some(sv[i as int]));
            }
            return Some(i);
        }
        proof {
            assert(first_data_source_from(sv, key@, i as int) == first_data_source_from(
                sv,
                key@,
                i as int + 1,
            ));
        }
        i = i + 1;
    }
    proof {
        assert(first_data_source_from(sv, key@, n as int) is None);
    }
    None
}

pub fn find_tidb(store: &Vec<(String, Tidb)>, name: &String) -> (r: Option<usize>)
    ensures
        match r {
            Some(i) => i < store@.len() && tidb_lookup(tidb_store_view(store@), name@) == Some(
                store@[i as int].1@,
            ),
            None => tidb_lookup(tidb_store_view(store@), name@) is None,
        },
{
    let ghost sv = tidb_store_view(store@);
    let n: usize = store.len();
    let mut i: usize = 0;
    while i < n
        invariant
            n == store@.len(),
            sv == tidb_store_view(store@),
            sv.len() == n,
            i <= n,
            first_tidb_from(sv, name@, 0) == first_tidb_from(sv, name@, i as int),
        decreases n - i,
    {
        proof {
            assert(sv[i as int] == (store@[i as int].0@, store@[i as int].1@));
        }
        let hit: bool = store[i].0.eq(name);
        if hit {
            proof {
                assert(first_tidb_from(sv, name@, i as int) == Some(sv[i as int].1));
            }
            return Some(i);
        }
        proof {
            assert(first_tidb_from(sv, name@, i as int) == first_tidb_from(
                sv,
                name@,
                i as int + 1,
            ));
        }
        i = i + 1;
    }
    proof {
        assert(first_tidb_from(sv, name@, n as int) is None);
    }
    None
}

// ===================================================================
// Requests as the peer reads them
// ===================================================================

/// The key of a well-formed single-lookup request: one frame whose
/// payload is the lookup operation's code, then exactly one key.
pub open spec fn parse_data_source_request(b: Seq<u8>) -> Option<DataSourceKeyView> {
    match frame_payload(b) {
        Some(p) => match dec_u32_at(p, 0) {
            Some((code, j)) => if code == code_of(RequestCode::GetDataSource) {
                match dec_data_source_key_at(p, j) {
                    Some((k, e)) => if e == p.len() {
                        Some(k)
                    } else {
                        None
                    },
                    None => None,
                }
            } else {
                None
            },
            None => None,
        },
        None => None,
    }
}

/// The keys of a well-formed batched-lookup request.
pub open spec fn parse_tidb_patterns_request(b: Seq<u8>) -> Option<Seq<(Seq<char>, Seq<char>)>> {
    match frame_payload(b) {
        Some(p) => match dec_u32_at(p, 0) {
            Some((code, j)) => if code == code_of(RequestCode::GetTidbPatterns) {
                match dec_vec_pair_at(p, j) {
                    Some((keys, e)) => if e == p.len() {
                        Some(keys)
                    } else {
                        None
                    },
                    None => None,
                }
            } else {
                None
            },
            None => None,
        },
        None => None,
    }
}

/// The frame the client builds for a key parses on the peer as
/// exactly that key.
pub proof fn lemma_request_round_trip_data_source(k: DataSourceKeyView)
    requires
        crate::types::wf_data_source_key(k),
        crate::wire::enc_data_source_key(k).len() + 4 <= 0xFFFF_FFFF,
    ensures
        parse_data_source_request(
            crate::ops::request_frame(
                code_of(RequestCode::GetDataSource),
                crate::wire::enc_data_source_key(k),
            ),
        ) == Some(k),
{
    vstd::bytes::lemma_auto_spec_u32_to_from_le_bytes();
    let code = code_of(RequestCode::GetDataSource);
    let body = enc_u32(code) + crate::wire::enc_data_source_key(k);
    crate::frame::lemma_frame_round_trip(body);
    assert(body =~= Seq::<u8>::empty() + enc_u32(code) + crate::wire::enc_data_source_key(k));
    crate::codec::lemma_rt_u32(code, Seq::<u8>::empty(), crate::wire::enc_data_source_key(k));
    assert(body =~= enc_u32(code) + crate::wire::enc_data_source_key(k) + Seq::<u8>::empty());
    crate::wire::lemma_rt_data_source_key(k, enc_u32(code), Seq::<u8>::empty());
}

/// The frame the client builds for a key list parses on the peer as
/// exactly those keys.
pub proof fn lemma_request_round_trip_tidb_patterns(keys: Seq<(Seq<char>, Seq<char>)>)
    requires
        crate::types::wf_pair_seq(keys),
        crate::wire::enc_vec_pair(keys).len() + 4 <= 0xFFFF_FFFF,
    ensures
        parse_tidb_patterns_request(
            crate::ops::request_frame(
                code_of(RequestCode::GetTidbPatterns),
                crate::wire::enc_vec_pair(keys),
            ),
        ) == Some(keys),
{
    vstd::bytes::lemma_auto_spec_u32_to_from_le_bytes();
    let code = code_of(RequestCode::GetTidbPatterns);
    let body = enc_u32(code) + crate::wire::enc_vec_pair(keys);
    crate::frame::lemma_frame_round_trip(body);
    assert(body =~= Seq::<u8>::empty() + enc_u32(code) + crate::wire::enc_vec_pair(keys));
    crate::codec::lemma_rt_u32(code, Seq::<u8>::empty(), crate::wire::enc_vec_pair(keys));
    assert(body =~= enc_u32(code) + crate::wire::enc_vec_pair(keys) + Seq::<u8>::empty());
    crate::wire::lemma_rt_vec_pair(keys, enc_u32(code), Seq::<u8>::empty());
}

/// One whole exchange with a well-behaved peer, end to end: the frame
/// the client sends parses as the key it meant, and the peer's answer
/// for that key decodes on the client to the held record, or to the
/// not-found outcome where the store holds none.
pub proof fn lemma_unary_data_source_exchange(s: Seq<DataSourceView>, k: DataSourceKeyView)
    requires
        wf_ds_store(s),
        crate::types::wf_data_source_key(k),
        crate::wire::enc_data_source_key(k).len() + 4 <= 0xFFFF_FFFF,
        enc_opt_data_source(ds_lookup(s, k)).len() + 1 <= 0xFFFF_FFFF,
    ensures
        parse_data_source_request(
            crate::ops::request_frame(
                code_of(RequestCode::GetDataSource),
                crate::wire::enc_data_source_key(k),
            ),
        ) == Some(k),
        crate::ops::get_data_source_result(ok_response(enc_opt_data_source(ds_lookup(s, k))))
            == (match ds_lookup(s, k) {
            Some(d) => Ok::<DataSourceView, crate::ops::CallErrorView>(d),
            None => Err::<DataSourceView, crate::ops::CallErrorView>(
                crate::ops::CallErrorView::NotFound,
            ),
        }),
{
    lemma_request_round_trip_data_source(k);
    lemma_data_source_call_end_to_end(s, k);
}

/// One whole batched exchange with a well-behaved peer, end to end:
/// the frame the client sends parses as the keys it meant, and the
/// peer's answer decodes on the client to a list with one entry per
/// key, in the key order, carrying each key's name.
pub proof fn lemma_unary_batch_exchange(
    s: Seq<(Seq<char>, TidbView)>,
    keys: Seq<(Seq<char>, Seq<char>)>,
)
    requires
        wf_tidb_store(s),
        crate::types::wf_pair_seq(keys),
        crate::wire::enc_vec_pair(keys).len() + 4 <= 0xFFFF_FFFF,
        enc_batch(batch_answer(s, keys)).len() + 1 <= 0xFFFF_FFFF,
    ensures
        parse_tidb_patterns_request(
            crate::ops::request_frame(
                code_of(RequestCode::GetTidbPatterns),
                crate::wire::enc_vec_pair(keys),
            ),
        ) == Some(keys),
        crate::ops::get_tidb_patterns_result(ok_response(enc_batch(batch_answer(s, keys))))
            == Ok::<Seq<(Seq<char>, Option<TidbView>)>, crate::ops::CallErrorView>(
            batch_answer(s, keys),
        ),
        batch_answer(s, keys).len() == keys.len(),
        forall|i: int|
            0 <= i < keys.len() ==> (#[trigger] batch_answer(s, keys)[i]).0 == keys[i].0,
{
    lemma_request_round_trip_tidb_patterns(keys);
    lemma_batch_call_end_to_end(s, keys);
}

// ===================================================================
// Responses
// ===================================================================

/// The message every ill-formed or misdirected request is answered
/// with.
pub open spec fn rejected_request_message() -> Seq<char> {
    "unexpected request"@
}

/// The error frame for a rejected request.
fn rejected_response() -> (r: Vec<u8>)
    ensures
        r@ == err_response(rejected_request_message()),
{
    proof {
        reveal_strlit("unexpected request");
        crate::codec::lemma_enc_str_len(rejected_request_message());
    }
    let mut payload: Vec<u8> = Vec::new();
    write_tag(&mut payload, 1);
    write_str(&mut payload, "unexpected request");
    proof {
        assert(payload@ =~= enc_tag(1) + enc_str(rejected_request_message()));
    }
    frame_of(&payload)
}

/// Answers one single-lookup request frame: the matching record, an
/// empty optional where none matches, or the rejection error where the
/// request is not a well-formed lookup request.
pub fn respond_data_source(store: &Vec<DataSource>, request: &[u8]) -> (r: Option<Vec<u8>>)
    requires
        wf_ds_store(ds_store_view(store@)),
    ensures
        match parse_data_source_request(request@) {
            Some(k) => r matches Some(out) ==> out@ == ok_response(
                enc_opt_data_source(ds_lookup(ds_store_view(store@), k)),
            ),
            None => r matches Some(out) && out@ == err_response(rejected_request_message()),
        },
        r is None ==> (parse_data_source_request(request@) matches Some(k) && 1
            + enc_opt_data_source(ds_lookup(ds_store_view(store@), k)).len() > 0xFFFF_FFFF - 4),
{
    let p = match read_frame(request) {
        Some(p) => p,
        None => {
            return Some(rejected_response());
        },
    };
    let (code, j) = match read_u32(p.as_slice(), 0) {
        Some(x) => x,
        None => {
            return Some(rejected_response());
        },
    };
    if code != code_to_u32(RequestCode::GetDataSource) {
        return Some(rejected_response());
    }
    let (key, e) = match read_data_source_key(p.as_slice(), j) {
        Some(x) => x,
        None => {
            return Some(rejected_response());
        },
    };
    if e != p.len() {
        return Some(rejected_response());
    }
    let mut payload: Vec<u8> = Vec::new();
    write_tag(&mut payload, 0);
    match find_data_source(store, &key) {
        None => {
            write_tag(&mut payload, 0);
            proof {
                assert(payload@ =~= enc_tag(0) + enc_opt_data_source(
                    ds_lookup(ds_store_view(store@), key@),
                ));
            }
        },
        Some(i) => {
            write_tag(&mut payload, 1);
            proof {
                assert(ds_store_view(store@)[i as int] == store@[i as int]@);
            }
            write_data_source(&mut payload, &store[i]);
            proof {
                assert(payload@ =~= enc_tag(0) + enc_opt_data_source(
                    ds_lookup(ds_store_view(store@), key@),
                ));
            }
        },
    }
    if payload.len() > 0xFFFF_FFFF - 4 {
        return None;
    }
    Some(frame_of(&payload))
}

/// Answers one batched-lookup request frame: one entry per key, in the
/// key order, or the rejection error where the request is not a
/// well-formed batched lookup.
pub fn respond_tidb_patterns(store: &Vec<(String, Tidb)>, request: &[u8]) -> (r: Option<Vec<u8>>)
    requires
        wf_tidb_store(tidb_store_view(store@)),
    ensures
        match parse_tidb_patterns_request(request@) {
            Some(keys) => r matches Some(out) ==> out@ == ok_response(
                enc_batch(batch_answer(tidb_store_view(store@), keys)),
            ),
            None => r matches Some(out) && out@ == err_response(rejected_request_message()),
        },
        r is None ==> (parse_tidb_patterns_request(request@) matches Some(keys) && 1
            + enc_batch(batch_answer(tidb_store_view(store@), keys)).len() > 0xFFFF_FFFF - 4),
{
    let ghost sv = tidb_store_view(store@);
    let p = match read_frame(request) {
        Some(p) => p,
        None => {
            return Some(rejected_response());
        },
    };
    let (code, j) = match read_u32(p.as_slice(), 0) {
        Some(x) => x,
        None => {
            return Some(rejected_response());
        },
    };
    if code != code_to_u32(RequestCode::GetTidbPatterns) {
        return Some(rejected_response());
    }
    let (keys, e) = match read_vec_pair(p.as_slice(), j) {
        Some(x) => x,
        None => {
            return Some(rejected_response());
        },
    };
    if e != p.len() {
        return Some(rejected_response());
    }
    let ghost kv = pair_seq_view(keys@);
    let ghost ans = batch_answer(sv, kv);
    proof {
        lemma_batch_answer_shape(sv, kv);
        assert(kv.len() <= 0xFFFF_FFFF);
    }
    let n: usize = keys.len();
    let mut payload: Vec<u8> = Vec::new();
    write_tag(&mut payload, 0);
    write_u32(&mut payload, n as u32);
    let mut k: usize = 0;
    proof {
        assert(ans.take(0) =~= Seq::<(Seq<char>, Option<TidbView>)>::empty());
        assert(payload@ =~= enc_tag(0) + enc_u32(n as u32) + enc_list(
            ans.take(0),
            entry_enc(),
        ));
    }
    while k < n
        invariant
            n == keys@.len(),
            sv == tidb_store_view(store@),
            wf_tidb_store(sv),
            kv == pair_seq_view(keys@),
            crate::types::wf_pair_seq(kv),
            kv.len() == n,
            ans == batch_answer(sv, kv),
            ans.len() == n,
            forall|i: int| 0 <= i < n ==> (#[trigger] ans[i]).0 == kv[i].0,
            forall|i: int| 0 <= i < n ==> (#[trigger] ans[i]).1 == tidb_lookup(sv, kv[i].0),
            k <= n,
            payload@ == enc_tag(0) + enc_u32(n as u32) + enc_list(
                ans.take(k as int),
                entry_enc(),
            ),
        decreases n - k,
    {
        proof {
            assert(kv[k as int] == (keys@[k as int].0@, keys@[k as int].1@));
            assert(crate::types::wf_pair(kv[k as int]));
        }
        write_str(&mut payload, keys[k].0.as_str());
        match find_tidb(store, &keys[k].0) {
            None => {
                write_tag(&mut payload, 0);
            },
            Some(i) => {
                proof {
                    assert(sv[i as int] == (store@[i as int].0@, store@[i as int].1@));
                    assert(wf_tidb(sv[i as int].1));
                }
                write_tag(&mut payload, 1);
                write_tidb(&mut payload, &store[i].1);
            },
        }
        proof {
            assert(ans[k as int] == (kv[k as int].0, tidb_lookup(sv, kv[k as int].0)));
            lemma_enc_list_take_snoc(ans, entry_enc(), k as int);
            assert(enc_batch_entry(ans[k as int]) == enc_str(kv[k as int].0) + enc_opt_tidb(
                tidb_lookup(sv, kv[k as int].0),
            ));
            assert(payload@ =~= enc_tag(0) + enc_u32(n as u32) + enc_list(
                ans.take(k as int + 1),
                entry_enc(),
            ));
        }
        k = k + 1;
    }
    proof {
        assert(ans.take(n as int) =~= ans);
        assert(payload@ =~= enc_tag(0) + enc_batch(ans));
    }
    if payload.len() > 0xFFFF_FFFF - 4 {
        return None;
    }
    Some(frame_of(&payload))
}

} // verus!
