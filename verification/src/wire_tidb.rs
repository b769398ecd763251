//! Wire encodings of the threat-intelligence records: rules, databases,
//! and the entries of a batched-lookup response.

use vstd::prelude::*;

verus! {

use crate::codec::dec_list_at;
use crate::codec::dec_opt_at;
use crate::codec::dec_str_at;
use crate::codec::dec_u32_at;
use crate::codec::enc_list;
use crate::codec::enc_opt;
use crate::codec::enc_str;
use crate::codec::enc_tag;
use crate::codec::enc_u32;
use crate::codec::lemma_dec_list_fail;
use crate::codec::lemma_dec_list_snoc;
use crate::codec::lemma_enc_list_take_snoc;
use crate::codec::lemma_rt_list;
use crate::codec::lemma_rt_opt_none;
use crate::codec::lemma_rt_opt_some;
use crate::codec::lemma_rt_str;
use crate::codec::lemma_rt_u32;
use crate::codec::read_string;
use crate::codec::read_tag;
use crate::codec::read_u32;
use crate::codec::write_str;
use crate::codec::write_tag;
use crate::codec::write_u32;
use crate::types::batch_entry_view;
use crate::types::batch_view;
use crate::types::opt_str_seq_view;
use crate::types::opt_str_view;
use crate::types::opt_tidb_view;
use crate::types::rule_seq_view;
use crate::types::wf_batch;
use crate::types::wf_batch_entry;
use crate::types::wf_opt_tidb;
use crate::types::wf_rule_seq;
use crate::types::wf_ti_rule;
use crate::types::wf_tidb;
use crate::types::TiRule;
use crate::types::TiRuleView;
use crate::types::Tidb;
use crate::types::TidbView;
use crate::wire::dec_category_at;
use crate::wire::dec_kind_at;
use crate::wire::dec_opt_str_at;
use crate::wire::dec_opt_vec_str_at;
use crate::wire::enc_category;
use crate::wire::enc_kind;
use crate::wire::enc_opt_str;
use crate::wire::enc_opt_vec_str;
use crate::wire::lemma_rt_category;
use crate::wire::lemma_rt_kind;
use crate::wire::lemma_rt_opt_str;
use crate::wire::lemma_rt_opt_vec_str;
use crate::wire::read_category;
use crate::wire::read_kind;
use crate::wire::read_opt_string;
use crate::wire::read_opt_vec_string;
use crate::wire::write_category;
use crate::wire::write_kind;
use crate::wire::write_opt_str;
use crate::wire::write_opt_vec_str;

// ===================================================================
// Spec encoders and decoders
// ===================================================================

pub open spec fn enc_ti_rule(r: TiRuleView) -> Seq<u8> {
    enc_u32(r.rule_id) + enc_category(r.category) + enc_str(r.name) + enc_opt_str(r.description)
        + enc_opt_vec_str(r.references) + enc_opt_vec_str(r.samples) + enc_opt_vec_str(
        r.signatures,
    )
}

pub open spec fn dec_ti_rule_at(b: Seq<u8>, i: int) -> Option<(TiRuleView, int)> {
    match dec_u32_at(b, i) {
        Some((rule_id, j1)) => match dec_category_at(b, j1) {
            Some((category, j2)) => match dec_str_at(b, j2) {
                Some((name, j3)) => match dec_opt_str_at(b, j3) {
                    Some((description, j4)) => match dec_opt_vec_str_at(b, j4) {
                        Some((references, j5)) => match dec_opt_vec_str_at(b, j5) {
                            Some((samples, j6)) => match dec_opt_vec_str_at(b, j6) {
                                Some((signatures, j7)) => Some(
                                    (
                                        TiRuleView {
                                            rule_id,
                                            category,
                                            name,
                                            description,
                                            references,
                                            samples,
                                            signatures,
                                        },
                                        j7,
                                    ),
                                ),
                                None => None,
                            },
                            None => None,
                        },
                        None => None,
                    },
                    None => None,
                },
                None => None,
            },
            None => None,
        },
        None => None,
    }
}

pub open spec fn rule_enc() -> spec_fn(TiRuleView) -> Seq<u8> {
    |r: TiRuleView| enc_ti_rule(r)
}

pub open spec fn rule_dec() -> spec_fn(Seq<u8>, int) -> Option<(TiRuleView, int)> {
    |b: Seq<u8>, i: int| dec_ti_rule_at(b, i)
}

pub open spec fn enc_vec_rule(v: Seq<TiRuleView>) -> Seq<u8> {
    enc_u32(v.len() as u32) + enc_list(v, rule_enc())
}

pub open spec fn dec_vec_rule_at(b: Seq<u8>, i: int) -> Option<(Seq<TiRuleView>, int)> {
    match dec_u32_at(b, i) {
        Some((n, j)) => dec_list_at(b, j, n as nat, rule_dec()),
        None => None,
    }
}

pub open spec fn enc_tidb(t: TidbView) -> Seq<u8> {
    enc_u32(t.id) + enc_str(t.name) + enc_opt_str(t.description) + enc_kind(t.kind) + enc_category(
        t.category,
    ) + enc_str(t.version) + enc_vec_rule(t.patterns)
}

pub open spec fn dec_tidb_at(b: Seq<u8>, i: int) -> Option<(TidbView, int)> {
    match dec_u32_at(b, i) {
        Some((id, j1)) => match dec_str_at(b, j1) {
            Some((name, j2)) => match dec_opt_str_at(b, j2) {
                Some((description, j3)) => match dec_kind_at(b, j3) {
                    Some((kind, j4)) => match dec_category_at(b, j4) {
                        Some((category, j5)) => match dec_str_at(b, j5) {
                            Some((version, j6)) => match dec_vec_rule_at(b, j6) {
                                Some((patterns, j7)) => Some(
                                    (
                                        TidbView {
                                            id,
                                            name,
                                            description,
                                            kind,
                                            category,
                                            version,
                                            patterns,
                                        },
                                        j7,
                                    ),
                                ),
                                None => None,
                            },
                            None => None,
                        },
                        None => None,
                    },
                    None => None,
                },
                None => None,
            },
            None => None,
        },
        None => None,
    }
}

pub open spec fn tidb_enc() -> spec_fn(TidbView) -> Seq<u8> {
    |t: TidbView| enc_tidb(t)
}

pub open spec fn tidb_dec() -> spec_fn(Seq<u8>, int) -> Option<(TidbView, int)> {
    |b: Seq<u8>, i: int| dec_tidb_at(b, i)
}

pub open spec fn enc_opt_tidb(o: Option<TidbView>) -> Seq<u8> {
    enc_opt(o, tidb_enc())
}

pub open spec fn dec_opt_tidb_at(b: Seq<u8>, i: int) -> Option<(Option<TidbView>, int)> {
    dec_opt_at(b, i, tidb_dec())
}

/// One entry of a batched-lookup response: the asked-for name, then the
/// matching database if any.
pub open spec fn enc_batch_entry(e: (Seq<char>, Option<TidbView>)) -> Seq<u8> {
    enc_str(e.0) + enc_opt_tidb(e.1)
}

pub open spec fn dec_batch_entry_at(b: Seq<u8>, i: int) -> Option<
    ((Seq<char>, Option<TidbView>), int),
> {
    match dec_str_at(b, i) {
        Some((name, j)) => match dec_opt_tidb_at(b, j) {
            Some((o, k)) => Some(((name, o), k)),
            None => None,
        },
        None => None,
    }
}

pub open spec fn entry_enc() -> spec_fn((Seq<char>, Option<TidbView>)) -> Seq<u8> {
    |e: (Seq<char>, Option<TidbView>)| enc_batch_entry(e)
}

pub open spec fn entry_dec() -> spec_fn(Seq<u8>, int) -> Option<
    ((Seq<char>, Option<TidbView>), int),
> {
    |b: Seq<u8>, i: int| dec_batch_entry_at(b, i)
}

pub open spec fn enc_batch(v: Seq<(Seq<char>, Option<TidbView>)>) -> Seq<u8> {
    enc_u32(v.len() as u32) + enc_list(v, entry_enc())
}

pub open spec fn dec_batch_at(b: Seq<u8>, i: int) -> Option<
    (Seq<(Seq<char>, Option<TidbView>)>, int),
> {
    match dec_u32_at(b, i) {
        Some((n, j)) => dec_list_at(b, j, n as nat, entry_dec()),
        None => None,
    }
}

// ===================================================================
// Executable writers
// ===================================================================

pub fn write_ti_rule(buf: &mut Vec<u8>, r: &TiRule)
    requires
        wf_ti_rule(r@),
    ensures
        final(buf)@ == old(buf)@ + enc_ti_rule(r@),
{
    write_u32(buf, r.rule_id);
    write_category(buf, &r.category);
    write_str(buf, r.name.as_str());
    write_opt_str(buf, &r.description);
    write_opt_vec_str(buf, &r.references);
    write_opt_vec_str(buf, &r.samples);
    write_opt_vec_str(buf, &r.signatures);
    proof {
        assert(old(buf)@ + enc_u32(r.rule_id) + enc_category(r.category) + enc_str(r.name@)
            + enc_opt_str(opt_str_view(r.description)) + enc_opt_vec_str(
            opt_str_seq_view(r.references),
        ) + enc_opt_vec_str(opt_str_seq_view(r.samples)) + enc_opt_vec_str(
            opt_str_seq_view(r.signatures),
        ) =~= old(buf)@ + enc_ti_rule(r@));
    }
}

pub fn write_vec_rule(buf: &mut Vec<u8>, v: &Vec<TiRule>)
    requires
        wf_rule_seq(rule_seq_view(v@)),
    ensures
        final(buf)@ == old(buf)@ + enc_vec_rule(rule_seq_view(v@)),
{
    let ghost sv = rule_seq_view(v@);
    let n: usize = v.len();
    write_u32(buf, n as u32);
    let mut k: usize = 0;
    while k < n
        invariant
            n == v@.len(),
            sv == rule_seq_view(v@),
            sv.len() == n,
            wf_rule_seq(sv),
            k <= n,
            buf@ == old(buf)@ + enc_u32(n as u32) + enc_list(sv.take(k as int), rule_enc()),
        decreases n - k,
    {
        proof {
            assert(sv[k as int] == v@[k as int]@);
        }
        write_ti_rule(buf, &v[k]);
        proof {
            lemma_enc_list_take_snoc(sv, rule_enc(), k as int);
            assert(old(buf)@ + enc_u32(n as u32) + enc_list(sv.take(k as int), rule_enc())
                + enc_ti_rule(sv[k as int]) =~= old(buf)@ + enc_u32(n as u32) + enc_list(
                sv.take(k as int + 1),
                rule_enc(),
            ));
        }
        k = k + 1;
    }
    proof {
        assert(sv.take(n as int) =~= sv);
        assert(buf@ =~= old(buf)@ + enc_vec_rule(sv));
    }
}

pub fn write_tidb(buf: &mut Vec<u8>, t: &Tidb)
    requires
        wf_tidb(t@),
    ensures
        final(buf)@ == old(buf)@ + enc_tidb(t@),
{
    write_u32(buf, t.id);
    write_str(buf, t.name.as_str());
    write_opt_str(buf, &t.description);
    write_kind(buf, &t.kind);
    write_category(buf, &t.category);
    write_str(buf, t.version.as_str());
    write_vec_rule(buf, &t.patterns);
    proof {
        assert(old(buf)@ + enc_u32(t.id) + enc_str(t.name@) + enc_opt_str(
            opt_str_view(t.description),
        ) + enc_kind(t.kind) + enc_category(t.category) + enc_str(t.version@) + enc_vec_rule(
            rule_seq_view(t.patterns@),
        ) =~= old(buf)@ + enc_tidb(t@));
    }
}

pub fn write_opt_tidb(buf: &mut Vec<u8>, o: &Option<Tidb>)
    requires
        wf_opt_tidb(opt_tidb_view(*o)),
    ensures
        final(buf)@ == old(buf)@ + enc_opt_tidb(opt_tidb_view(*o)),
{
    match o {
        None => {
            write_tag(buf, 0);
            proof {
                assert(old(buf)@ + enc_tag(0) =~= old(buf)@ + enc_opt_tidb(opt_tidb_view(*o)));
            }
        },
        Some(t) => {
            write_tag(buf, 1);
            write_tidb(buf, t);
            proof {
                assert(old(buf)@ + enc_tag(1) + enc_tidb(t@) =~= old(buf)@ + enc_opt_tidb(
                    opt_tidb_view(*o),
                ));
            }
        },
    }
}

pub fn write_batch_entry(buf: &mut Vec<u8>, e: &(String, Option<Tidb>))
    requires
        wf_batch_entry(batch_entry_view(*e)),
    ensures
        final(buf)@ == old(buf)@ + enc_batch_entry(batch_entry_view(*e)),
{
    write_str(buf, e.0.as_str());
    write_opt_tidb(buf, &e.1);
    proof {
        assert(old(buf)@ + enc_str(e.0@) + enc_opt_tidb(opt_tidb_view(e.1)) =~= old(buf)@
            + enc_batch_entry(batch_entry_view(*e)));
    }
}

pub fn write_batch(buf: &mut Vec<u8>, v: &Vec<(String, Option<Tidb>)>)
    requires
        wf_batch(batch_view(v@)),
    ensures
        final(buf)@ == old(buf)@ + enc_batch(batch_view(v@)),
{
    let ghost sv = batch_view(v@);
    let n: usize = v.len();
    write_u32(buf, n as u32);
    let mut k: usize = 0;
    while k < n
        invariant
            n == v@.len(),
            sv == batch_view(v@),
            sv.len() == n,
            wf_batch(sv),
            k <= n,
            buf@ == old(buf)@ + enc_u32(n as u32) + enc_list(sv.take(k as int), entry_enc()),
        decreases n - k,
    {
        proof {
            assert(sv[k as int] == batch_entry_view(v@[k as int]));
        }
        write_batch_entry(buf, &v[k]);
        proof {
            lemma_enc_list_take_snoc(sv, entry_enc(), k as int);
            assert(old(buf)@ + enc_u32(n as u32) + enc_list(sv.take(k as int), entry_enc())
                + enc_batch_entry(sv[k as int]) =~= old(buf)@ + enc_u32(n as u32) + enc_list(
                sv.take(k as int + 1),
                entry_enc(),
            ));
        }
        k = k + 1;
    }
    proof {
        assert(sv.take(n as int) =~= sv);
        assert(buf@ =~= old(buf)@ + enc_batch(sv));
    }
}

// ===================================================================
// Executable readers
// ===================================================================

pub fn read_ti_rule(b: &[u8], i: usize) -> (r: Option<(TiRule, usize)>)
    ensures
        r matches Some((x, j)) ==> dec_ti_rule_at(b@, i as int) == Some((x@, j as int)),
        r is None ==> dec_ti_rule_at(b@, i as int) is None,
{
    match read_u32(b, i) {
        Some((rule_id, j1)) => match read_category(b, j1) {
            Some((category, j2)) => match read_string(b, j2) {
                Some((name, j3)) => match read_opt_string(b, j3) {
                    Some((description, j4)) => match read_opt_vec_string(b, j4) {
                        Some((references, j5)) => match read_opt_vec_string(b, j5) {
                            Some((samples, j6)) => match read_opt_vec_string(b, j6) {
                                Some((signatures, j7)) => Some(
                                    (
                                        TiRule {
                                            rule_id,
                                            category,
                                            name,
                                            description,
                                            references,
                                            samples,
                                            signatures,
                                        },
                                        j7,
                                    ),
                                ),
                                None => None,
                            },
                            None => None,
                        },
                        None => None,
                    },
                    None => None,
                },
                None => None,
            },
            None => None,
        },
        None => None,
    }
}

pub fn read_vec_rule(b: &[u8], i: usize) -> (r: Option<(Vec<TiRule>, usize)>)
    ensures
        r matches Some((v, j)) ==> dec_vec_rule_at(b@, i as int) == Some((
            rule_seq_view(v@),
            j as int,
        )),
        r is None ==> dec_vec_rule_at(b@, i as int) is None,
{
    match read_u32(b, i) {
        Some((n, j0)) => {
            let mut v: Vec<TiRule> = Vec::new();
            let mut j: usize = j0;
            let mut done: u32 = 0;
            proof {
                assert(rule_seq_view(v@) =~= Seq::<TiRuleView>::empty());
            }
            while done < n
                invariant
                    dec_u32_at(b@, i as int) == Some((n, j0 as int)),
                    done <= n,
                    dec_list_at(b@, j0 as int, done as nat, rule_dec()) == Some((
                        rule_seq_view(v@),
                        j as int,
                    )),
                decreases n - done,
            {
                match read_ti_rule(b, j) {
                    Some((x, j2)) => {
                        proof {
                            lemma_dec_list_snoc(
                                b@,
                                j0 as int,
                                done as nat,
                                rule_dec(),
                                rule_seq_view(v@),
                                j as int,
                                x@,
                                j2 as int,
                            );
                            assert(rule_seq_view(v@.push(x)) =~= rule_seq_view(v@).push(x@));
                        }
                        v.push(x);
                        j = j2;
                        done = done + 1;
                    },
                    None => {
                        proof {
                            lemma_dec_list_fail(
                                b@,
                                j0 as int,
                                done as nat,
                                n as nat,
                                rule_dec(),
                                rule_seq_view(v@),
                                j as int,
                            );
                        }
                        return None;
                    },
                }
            }
            Some((v, j))
        },
        None => None,
    }
}

pub fn read_tidb(b: &[u8], i: usize) -> (r: Option<(Tidb, usize)>)
    ensures
        r matches Some((t, j)) ==> dec_tidb_at(b@, i as int) == Some((t@, j as int)),
        r is None ==> dec_tidb_at(b@, i as int) is None,
{
    match read_u32(b, i) {
        Some((id, j1)) => match read_string(b, j1) {
            Some((name, j2)) => match read_opt_string(b, j2) {
                Some((description, j3)) => match read_kind(b, j3) {
                    Some((kind, j4)) => match read_category(b, j4) {
                        Some((category, j5)) => match read_string(b, j5) {
                            Some((version, j6)) => match read_vec_rule(b, j6) {
                                Some((patterns, j7)) => Some(
                                    (
                                        Tidb {
                                            id,
                                            name,
                                            description,
                                            kind,
                                            category,
                                            version,
                                            patterns,
                                        },
                                        j7,
                                    ),
                                ),
                                None => None,
                            },
                            None => None,
                        },
                        None => None,
                    },
                    None => None,
                },
                None => None,
            },
            None => None,
        },
        None => None,
    }
}

pub fn read_opt_tidb(b: &[u8], i: usize) -> (r: Option<(Option<Tidb>, usize)>)
    ensures
        r matches Some((o, j)) ==> dec_opt_tidb_at(b@, i as int) == Some((
            opt_tidb_view(o),
            j as int,
        )),
        r is None ==> dec_opt_tidb_at(b@, i as int) is None,
{
    match read_tag(b, i) {
        Some((t, j)) => {
            if t == 0 {
                Some((None, j))
            } else if t == 1 {
                match read_tidb(b, j) {
                    Some((x, k)) => Some((Some(x), k)),
                    None => None,
                }
            } else {
                None
            }
        },
        None => None,
    }
}

pub fn read_batch_entry(b: &[u8], i: usize) -> (r: Option<((String, Option<Tidb>), usize)>)
    ensures
        r matches Some((e, j)) ==> dec_batch_entry_at(b@, i as int) == Some((
            batch_entry_view(e),
            j as int,
        )),
        r is None ==> dec_batch_entry_at(b@, i as int) is None,
{
    match read_string(b, i) {
        Some((name, j)) => match read_opt_tidb(b, j) {
            Some((o, k)) => Some(((name, o), k)),
            None => None,
        },
        None => None,
    }
}

pub fn read_batch(b: &[u8], i: usize) -> (r: Option<(Vec<(String, Option<Tidb>)>, usize)>)
    ensures
        r matches Some((v, j)) ==> dec_batch_at(b@, i as int) == Some((
            batch_view(v@),
            j as int,
        )),
        r is None ==> dec_batch_at(b@, i as int) is None,
{
    match read_u32(b, i) {
        Some((n, j0)) => {
            let mut v: Vec<(String, Option<Tidb>)> = Vec::new();
            let mut j: usize = j0;
            let mut done: u32 = 0;
            proof {
                assert(batch_view(v@) =~= Seq::<(Seq<char>, Option<TidbView>)>::empty());
            }
            while done < n
                invariant
                    dec_u32_at(b@, i as int) == Some((n, j0 as int)),
                    done <= n,
                    dec_list_at(b@, j0 as int, done as nat, entry_dec()) == Some((
                        batch_view(v@),
                        j as int,
                    )),
                decreases n - done,
            {
                match read_batch_entry(b, j) {
                    Some((e, j2)) => {
                        proof {
                            lemma_dec_list_snoc(
                                b@,
                                j0 as int,
                                done as nat,
                                entry_dec(),
                                batch_view(v@),
                                j as int,
                                batch_entry_view(e),
                                j2 as int,
                            );
                            assert(batch_view(v@.push(e)) =~= batch_view(v@).push(
                                batch_entry_view(e),
                            ));
                        }
                        v.push(e);
                        j = j2;
                        done = done + 1;
                    },
                    None => {
                        proof {
                            lemma_dec_list_fail(
                                b@,
                                j0 as int,
                                done as nat,
                                n as nat,
                                entry_dec(),
                                batch_view(v@),
                                j as int,
                            );
                        }
                        return None;
                    },
                }
            }
            Some((v, j))
        },
        None => None,
    }
}

// ===================================================================
// Round-trip lemmas
// ===================================================================

#[verifier::rlimit(100)]
#[verifier::spinoff_prover]
pub proof fn lemma_rt_ti_rule(r: TiRuleView, pre: Seq<u8>, post: Seq<u8>)
    requires
        wf_ti_rule(r),
    ensures
        dec_ti_rule_at(pre + enc_ti_rule(r) + post, pre.len() as int) == Some((
            r,
            pre.len() as int + enc_ti_rule(r).len(),
        )),
{
    let b = pre + enc_ti_rule(r) + post;
    let e1 = enc_u32(r.rule_id);
    let e2 = enc_category(r.category);
    let e3 = enc_str(r.name);
    let e4 = enc_opt_str(r.description);
    let e5 = enc_opt_vec_str(r.references);
    let e6 = enc_opt_vec_str(r.samples);
    let e7 = enc_opt_vec_str(r.signatures);
    assert(b =~= pre + e1 + (e2 + (e3 + (e4 + (e5 + (e6 + (e7 + post)))))));
    lemma_rt_u32(r.rule_id, pre, e2 + (e3 + (e4 + (e5 + (e6 + (e7 + post))))));
    let p1 = pre + e1;
    assert(b =~= p1 + e2 + (e3 + (e4 + (e5 + (e6 + (e7 + post))))));
    lemma_rt_category(r.category, p1, e3 + (e4 + (e5 + (e6 + (e7 + post)))));
    let p2 = p1 + e2;
    assert(b =~= p2 + e3 + (e4 + (e5 + (e6 + (e7 + post)))));
    lemma_rt_str(r.name, p2, e4 + (e5 + (e6 + (e7 + post))));
    let p3 = p2 + e3;
    assert(b =~= p3 + e4 + (e5 + (e6 + (e7 + post))));
    lemma_rt_opt_str(r.description, p3, e5 + (e6 + (e7 + post)));
    let p4 = p3 + e4;
    assert(b =~= p4 + e5 + (e6 + (e7 + post)));
    lemma_rt_opt_vec_str(r.references, p4, e6 + (e7 + post));
    let p5 = p4 + e5;
    assert(b =~= p5 + e6 + (e7 + post));
    lemma_rt_opt_vec_str(r.samples, p5, e7 + post);
    let p6 = p5 + e6;
    assert(b =~= p6 + e7 + post);
    lemma_rt_opt_vec_str(r.signatures, p6, post);
}

pub proof fn lemma_rt_rule_all(v: Seq<TiRuleView>)
    requires
        wf_rule_seq(v),
    ensures
        forall|k: int, p: Seq<u8>, q: Seq<u8>|
            0 <= k < v.len() ==> #[trigger] rule_dec()(p + rule_enc()(v[k]) + q, p.len() as int)
                == Some((v[k], p.len() as int + rule_enc()(v[k]).len())),
{
    assert forall|k: int, p: Seq<u8>, q: Seq<u8>| 0 <= k < v.len() implies #[trigger] rule_dec()(
        p + rule_enc()(v[k]) + q,
        p.len() as int,
    ) == Some((v[k], p.len() as int + rule_enc()(v[k]).len())) by {
        lemma_rt_ti_rule(v[k], p, q);
    }
}

pub proof fn lemma_rt_vec_rule(v: Seq<TiRuleView>, pre: Seq<u8>, post: Seq<u8>)
    requires
        wf_rule_seq(v),
    ensures
        dec_vec_rule_at(pre + enc_vec_rule(v) + post, pre.len() as int) == Some((
            v,
            pre.len() as int + enc_vec_rule(v).len(),
        )),
{
    let n: u32 = v.len() as u32;
    let lst = enc_list(v, rule_enc());
    let b = pre + enc_vec_rule(v) + post;
    assert(b =~= pre + enc_u32(n) + (lst + post));
    lemma_rt_u32(n, pre, lst + post);
    let p1 = pre + enc_u32(n);
    assert(b =~= p1 + lst + post);
    lemma_rt_rule_all(v);
    lemma_rt_list(v, rule_enc(), rule_dec(), p1, post);
    assert(n as nat == v.len());
}

#[verifier::rlimit(100)]
#[verifier::spinoff_prover]
pub proof fn lemma_rt_tidb(t: TidbView, pre: Seq<u8>, post: Seq<u8>)
    requires
        wf_tidb(t),
    ensures
        dec_tidb_at(pre + enc_tidb(t) + post, pre.len() as int) == Some((
            t,
            pre.len() as int + enc_tidb(t).len(),
        )),
{
    let b = pre + enc_tidb(t) + post;
    let e1 = enc_u32(t.id);
    let e2 = enc_str(t.name);
    let e3 = enc_opt_str(t.description);
    let e4 = enc_kind(t.kind);
    let e5 = enc_category(t.category);
    let e6 = enc_str(t.version);
    let e7 = enc_vec_rule(t.patterns);
    assert(b =~= pre + e1 + (e2 + (e3 + (e4 + (e5 + (e6 + (e7 + post)))))));
    lemma_rt_u32(t.id, pre, e2 + (e3 + (e4 + (e5 + (e6 + (e7 + post))))));
    let p1 = pre + e1;
    assert(b =~= p1 + e2 + (e3 + (e4 + (e5 + (e6 + (e7 + post))))));
    lemma_rt_str(t.name, p1, e3 + (e4 + (e5 + (e6 + (e7 + post)))));
    let p2 = p1 + e2;
    assert(b =~= p2 + e3 + (e4 + (e5 + (e6 + (e7 + post)))));
    lemma_rt_opt_str(t.description, p2, e4 + (e5 + (e6 + (e7 + post))));
    let p3 = p2 + e3;
    assert(b =~= p3 + e4 + (e5 + (e6 + (e7 + post))));
    lemma_rt_kind(t.kind, p3, e5 + (e6 + (e7 + post)));
    let p4 = p3 + e4;
    assert(b =~= p4 + e5 + (e6 + (e7 + post)));
    lemma_rt_category(t.category, p4, e6 + (e7 + post));
    let p5 = p4 + e5;
    assert(b =~= p5 + e6 + (e7 + post));
    lemma_rt_str(t.version, p5, e7 + post);
    let p6 = p5 + e6;
    assert(b =~= p6 + e7 + post);
    lemma_rt_vec_rule(t.patterns, p6, post);
}

pub proof fn lemma_rt_opt_tidb(o: Option<TidbView>, pre: Seq<u8>, post: Seq<u8>)
    requires
        wf_opt_tidb(o),
    ensures
        dec_opt_tidb_at(pre + enc_opt_tidb(o) + post, pre.len() as int) == Some((
            o,
            pre.len() as int + enc_opt_tidb(o).len(),
        )),
{
    match o {
        None => {
            lemma_rt_opt_none(tidb_enc(), tidb_dec(), pre, post);
        },
        Some(t) => {
            lemma_rt_tidb(t, pre + enc_tag(1), post);
            lemma_rt_opt_some(t, tidb_enc(), tidb_dec(), pre, post);
        },
    }
}

pub proof fn lemma_rt_batch_entry(e: (Seq<char>, Option<TidbView>), pre: Seq<u8>, post: Seq<u8>)
    requires
        wf_batch_entry(e),
    ensures
        dec_batch_entry_at(pre + enc_batch_entry(e) + post, pre.len() as int) == Some((
            e,
            pre.len() as int + enc_batch_entry(e).len(),
        )),
{
    let b = pre + enc_batch_entry(e) + post;
    assert(b =~= pre + enc_str(e.0) + (enc_opt_tidb(e.1) + post));
    lemma_rt_str(e.0, pre, enc_opt_tidb(e.1) + post);
    let p1 = pre + enc_str(e.0);
    assert(b =~= p1 + enc_opt_tidb(e.1) + post);
    lemma_rt_opt_tidb(e.1, p1, post);
}

pub proof fn lemma_rt_entry_all(v: Seq<(Seq<char>, Option<TidbView>)>)
    requires
        wf_batch(v),
    ensures
        forall|k: int, p: Seq<u8>, q: Seq<u8>|
            0 <= k < v.len() ==> #[trigger] entry_dec()(p + entry_enc()(v[k]) + q, p.len() as int)
                == Some((v[k], p.len() as int + entry_enc()(v[k]).len())),
{
    assert forall|k: int, p: Seq<u8>, q: Seq<u8>| 0 <= k < v.len() implies #[trigger] entry_dec()(
        p + entry_enc()(v[k]) + q,
        p.len() as int,
    ) == Some((v[k], p.len() as int + entry_enc()(v[k]).len())) by {
        lemma_rt_batch_entry(v[k], p, q);
    }
}

pub proof fn lemma_rt_batch(v: Seq<(Seq<char>, Option<TidbView>)>, pre: Seq<u8>, post: Seq<u8>)
    requires
        wf_batch(v),
    ensures
        dec_batch_at(pre + enc_batch(v) + post, pre.len() as int) == Some((
            v,
            pre.len() as int + enc_batch(v).len(),
        )),
{
    let n: u32 = v.len() as u32;
    let lst = enc_list(v, entry_enc());
    let b = pre + enc_batch(v) + post;
    assert(b =~= pre + enc_u32(n) + (lst + post));
    lemma_rt_u32(n, pre, lst + post);
    let p1 = pre + enc_u32(n);
    assert(b =~= p1 + lst + post);
    lemma_rt_entry_all(v);
    lemma_rt_list(v, entry_enc(), entry_dec(), p1, post);
    assert(n as nat == v.len());
}

} // verus!
