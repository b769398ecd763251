//! Wire encodings of the operation values, apart from the
//! threat-intelligence records, which have their own module.
//!
//! For every value shape there are a spec encoder, a spec decoder, an
//! executable writer and reader proved against them, and a round-trip
//! lemma.

use vstd::prelude::*;

verus! {

use crate::codec::dec_list_at;
use crate::codec::dec_opt_at;
use crate::codec::dec_str_at;
use crate::codec::dec_tag_at;
use crate::codec::dec_u32_at;
use crate::codec::enc_list;
use crate::codec::enc_opt;
use crate::codec::enc_str;
use crate::codec::enc_tag;
use crate::codec::enc_u32;
use crate::codec::lemma_dec_list_fail;
use crate::codec::lemma_dec_list_snoc;
use crate::codec::lemma_enc_list_take_snoc;
use crate::codec::lemma_rt_list;
use crate::codec::lemma_rt_opt_none;
use crate::codec::lemma_rt_opt_some;
use crate::codec::lemma_rt_str;
use crate::codec::lemma_rt_tag;
use crate::codec::lemma_rt_u32;
use crate::codec::read_string;
use crate::codec::read_tag;
use crate::codec::read_u32;
use crate::codec::write_str;
use crate::codec::write_tag;
use crate::codec::write_u32;
use crate::types::opt_str_view;
use crate::types::pair_seq_view;
use crate::types::pair_view;
use crate::types::str_seq_view;
use crate::types::wf_data_source;
use crate::types::wf_data_source_key;
use crate::types::wf_host_network_group;
use crate::types::wf_opt_str;
use crate::types::wf_pair;
use crate::types::wf_pair_seq;
use crate::types::wf_str_seq;
use crate::types::DataSource;
use crate::types::DataSourceKey;
use crate::types::DataSourceKeyView;
use crate::types::DataSourceView;
use crate::types::EventCategory;
use crate::types::HostNetworkGroup;
use crate::types::HostNetworkGroupView;
use crate::types::TiKind;

// ===================================================================
// Strings in containers
// ===================================================================

/// The string encoder and decoder as shared function values.
pub open spec fn str_enc() -> spec_fn(Seq<char>) -> Seq<u8> {
    |s: Seq<char>| enc_str(s)
}

pub open spec fn str_dec() -> spec_fn(Seq<u8>, int) -> Option<(Seq<char>, int)> {
    |b: Seq<u8>, i: int| dec_str_at(b, i)
}

pub open spec fn enc_opt_str(o: Option<Seq<char>>) -> Seq<u8> {
    enc_opt(o, str_enc())
}

pub open spec fn dec_opt_str_at(b: Seq<u8>, i: int) -> Option<(Option<Seq<char>>, int)> {
    dec_opt_at(b, i, str_dec())
}

pub open spec fn enc_vec_str(v: Seq<Seq<char>>) -> Seq<u8> {
    enc_u32(v.len() as u32) + enc_list(v, str_enc())
}

pub open spec fn dec_vec_str_at(b: Seq<u8>, i: int) -> Option<(Seq<Seq<char>>, int)> {
    match dec_u32_at(b, i) {
        Some((n, j)) => dec_list_at(b, j, n as nat, str_dec()),
        None => None,
    }
}

pub open spec fn vec_str_enc() -> spec_fn(Seq<Seq<char>>) -> Seq<u8> {
    |v: Seq<Seq<char>>| enc_vec_str(v)
}

pub open spec fn vec_str_dec() -> spec_fn(Seq<u8>, int) -> Option<(Seq<Seq<char>>, int)> {
    |b: Seq<u8>, i: int| dec_vec_str_at(b, i)
}

pub open spec fn enc_opt_vec_str(o: Option<Seq<Seq<char>>>) -> Seq<u8> {
    enc_opt(o, vec_str_enc())
}

pub open spec fn dec_opt_vec_str_at(b: Seq<u8>, i: int) -> Option<(Option<Seq<Seq<char>>>, int)> {
    dec_opt_at(b, i, vec_str_dec())
}

/// A pair of strings, one after the other.
pub open spec fn enc_pair(p: (Seq<char>, Seq<char>)) -> Seq<u8> {
    enc_str(p.0) + enc_str(p.1)
}

pub open spec fn dec_pair_at(b: Seq<u8>, i: int) -> Option<((Seq<char>, Seq<char>), int)> {
    match dec_str_at(b, i) {
        Some((a, j)) => match dec_str_at(b, j) {
            Some((c, k)) => Some(((a, c), k)),
            None => None,
        },
        None => None,
    }
}

pub open spec fn pair_enc() -> spec_fn((Seq<char>, Seq<char>)) -> Seq<u8> {
    |p: (Seq<char>, Seq<char>)| enc_pair(p)
}

pub open spec fn pair_dec() -> spec_fn(Seq<u8>, int) -> Option<((Seq<char>, Seq<char>), int)> {
    |b: Seq<u8>, i: int| dec_pair_at(b, i)
}

pub open spec fn enc_vec_pair(v: Seq<(Seq<char>, Seq<char>)>) -> Seq<u8> {
    enc_u32(v.len() as u32) + enc_list(v, pair_enc())
}

pub open spec fn dec_vec_pair_at(b: Seq<u8>, i: int) -> Option<(Seq<(Seq<char>, Seq<char>)>, int)> {
    match dec_u32_at(b, i) {
        Some((n, j)) => dec_list_at(b, j, n as nat, pair_dec()),
        None => None,
    }
}

// ===================================================================
// Enumerated values
// ===================================================================

pub open spec fn category_tag(c: EventCategory) -> u8 {
    match c {
        EventCategory::Unknown => 0,
        EventCategory::Reconnaissance => 1,
        EventCategory::Execution => 2,
    }
}

pub open spec fn enc_category(c: EventCategory) -> Seq<u8> {
    enc_tag(category_tag(c))
}

pub open spec fn dec_category_at(b: Seq<u8>, i: int) -> Option<(EventCategory, int)> {
    match dec_tag_at(b, i) {
        Some((t, j)) => if t == 0 {
            Some((EventCategory::Unknown, j))
        } else if t == 1 {
            Some((EventCategory::Reconnaissance, j))
        } else if t == 2 {
            Some((EventCategory::Execution, j))
        } else {
            None
        },
        None => None,
    }
}

pub open spec fn kind_tag(k: TiKind) -> u8 {
    match k {
        TiKind::Ip => 0,
        TiKind::Url => 1,
        TiKind::Token => 2,
        TiKind::Regex => 3,
    }
}

pub open spec fn enc_kind(k: TiKind) -> Seq<u8> {
    enc_tag(kind_tag(k))
}

pub open spec fn dec_kind_at(b: Seq<u8>, i: int) -> Option<(TiKind, int)> {
    match dec_tag_at(b, i) {
        Some((t, j)) => if t == 0 {
            Some((TiKind::Ip, j))
        } else if t == 1 {
            Some((TiKind::Url, j))
        } else if t == 2 {
            Some((TiKind::Token, j))
        } else if t == 3 {
            Some((TiKind::Regex, j))
        } else {
            None
        },
        None => None,
    }
}

// ===================================================================
// Records
// ===================================================================

pub open spec fn enc_data_source(d: DataSourceView) -> Seq<u8> {
    enc_u32(d.id) + enc_str(d.name) + enc_opt_str(d.description)
}

pub open spec fn dec_data_source_at(b: Seq<u8>, i: int) -> Option<(DataSourceView, int)> {
    match dec_u32_at(b, i) {
        Some((id, j1)) => match dec_str_at(b, j1) {
            Some((name, j2)) => match dec_opt_str_at(b, j2) {
                Some((description, j3)) => Some(
                    (DataSourceView { id, name, description }, j3),
                ),
                None => None,
            },
            None => None,
        },
        None => None,
    }
}

pub open spec fn ds_enc() -> spec_fn(DataSourceView) -> Seq<u8> {
    |d: DataSourceView| enc_data_source(d)
}

pub open spec fn ds_dec() -> spec_fn(Seq<u8>, int) -> Option<(DataSourceView, int)> {
    |b: Seq<u8>, i: int| dec_data_source_at(b, i)
}

pub open spec fn enc_opt_data_source(o: Option<DataSourceView>) -> Seq<u8> {
    enc_opt(o, ds_enc())
}

pub open spec fn dec_opt_data_source_at(b: Seq<u8>, i: int) -> Option<
    (Option<DataSourceView>, int),
> {
    dec_opt_at(b, i, ds_dec())
}

pub open spec fn enc_data_source_key(k: DataSourceKeyView) -> Seq<u8> {
    match k {
        DataSourceKeyView::Id(n) => enc_tag(0) + enc_u32(n),
        DataSourceKeyView::Name(s) => enc_tag(1) + enc_str(s),
    }
}

pub open spec fn dec_data_source_key_at(b: Seq<u8>, i: int) -> Option<(DataSourceKeyView, int)> {
    match dec_tag_at(b, i) {
        Some((t, j)) => if t == 0 {
            match dec_u32_at(b, j) {
                Some((n, k)) => Some((DataSourceKeyView::Id(n), k)),
                None => None,
            }
        } else if t == 1 {
            match dec_str_at(b, j) {
                Some((s, k)) => Some((DataSourceKeyView::Name(s), k)),
                None => None,
            }
        } else {
            None
        },
        None => None,
    }
}

pub open spec fn enc_host_network_group(g: HostNetworkGroupView) -> Seq<u8> {
    enc_vec_str(g.hosts) + enc_vec_str(g.networks) + enc_vec_pair(g.ip_ranges)
}

pub open spec fn dec_host_network_group_at(b: Seq<u8>, i: int) -> Option<
    (HostNetworkGroupView, int),
> {
    match dec_vec_str_at(b, i) {
        Some((hosts, j1)) => match dec_vec_str_at(b, j1) {
            Some((networks, j2)) => match dec_vec_pair_at(b, j2) {
                Some((ip_ranges, j3)) => Some(
                    (HostNetworkGroupView { hosts, networks, ip_ranges }, j3),
                ),
                None => None,
            },
            None => None,
        },
        None => None,
    }
}

// ===================================================================
// Executable writers
// ===================================================================

pub fn write_opt_str(buf: &mut Vec<u8>, o: &Option<String>)
    requires
        wf_opt_str(opt_str_view(*o)),
    ensures
        final(buf)@ == old(buf)@ + enc_opt_str(opt_str_view(*o)),
{
    match o {
        None => {
            write_tag(buf, 0);
            proof {
                assert(old(buf)@ + enc_tag(0) =~= old(buf)@ + enc_opt_str(opt_str_view(*o)));
            }
        },
        Some(s) => {
            write_tag(buf, 1);
            write_str(buf, s.as_str());
            proof {
                assert(old(buf)@ + enc_tag(1) + enc_str(s@) =~= old(buf)@ + enc_opt_str(
                    opt_str_view(*o),
                ));
            }
        },
    }
}

pub fn write_vec_str(buf: &mut Vec<u8>, v: &Vec<String>)
    requires
        wf_str_seq(str_seq_view(v@)),
    ensures
        final(buf)@ == old(buf)@ + enc_vec_str(str_seq_view(v@)),
{
    let ghost sv = str_seq_view(v@);
    let n: usize = v.len();
    write_u32(buf, n as u32);
    let mut k: usize = 0;
    while k < n
        invariant
            n == v@.len(),
            sv == str_seq_view(v@),
            sv.len() == n,
            wf_str_seq(sv),
            k <= n,
            buf@ == old(buf)@ + enc_u32(n as u32) + enc_list(sv.take(k as int), str_enc()),
        decreases n - k,
    {
        proof {
            assert(sv[k as int] == v@[k as int]@);
        }
        write_str(buf, v[k].as_str());
        proof {
            lemma_enc_list_take_snoc(sv, str_enc(), k as int);
            assert(old(buf)@ + enc_u32(n as u32) + enc_list(sv.take(k as int), str_enc())
                + enc_str(sv[k as int]) =~= old(buf)@ + enc_u32(n as u32) + enc_list(
                sv.take(k as int + 1),
                str_enc(),
            ));
        }
        k = k + 1;
    }
    proof {
        assert(sv.take(n as int) =~= sv);
        assert(buf@ =~= old(buf)@ + enc_vec_str(sv));
    }
}

pub fn write_opt_vec_str(buf: &mut Vec<u8>, o: &Option<Vec<String>>)
    requires
        crate::types::wf_opt_str_seq(crate::types::opt_str_seq_view(*o)),
    ensures
        final(buf)@ == old(buf)@ + enc_opt_vec_str(crate::types::opt_str_seq_view(*o)),
{
    match o {
        None => {
            write_tag(buf, 0);
            proof {
                assert(old(buf)@ + enc_tag(0) =~= old(buf)@ + enc_opt_vec_str(
                    crate::types::opt_str_seq_view(*o),
                ));
            }
        },
        Some(v) => {
            write_tag(buf, 1);
            write_vec_str(buf, v);
            proof {
                assert(old(buf)@ + enc_tag(1) + enc_vec_str(str_seq_view(v@)) =~= old(buf)@
                    + enc_opt_vec_str(crate::types::opt_str_seq_view(*o)));
            }
        },
    }
}

pub fn write_pair(buf: &mut Vec<u8>, p: &(String, String))
    requires
        wf_pair(pair_view(*p)),
    ensures
        final(buf)@ == old(buf)@ + enc_pair(pair_view(*p)),
{
    write_str(buf, p.0.as_str());
    write_str(buf, p.1.as_str());
    proof {
        assert(old(buf)@ + enc_str(p.0@) + enc_str(p.1@) =~= old(buf)@ + enc_pair(pair_view(*p)));
    }
}

pub fn write_vec_pair(buf: &mut Vec<u8>, v: &Vec<(String, String)>)
    requires
        wf_pair_seq(pair_seq_view(v@)),
    ensures
        final(buf)@ == old(buf)@ + enc_vec_pair(pair_seq_view(v@)),
{
    let ghost sv = pair_seq_view(v@);
    let n: usize = v.len();
    write_u32(buf, n as u32);
    let mut k: usize = 0;
    while k < n
        invariant
            n == v@.len(),
            sv == pair_seq_view(v@),
            sv.len() == n,
            wf_pair_seq(sv),
            k <= n,
            buf@ == old(buf)@ + enc_u32(n as u32) + enc_list(sv.take(k as int), pair_enc()),
        decreases n - k,
    {
        proof {
            assert(sv[k as int] == pair_view(v@[k as int]));
        }
        write_pair(buf, &v[k]);
        proof {
            lemma_enc_list_take_snoc(sv, pair_enc(), k as int);
            assert(old(buf)@ + enc_u32(n as u32) + enc_list(sv.take(k as int), pair_enc())
                + enc_pair(sv[k as int]) =~= old(buf)@ + enc_u32(n as u32) + enc_list(
                sv.take(k as int + 1),
                pair_enc(),
            ));
        }
        k = k + 1;
    }
    proof {
        assert(sv.take(n as int) =~= sv);
        assert(buf@ =~= old(buf)@ + enc_vec_pair(sv));
    }
}

pub fn write_category(buf: &mut Vec<u8>, c: &EventCategory)
    ensures
        final(buf)@ == old(buf)@ + enc_category(*c),
{
    match c {
        EventCategory::Unknown => write_tag(buf, 0),
        EventCategory::Reconnaissance => write_tag(buf, 1),
        EventCategory::Execution => write_tag(buf, 2),
    }
}

pub fn write_kind(buf: &mut Vec<u8>, k: &TiKind)
    ensures
        final(buf)@ == old(buf)@ + enc_kind(*k),
{
    match k {
        TiKind::Ip => write_tag(buf, 0),
        TiKind::Url => write_tag(buf, 1),
        TiKind::Token => write_tag(buf, 2),
        TiKind::Regex => write_tag(buf, 3),
    }
}

pub fn write_data_source(buf: &mut Vec<u8>, d: &DataSource)
    requires
        wf_data_source(d@),
    ensures
        final(buf)@ == old(buf)@ + enc_data_source(d@),
{
    write_u32(buf, d.id);
    write_str(buf, d.name.as_str());
    write_opt_str(buf, &d.description);
    proof {
        assert(old(buf)@ + enc_u32(d.id) + enc_str(d.name@) + enc_opt_str(
            opt_str_view(d.description),
        ) =~= old(buf)@ + enc_data_source(d@));
    }
}

pub fn write_opt_data_source(buf: &mut Vec<u8>, o: &Option<DataSource>)
    requires
        crate::types::wf_opt_data_source(crate::types::opt_data_source_view(*o)),
    ensures
        final(buf)@ == old(buf)@ + enc_opt_data_source(crate::types::opt_data_source_view(*o)),
{
    match o {
        None => {
            write_tag(buf, 0);
            proof {
                assert(old(buf)@ + enc_tag(0) =~= old(buf)@ + enc_opt_data_source(
                    crate::types::opt_data_source_view(*o),
                ));
            }
        },
        Some(d) => {
            write_tag(buf, 1);
            write_data_source(buf, d);
            proof {
                assert(old(buf)@ + enc_tag(1) + enc_data_source(d@) =~= old(buf)@
                    + enc_opt_data_source(crate::types::opt_data_source_view(*o)));
            }
        },
    }
}

pub fn write_data_source_key(buf: &mut Vec<u8>, k: &DataSourceKey)
    requires
        wf_data_source_key(k@),
    ensures
        final(buf)@ == old(buf)@ + enc_data_source_key(k@),
{
    match k {
        DataSourceKey::Id(n) => {
            write_tag(buf, 0);
            write_u32(buf, *n);
            proof {
                assert(old(buf)@ + enc_tag(0) + enc_u32(*n) =~= old(buf)@ + enc_data_source_key(
                    k@,
                ));
            }
        },
        DataSourceKey::Name(s) => {
            write_tag(buf, 1);
            write_str(buf, s.as_str());
            proof {
                assert(old(buf)@ + enc_tag(1) + enc_str(s@) =~= old(buf)@ + enc_data_source_key(
                    k@,
                ));
            }
        },
    }
}

pub fn write_host_network_group(buf: &mut Vec<u8>, g: &HostNetworkGroup)
    requires
        wf_host_network_group(g@),
    ensures
        final(buf)@ == old(buf)@ + enc_host_network_group(g@),
{
    write_vec_str(buf, &g.hosts);
    write_vec_str(buf, &g.networks);
    write_vec_pair(buf, &g.ip_ranges);
    proof {
        assert(old(buf)@ + enc_vec_str(str_seq_view(g.hosts@)) + enc_vec_str(
            str_seq_view(g.networks@),
        ) + enc_vec_pair(pair_seq_view(g.ip_ranges@)) =~= old(buf)@ + enc_host_network_group(g@));
    }
}

// ===================================================================
// Executable readers
// ===================================================================

pub fn read_opt_string(b: &[u8], i: usize) -> (r: Option<(Option<String>, usize)>)
    ensures
        r matches Some((o, j)) ==> dec_opt_str_at(b@, i as int) == Some((
            opt_str_view(o),
            j as int,
        )),
        r is None ==> dec_opt_str_at(b@, i as int) is None,
{
    match read_tag(b, i) {
        Some((t, j)) => {
            if t == 0 {
                Some((None, j))
            } else if t == 1 {
                match read_string(b, j) {
                    Some((s, k)) => Some((Some(s), k)),
                    None => None,
                }
            } else {
                None
            }
        },
        None => None,
    }
}

pub fn read_vec_string(b: &[u8], i: usize) -> (r: Option<(Vec<String>, usize)>)
    ensures
        r matches Some((v, j)) ==> dec_vec_str_at(b@, i as int) == Some((
            str_seq_view(v@),
            j as int,
        )),
        r is None ==> dec_vec_str_at(b@, i as int) is None,
{
    match read_u32(b, i) {
        Some((n, j0)) => {
            let mut v: Vec<String> = Vec::new();
            let mut j: usize = j0;
            let mut done: u32 = 0;
            proof {
                assert(str_seq_view(v@) =~= Seq::<Seq<char>>::empty());
            }
            while done < n
                invariant
                    dec_u32_at(b@, i as int) == Some((n, j0 as int)),
                    done <= n,
                    dec_list_at(b@, j0 as int, done as nat, str_dec()) == Some((
                        str_seq_view(v@),
                        j as int,
                    )),
                decreases n - done,
            {
                match read_string(b, j) {
                    Some((s, j2)) => {
                        proof {
                            lemma_dec_list_snoc(
                                b@,
                                j0 as int,
                                done as nat,
                                str_dec(),
                                str_seq_view(v@),
                                j as int,
                                s@,
                                j2 as int,
                            );
                            assert(str_seq_view(v@.push(s)) =~= str_seq_view(v@).push(s@));
                        }
                        v.push(s);
                        j = j2;
                        done = done + 1;
                    },
                    None => {
                        proof {
                            lemma_dec_list_fail(
                                b@,
                                j0 as int,
                                done as nat,
                                n as nat,
                                str_dec(),
                                str_seq_view(v@),
                                j as int,
                            );
                        }
                        return None;
                    },
                }
            }
            Some((v, j))
        },
        None => None,
    }
}

pub fn read_opt_vec_string(b: &[u8], i: usize) -> (r: Option<(Option<Vec<String>>, usize)>)
    ensures
        r matches Some((o, j)) ==> dec_opt_vec_str_at(b@, i as int) == Some((
            crate::types::opt_str_seq_view(o),
            j as int,
        )),
        r is None ==> dec_opt_vec_str_at(b@, i as int) is None,
{
    match read_tag(b, i) {
        Some((t, j)) => {
            if t == 0 {
                Some((None, j))
            } else if t == 1 {
                match read_vec_string(b, j) {
                    Some((v, k)) => Some((Some(v), k)),
                    None => None,
                }
            } else {
                None
            }
        },
        None => None,
    }
}

pub fn read_pair(b: &[u8], i: usize) -> (r: Option<((String, String), usize)>)
    ensures
        r matches Some((p, j)) ==> dec_pair_at(b@, i as int) == Some((pair_view(p), j as int))
            && wf_pair(pair_view(p)),
        r is None ==> dec_pair_at(b@, i as int) is None,
{
    match read_string(b, i) {
        Some((a, j)) => match read_string(b, j) {
            Some((c, k)) => Some(((a, c), k)),
            None => None,
        },
        None => None,
    }
}

pub fn read_vec_pair(b: &[u8], i: usize) -> (r: Option<(Vec<(String, String)>, usize)>)
    ensures
        r matches Some((v, j)) ==> dec_vec_pair_at(b@, i as int) == Some((
            pair_seq_view(v@),
            j as int,
        )) && wf_pair_seq(pair_seq_view(v@)),
        r is None ==> dec_vec_pair_at(b@, i as int) is None,
{
    match read_u32(b, i) {
        Some((n, j0)) => {
            let mut v: Vec<(String, String)> = Vec::new();
            let mut j: usize = j0;
            let mut done: u32 = 0;
            proof {
                assert(pair_seq_view(v@) =~= Seq::<(Seq<char>, Seq<char>)>::empty());
            }
            while done < n
                invariant
                    dec_u32_at(b@, i as int) == Some((n, j0 as int)),
                    done <= n,
                    v@.len() == done,
                    wf_pair_seq(pair_seq_view(v@)),
                    dec_list_at(b@, j0 as int, done as nat, pair_dec()) == Some((
                        pair_seq_view(v@),
                        j as int,
                    )),
                decreases n - done,
            {
                match read_pair(b, j) {
                    Some((p, j2)) => {
                        proof {
                            lemma_dec_list_snoc(
                                b@,
                                j0 as int,
                                done as nat,
                                pair_dec(),
                                pair_seq_view(v@),
                                j as int,
                                pair_view(p),
                                j2 as int,
                            );
                            assert(pair_seq_view(v@.push(p)) =~= pair_seq_view(v@).push(
                                pair_view(p),
                            ));
                        }
                        v.push(p);
                        j = j2;
                        done = done + 1;
                    },
                    None => {
                        proof {
                            lemma_dec_list_fail(
                                b@,
                                j0 as int,
                                done as nat,
                                n as nat,
                                pair_dec(),
                                pair_seq_view(v@),
                                j as int,
                            );
                        }
                        return None;
                    },
                }
            }
            Some((v, j))
        },
        None => None,
    }
}

pub fn read_category(b: &[u8], i: usize) -> (r: Option<(EventCategory, usize)>)
    ensures
        r matches Some((c, j)) ==> dec_category_at(b@, i as int) == Some((c, j as int)),
        r is None ==> dec_category_at(b@, i as int) is None,
{
    match read_tag(b, i) {
        Some((t, j)) => {
            if t == 0 {
                Some((EventCategory::Unknown, j))
            } else if t == 1 {
                Some((EventCategory::Reconnaissance, j))
            } else if t == 2 {
                Some((EventCategory::Execution, j))
            } else {
                None
            }
        },
        None => None,
    }
}

pub fn read_kind(b: &[u8], i: usize) -> (r: Option<(TiKind, usize)>)
    ensures
        r matches Some((k, j)) ==> dec_kind_at(b@, i as int) == Some((k, j as int)),
        r is None ==> dec_kind_at(b@, i as int) is None,
{
    match read_tag(b, i) {
        Some((t, j)) => {
            if t == 0 {
                Some((TiKind::Ip, j))
            } else if t == 1 {
                Some((TiKind::Url, j))
            } else if t == 2 {
                Some((TiKind::Token, j))
            } else if t == 3 {
                Some((TiKind::Regex, j))
            } else {
                None
            }
        },
        None => None,
    }
}

pub fn read_data_source(b: &[u8], i: usize) -> (r: Option<(DataSource, usize)>)
    ensures
        r matches Some((d, j)) ==> dec_data_source_at(b@, i as int) == Some((d@, j as int)),
        r is None ==> dec_data_source_at(b@, i as int) is None,
{
    match read_u32(b, i) {
        Some((id, j1)) => match read_string(b, j1) {
            Some((name, j2)) => match read_opt_string(b, j2) {
                Some((description, j3)) => Some((DataSource { id, name, description }, j3)),
                None => None,
            },
            None => None,
        },
        None => None,
    }
}

pub fn read_opt_data_source(b: &[u8], i: usize) -> (r: Option<(Option<DataSource>, usize)>)
    ensures
        r matches Some((o, j)) ==> dec_opt_data_source_at(b@, i as int) == Some((
            crate::types::opt_data_source_view(o),
            j as int,
        )),
        r is None ==> dec_opt_data_source_at(b@, i as int) is None,
{
    match read_tag(b, i) {
        Some((t, j)) => {
            if t == 0 {
                Some((None, j))
            } else if t == 1 {
                match read_data_source(b, j) {
                    Some((d, k)) => Some((Some(d), k)),
                    None => None,
                }
            } else {
                None
            }
        },
        None => None,
    }
}

pub fn read_data_source_key(b: &[u8], i: usize) -> (r: Option<(DataSourceKey, usize)>)
    ensures
        r matches Some((k, j)) ==> dec_data_source_key_at(b@, i as int) == Some((k@, j as int)),
        r is None ==> dec_data_source_key_at(b@, i as int) is None,
{
    match read_tag(b, i) {
        Some((t, j)) => {
            if t == 0 {
                match read_u32(b, j) {
                    Some((n, k)) => Some((DataSourceKey::Id(n), k)),
                    None => None,
                }
            } else if t == 1 {
                match read_string(b, j) {
                    Some((s, k)) => Some((DataSourceKey::Name(s), k)),
                    None => None,
                }
            } else {
                None
            }
        },
        None => None,
    }
}

pub fn read_host_network_group(b: &[u8], i: usize) -> (r: Option<(HostNetworkGroup, usize)>)
    ensures
        r matches Some((g, j)) ==> dec_host_network_group_at(b@, i as int) == Some((
            g@,
            j as int,
        )),
        r is None ==> dec_host_network_group_at(b@, i as int) is None,
{
    match read_vec_string(b, i) {
        Some((hosts, j1)) => match read_vec_string(b, j1) {
            Some((networks, j2)) => match read_vec_pair(b, j2) {
                Some((ip_ranges, j3)) => Some(
                    (HostNetworkGroup { hosts, networks, ip_ranges }, j3),
                ),
                None => None,
            },
            None => None,
        },
        None => None,
    }
}

// ===================================================================
// Round-trip lemmas
// ===================================================================

/// Every well-formed string round-trips at any position; stated in the
/// shape the generic list lemma asks for.
pub proof fn lemma_rt_str_all(v: Seq<Seq<char>>)
    requires
        wf_str_seq(v),
    ensures
        forall|k: int, p: Seq<u8>, q: Seq<u8>|
            0 <= k < v.len() ==> #[trigger] str_dec()(p + str_enc()(v[k]) + q, p.len() as int)
                == Some((v[k], p.len() as int + str_enc()(v[k]).len())),
{
    assert forall|k: int, p: Seq<u8>, q: Seq<u8>| 0 <= k < v.len() implies #[trigger] str_dec()(
        p + str_enc()(v[k]) + q,
        p.len() as int,
    ) == Some((v[k], p.len() as int + str_enc()(v[k]).len())) by {
        lemma_rt_str(v[k], p, q);
    }
}

pub proof fn lemma_rt_opt_str(o: Option<Seq<char>>, pre: Seq<u8>, post: Seq<u8>)
    requires
        wf_opt_str(o),
    ensures
        dec_opt_str_at(pre + enc_opt_str(o) + post, pre.len() as int) == Some((
            o,
            pre.len() as int + enc_opt_str(o).len(),
        )),
{
    match o {
        None => {
            lemma_rt_opt_none(str_enc(), str_dec(), pre, post);
        },
        Some(s) => {
            lemma_rt_str(s, pre + enc_tag(1), post);
            lemma_rt_opt_some(s, str_enc(), str_dec(), pre, post);
        },
    }
}

pub proof fn lemma_rt_vec_str(v: Seq<Seq<char>>, pre: Seq<u8>, post: Seq<u8>)
    requires
        wf_str_seq(v),
    ensures
        dec_vec_str_at(pre + enc_vec_str(v) + post, pre.len() as int) == Some((
            v,
            pre.len() as int + enc_vec_str(v).len(),
        )),
{
    let n: u32 = v.len() as u32;
    let lst = enc_list(v, str_enc());
    let b = pre + enc_vec_str(v) + post;
    assert(b =~= pre + enc_u32(n) + (lst + post));
    lemma_rt_u32(n, pre, lst + post);
    let p1 = pre + enc_u32(n);
    assert(b =~= p1 + lst + post);
    lemma_rt_str_all(v);
    lemma_rt_list(v, str_enc(), str_dec(), p1, post);
    assert(n as nat == v.len());
}

pub proof fn lemma_rt_opt_vec_str(o: Option<Seq<Seq<char>>>, pre: Seq<u8>, post: Seq<u8>)
    requires
        crate::types::wf_opt_str_seq(o),
    ensures
        dec_opt_vec_str_at(pre + enc_opt_vec_str(o) + post, pre.len() as int) == Some((
            o,
            pre.len() as int + enc_opt_vec_str(o).len(),
        )),
{
    match o {
        None => {
            lemma_rt_opt_none(vec_str_enc(), vec_str_dec(), pre, post);
        },
        Some(v) => {
            lemma_rt_vec_str(v, pre + enc_tag(1), post);
            lemma_rt_opt_some(v, vec_str_enc(), vec_str_dec(), pre, post);
        },
    }
}

pub proof fn lemma_rt_pair(p: (Seq<char>, Seq<char>), pre: Seq<u8>, post: Seq<u8>)
    requires
        wf_pair(p),
    ensures
        dec_pair_at(pre + enc_pair(p) + post, pre.len() as int) == Some((
            p,
            pre.len() as int + enc_pair(p).len(),
        )),
{
    let b = pre + enc_pair(p) + post;
    assert(b =~= pre + enc_str(p.0) + (enc_str(p.1) + post));
    lemma_rt_str(p.0, pre, enc_str(p.1) + post);
    let p1 = pre + enc_str(p.0);
    assert(b =~= p1 + enc_str(p.1) + post);
    lemma_rt_str(p.1, p1, post);
}

pub proof fn lemma_rt_pair_all(v: Seq<(Seq<char>, Seq<char>)>)
    requires
        wf_pair_seq(v),
    ensures
        forall|k: int, p: Seq<u8>, q: Seq<u8>|
            0 <= k < v.len() ==> #[trigger] pair_dec()(p + pair_enc()(v[k]) + q, p.len() as int)
                == Some((v[k], p.len() as int + pair_enc()(v[k]).len())),
{
    assert forall|k: int, p: Seq<u8>, q: Seq<u8>| 0 <= k < v.len() implies #[trigger] pair_dec()(
        p + pair_enc()(v[k]) + q,
        p.len() as int,
    ) == Some((v[k], p.len() as int + pair_enc()(v[k]).len())) by {
        lemma_rt_pair(v[k], p, q);
    }
}

pub proof fn lemma_rt_vec_pair(v: Seq<(Seq<char>, Seq<char>)>, pre: Seq<u8>, post: Seq<u8>)
    requires
        wf_pair_seq(v),
    ensures
        dec_vec_pair_at(pre + enc_vec_pair(v) + post, pre.len() as int) == Some((
            v,
            pre.len() as int + enc_vec_pair(v).len(),
        )),
{
    let n: u32 = v.len() as u32;
    let lst = enc_list(v, pair_enc());
    let b = pre + enc_vec_pair(v) + post;
    assert(b =~= pre + enc_u32(n) + (lst + post));
    lemma_rt_u32(n, pre, lst + post);
    let p1 = pre + enc_u32(n);
    assert(b =~= p1 + lst + post);
    lemma_rt_pair_all(v);
    lemma_rt_list(v, pair_enc(), pair_dec(), p1, post);
    assert(n as nat == v.len());
}

pub proof fn lemma_rt_category(c: EventCategory, pre: Seq<u8>, post: Seq<u8>)
    ensures
        dec_category_at(pre + enc_category(c) + post, pre.len() as int) == Some((
            c,
            pre.len() as int + 1,
        )),
{
    lemma_rt_tag(category_tag(c), pre, post);
}

pub proof fn lemma_rt_kind(k: TiKind, pre: Seq<u8>, post: Seq<u8>)
    ensures
        dec_kind_at(pre + enc_kind(k) + post, pre.len() as int) == Some((
            k,
            pre.len() as int + 1,
        )),
{
    lemma_rt_tag(kind_tag(k), pre, post);
}

pub proof fn lemma_rt_data_source(d: DataSourceView, pre: Seq<u8>, post: Seq<u8>)
    requires
        wf_data_source(d),
    ensures
        dec_data_source_at(pre + enc_data_source(d) + post, pre.len() as int) == Some((
            d,
            pre.len() as int + enc_data_source(d).len(),
        )),
{
    let b = pre + enc_data_source(d) + post;
    let e1 = enc_u32(d.id);
    let e2 = enc_str(d.name);
    let e3 = enc_opt_str(d.description);
    assert(b =~= pre + e1 + (e2 + (e3 + post)));
    lemma_rt_u32(d.id, pre, e2 + (e3 + post));
    let p1 = pre + e1;
    assert(b =~= p1 + e2 + (e3 + post));
    lemma_rt_str(d.name, p1, e3 + post);
    let p2 = p1 + e2;
    assert(b =~= p2 + e3 + post);
    lemma_rt_opt_str(d.description, p2, post);
}

/// Every well-formed data source round-trips at any position.
pub proof fn lemma_rt_data_source_all()
    ensures
        forall|d: DataSourceView, p: Seq<u8>, q: Seq<u8>|
            wf_data_source(d) ==> #[trigger] ds_dec()(p + ds_enc()(d) + q, p.len() as int)
                == Some((d, p.len() as int + ds_enc()(d).len())),
{
    assert forall|d: DataSourceView, p: Seq<u8>, q: Seq<u8>| wf_data_source(
        d,
    ) implies #[trigger] ds_dec()(p + ds_enc()(d) + q, p.len() as int) == Some((
        d,
        p.len() as int + ds_enc()(d).len(),
    )) by {
        lemma_rt_data_source(d, p, q);
    }
}

pub proof fn lemma_rt_opt_data_source(o: Option<DataSourceView>, pre: Seq<u8>, post: Seq<u8>)
    requires
        crate::types::wf_opt_data_source(o),
    ensures
        dec_opt_data_source_at(pre + enc_opt_data_source(o) + post, pre.len() as int) == Some((
            o,
            pre.len() as int + enc_opt_data_source(o).len(),
        )),
{
    match o {
        None => {
            lemma_rt_opt_none(ds_enc(), ds_dec(), pre, post);
        },
        Some(d) => {
            lemma_rt_data_source(d, pre + enc_tag(1), post);
            lemma_rt_opt_some(d, ds_enc(), ds_dec(), pre, post);
        },
    }
}

pub proof fn lemma_rt_data_source_key(k: DataSourceKeyView, pre: Seq<u8>, post: Seq<u8>)
    requires
        wf_data_source_key(k),
    ensures
        dec_data_source_key_at(pre + enc_data_source_key(k) + post, pre.len() as int) == Some((
            k,
            pre.len() as int + enc_data_source_key(k).len(),
        )),
{
    let b = pre + enc_data_source_key(k) + post;
    match k {
        DataSourceKeyView::Id(n) => {
            assert(b =~= pre + enc_tag(0) + (enc_u32(n) + post));
            lemma_rt_tag(0, pre, enc_u32(n) + post);
            let p1 = pre + enc_tag(0);
            assert(b =~= p1 + enc_u32(n) + post);
            lemma_rt_u32(n, p1, post);
        },
        DataSourceKeyView::Name(s) => {
            assert(b =~= pre + enc_tag(1) + (enc_str(s) + post));
            lemma_rt_tag(1, pre, enc_str(s) + post);
            let p1 = pre + enc_tag(1);
            assert(b =~= p1 + enc_str(s) + post);
            lemma_rt_str(s, p1, post);
        },
    }
}

pub proof fn lemma_rt_host_network_group(g: HostNetworkGroupView, pre: Seq<u8>, post: Seq<u8>)
    requires
        wf_host_network_group(g),
    ensures
        dec_host_network_group_at(pre + enc_host_network_group(g) + post, pre.len() as int)
            == Some((g, pre.len() as int + enc_host_network_group(g).len())),
{
    let b = pre + enc_host_network_group(g) + post;
    let e1 = enc_vec_str(g.hosts);
    let e2 = enc_vec_str(g.networks);
    let e3 = enc_vec_pair(g.ip_ranges);
    assert(b =~= pre + e1 + (e2 + (e3 + post)));
    lemma_rt_vec_str(g.hosts, pre, e2 + (e3 + post));
    let p1 = pre + e1;
    assert(b =~= p1 + e2 + (e3 + post));
    lemma_rt_vec_str(g.networks, p1, e3 + post);
    let p2 = p1 + e2;
    assert(b =~= p2 + e3 + post);
    lemma_rt_vec_pair(g.ip_ranges, p2, post);
}

} // verus!
