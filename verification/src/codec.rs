//! The wire value codec.
//!
//! Every value that crosses the wire is reduced to a byte sequence by the
//! spec-level encoders in this module, and read back by the matching
//! spec-level decoders.  The executable writers and readers are proved to
//! produce, respectively to compute, exactly those functions, and the
//! round-trip lemmas show that decoding an encoding yields the original
//! value wherever it stands inside a larger byte sequence.
//!
//! The format is deterministic and self-describing at the level the
//! protocol needs: fixed-width little-endian integers, single tag bytes
//! for options and enumerations, counted lists, and characters carried as
//! their Unicode scalar values.

use vstd::prelude::*;

verus! {

use vstd::bytes::lemma_auto_spec_u32_to_from_le_bytes;
use vstd::bytes::spec_u32_from_le_bytes;
use vstd::bytes::spec_u32_to_le_bytes;
use vstd::bytes::u32_from_le_bytes;
use vstd::bytes::u32_to_le_bytes;
use vstd::slice::slice_index_get;
use vstd::slice::slice_subrange;
use vstd::string::StrSliceExecFns;

// ===================================================================
// Spec-level encoders
// ===================================================================

/// A 32-bit unsigned integer: four bytes, little endian.
pub open spec fn enc_u32(n: u32) -> Seq<u8> {
    spec_u32_to_le_bytes(n)
}

/// A single tag byte, used for options and enumerated values.
pub open spec fn enc_tag(t: u8) -> Seq<u8> {
    seq![t]
}

/// A character is carried as its Unicode scalar value.
pub open spec fn enc_char(c: char) -> Seq<u8> {
    enc_u32(c as u32)
}

/// The elements of a list, one encoding after the other.
pub open spec fn enc_list<T>(s: Seq<T>, f: spec_fn(T) -> Seq<u8>) -> Seq<u8>
    decreases s.len(),
{
    if s.len() == 0 {
        Seq::empty()
    } else {
        f(s[0]) + enc_list(s.drop_first(), f)
    }
}

/// The element encoder for characters, shared so that every use names
/// one and the same function value.
pub open spec fn char_enc() -> spec_fn(char) -> Seq<u8> {
    |c: char| enc_char(c)
}

/// A string: its character count, then each character.
pub open spec fn enc_str(s: Seq<char>) -> Seq<u8> {
    enc_u32(s.len() as u32) + enc_list(s, char_enc())
}

/// A byte array: its length, then the raw bytes.
pub open spec fn enc_bytes(v: Seq<u8>) -> Seq<u8> {
    enc_u32(v.len() as u32) + v
}

/// An optional value: a tag byte, then the value if present.
pub open spec fn enc_opt<T>(o: Option<T>, f: spec_fn(T) -> Seq<u8>) -> Seq<u8> {
    match o {
        None => seq![0u8],
        Some(x) => seq![1u8] + f(x),
    }
}

// ===================================================================
// Spec-level decoders
//
// Each decoder takes the whole byte sequence and a position, and yields
// the decoded value together with the position just past it, or `None`
// where no well-formed encoding starts at that position.  No decoder
// looks at any byte past the ones it consumes.
// ===================================================================

pub open spec fn dec_u32_at(b: Seq<u8>, i: int) -> Option<(u32, int)> {
    if 0 <= i && i + 4 <= b.len() {
        Some((spec_u32_from_le_bytes(b.subrange(i, i + 4)), i + 4))
    } else {
        None
    }
}

pub open spec fn dec_tag_at(b: Seq<u8>, i: int) -> Option<(u8, int)> {
    if 0 <= i && i < b.len() {
        Some((b[i], i + 1))
    } else {
        None
    }
}

/// Whether `n` is a Unicode scalar value, that is, the code of a `char`.
pub open spec fn is_scalar(n: u32) -> bool {
    n < 0xD800 || (0xE000 <= n && n <= 0x10FFFF)
}

/// The Unicode scalar value of a character.
pub open spec fn scalar_of(c: char) -> u32 {
    c as u32
}

/// The character whose Unicode scalar value is `n`; meaningful only
/// where `is_scalar(n)` holds.
pub open spec fn char_of(n: u32) -> char {
    choose|c: char| scalar_of(c) == n
}

/// A character is pinned down by its Unicode scalar value.
pub proof fn lemma_char_of_scalar(c: char, n: u32)
    requires
        c as u32 == n,
    ensures
        is_scalar(n),
        char_of(n) == c,
{
    assert(scalar_of(c) == n);
    assert(scalar_of(char_of(n)) == n);
    assert(char_of(n) as u32 == n);
}

pub open spec fn dec_char_at(b: Seq<u8>, i: int) -> Option<(char, int)> {
    match dec_u32_at(b, i) {
        Some((n, j)) => if is_scalar(n) {
            Some((char_of(n), j))
        } else {
            None
        },
        None => None,
    }
}

/// Exactly `n` values decoded by `f`, one after the other.
pub open spec fn dec_list_at<T>(
    b: Seq<u8>,
    i: int,
    n: nat,
    f: spec_fn(Seq<u8>, int) -> Option<(T, int)>,
) -> Option<(Seq<T>, int)>
    decreases n,
{
    if n == 0 {
        Some((Seq::empty(), i))
    } else {
        match f(b, i) {
            Some((x, j)) => match dec_list_at(b, j, (n - 1) as nat, f) {
                Some((xs, k)) => Some((seq![x] + xs, k)),
                None => None,
            },
            None => None,
        }
    }
}

/// The element decoder for characters, shared so that every use names
/// one and the same function value.
pub open spec fn char_dec() -> spec_fn(Seq<u8>, int) -> Option<(char, int)> {
    |b: Seq<u8>, i: int| dec_char_at(b, i)
}

pub open spec fn dec_str_at(b: Seq<u8>, i: int) -> Option<(Seq<char>, int)> {
    match dec_u32_at(b, i) {
        Some((n, j)) => dec_list_at(b, j, n as nat, char_dec()),
        None => None,
    }
}

pub open spec fn dec_bytes_at(b: Seq<u8>, i: int) -> Option<(Seq<u8>, int)> {
    match dec_u32_at(b, i) {
        Some((n, j)) => if j + n <= b.len() {
            Some((b.subrange(j, j + n), j + n))
        } else {
            None
        },
        None => None,
    }
}

pub open spec fn dec_opt_at<T>(
    b: Seq<u8>,
    i: int,
    f: spec_fn(Seq<u8>, int) -> Option<(T, int)>,
) -> Option<(Option<T>, int)> {
    match dec_tag_at(b, i) {
        Some((t, j)) => if t == 0 {
            Some((None, j))
        } else if t == 1 {
            match f(b, j) {
                Some((x, k)) => Some((Some(x), k)),
                None => None,
            }
        } else {
            None
        },
        None => None,
    }
}

// ===================================================================
// Trusted bridges to the standard library
// ===================================================================

/// Relies on char::from_u32: it returns `Some` exactly on Unicode scalar
/// values, and the character it returns casts back to its argument.
#[verifier::external_body]
pub fn char_from_u32(n: u32) -> (r: Option<char>)
    ensures
        r is Some <==> is_scalar(n),
        r matches Some(c) ==> c as u32 == n,
{
    char::from_u32(n)
}

/// Relies on String::push: it appends exactly the given character.
#[verifier::external_body]
pub fn string_push(s: &mut String, c: char)
    ensures
        final(s)@ == old(s)@.push(c),
{
    s.push(c);
}

// ===================================================================
// Executable writers
// ===================================================================

pub fn write_u32(buf: &mut Vec<u8>, n: u32)
    ensures
        final(buf)@ == old(buf)@ + enc_u32(n),
{
    let mut bs = u32_to_le_bytes(n);
    buf.append(&mut bs);
}

pub fn write_tag(buf: &mut Vec<u8>, t: u8)
    ensures
        final(buf)@ == old(buf)@ + enc_tag(t),
{
    buf.push(t);
    proof {
        assert(final(buf)@ =~= old(buf)@ + enc_tag(t));
    }
}

pub fn write_char(buf: &mut Vec<u8>, c: char)
    ensures
        final(buf)@ == old(buf)@ + enc_char(c),
{
    let n: u32 = c as u32;
    write_u32(buf, n);
}

pub fn write_str(buf: &mut Vec<u8>, s: &str)
    requires
        s@.len() <= 0xFFFF_FFFF,
    ensures
        final(buf)@ == old(buf)@ + enc_str(s@),
{
    let n: usize = s.unicode_len();
    write_u32(buf, n as u32);
    let mut k: usize = 0;
    while k < n
        invariant
            n == s@.len(),
            n <= 0xFFFF_FFFF,
            k <= n,
            buf@ == old(buf)@ + enc_u32(n as u32) + enc_list(s@.take(k as int), char_enc()),
        decreases n - k,
    {
        let c = s.get_char(k);
        write_char(buf, c);
        proof {
            lemma_enc_list_take_snoc(s@, char_enc(), k as int);
            assert(old(buf)@ + enc_u32(n as u32) + enc_list(s@.take(k as int), char_enc())
                + enc_char(c) =~= old(buf)@ + enc_u32(n as u32) + enc_list(
                s@.take(k as int + 1),
                char_enc(),
            ));
        }
        k = k + 1;
    }
    proof {
        assert(s@.take(n as int) =~= s@);
    }
}

pub fn write_bytes(buf: &mut Vec<u8>, v: &[u8])
    requires
        v@.len() <= 0xFFFF_FFFF,
    ensures
        final(buf)@ == old(buf)@ + enc_bytes(v@),
{
    let n: usize = v.len();
    write_u32(buf, n as u32);
    let mut k: usize = 0;
    while k < n
        invariant
            n == v@.len(),
            k <= n,
            buf@ == old(buf)@ + enc_u32(n as u32) + v@.take(k as int),
        decreases n - k,
    {
        buf.push(*slice_index_get(v, k));
        proof {
            assert(old(buf)@ + enc_u32(n as u32) + v@.take(k as int) + seq![v@[k as int]]
                =~= old(buf)@ + enc_u32(n as u32) + v@.take(k as int + 1));
            assert(buf@ =~= old(buf)@ + enc_u32(n as u32) + v@.take(k as int) + seq![
                v@[k as int],
            ]);
        }
        k = k + 1;
    }
    proof {
        assert(v@.take(n as int) =~= v@);
        assert(buf@ =~= old(buf)@ + enc_bytes(v@));
    }
}

// ===================================================================
// Executable readers
// ===================================================================

pub fn read_u32(b: &[u8], i: usize) -> (r: Option<(u32, usize)>)
    ensures
        r matches Some((n, j)) ==> dec_u32_at(b@, i as int) == Some((n, j as int)),
        r is None ==> dec_u32_at(b@, i as int) is None,
{
    if b.len() >= 4 && i <= b.len() - 4 {
        let s = slice_subrange(b, i, i + 4);
        let n = u32_from_le_bytes(s);
        Some((n, i + 4))
    } else {
        None
    }
}

pub fn read_tag(b: &[u8], i: usize) -> (r: Option<(u8, usize)>)
    ensures
        r matches Some((t, j)) ==> dec_tag_at(b@, i as int) == Some((t, j as int)),
        r is None ==> dec_tag_at(b@, i as int) is None,
{
    if i < b.len() {
        Some((*slice_index_get(b, i), i + 1))
    } else {
        None
    }
}

pub fn read_char(b: &[u8], i: usize) -> (r: Option<(char, usize)>)
    ensures
        r matches Some((c, j)) ==> dec_char_at(b@, i as int) == Some((c, j as int)),
        r is None ==> dec_char_at(b@, i as int) is None,
{
    match read_u32(b, i) {
        Some((n, j)) => match char_from_u32(n) {
            Some(c) => {
                proof {
                    lemma_char_of_scalar(c, n);
                }
                Some((c, j))
            },
            None => None,
        },
        None => None,
    }
}

pub fn read_string(b: &[u8], i: usize) -> (r: Option<(String, usize)>)
    ensures
        r matches Some((s, j)) ==> dec_str_at(b@, i as int) == Some((s@, j as int))
            && s@.len() <= 0xFFFF_FFFF,
        r is None ==> dec_str_at(b@, i as int) is None,
{
    match read_u32(b, i) {
        Some((n, j0)) => {
            let mut s = String::new();
            let mut j: usize = j0;
            let mut done: u32 = 0;
            while done < n
                invariant
                    dec_u32_at(b@, i as int) == Some((n, j0 as int)),
                    done <= n,
                    s@.len() == done,
                    dec_list_at(b@, j0 as int, done as nat, char_dec()) == Some((
                        s@,
                        j as int,
                    )),
                decreases n - done,
            {
                match read_char(b, j) {
                    Some((c, j2)) => {
                        proof {
                            lemma_dec_list_snoc(
                                b@,
                                j0 as int,
                                done as nat,
                                char_dec(),
                                s@,
                                j as int,
                                c,
                                j2 as int,
                            );
                        }
                        string_push(&mut s, c);
                        j = j2;
                        done = done + 1;
                    },
                    None => {
                        proof {
                            lemma_dec_list_fail(
                                b@,
                                j0 as int,
                                done as nat,
                                n as nat,
                                char_dec(),
                                s@,
                                j as int,
                            );
                        }
                        return None;
                    },
                }
            }
            Some((s, j))
        },
        None => None,
    }
}

pub fn read_bytes(b: &[u8], i: usize) -> (r: Option<(Vec<u8>, usize)>)
    ensures
        r matches Some((v, j)) ==> dec_bytes_at(b@, i as int) == Some((v@, j as int)),
        r is None ==> dec_bytes_at(b@, i as int) is None,
{
    match read_u32(b, i) {
        Some((n, j)) => {
            if n as usize <= b.len() - j {
                let s = slice_subrange(b, j, j + n as usize);
                let v = vstd::slice::slice_to_vec(s);
                Some((v, j + n as usize))
            } else {
                None
            }
        },
        None => None,
    }
}

// ===================================================================
// List lemmas
// ===================================================================

/// Extending the encoded prefix of a list by one element.
pub proof fn lemma_enc_list_take_snoc<T>(s: Seq<T>, f: spec_fn(T) -> Seq<u8>, k: int)
    requires
        0 <= k < s.len(),
    ensures
        enc_list(s.take(k + 1), f) == enc_list(s.take(k), f) + f(s[k]),
    decreases k,
{
    let sd = s.drop_first();
    if k == 0 {
        assert(s.take(1).drop_first() =~= Seq::<T>::empty());
        assert(s.take(1)[0] == s[0]);
        assert(s.take(0) =~= Seq::<T>::empty());
        assert(f(s[0]) + Seq::<u8>::empty() =~= Seq::<u8>::empty() + f(s[0]));
    } else {
        assert(s.take(k + 1)[0] == s[0]);
        assert(s.take(k)[0] == s[0]);
        assert(s.take(k + 1).drop_first() =~= sd.take(k));
        assert(s.take(k).drop_first() =~= sd.take(k - 1));
        lemma_enc_list_take_snoc(sd, f, k - 1);
        assert(sd[k - 1] == s[k]);
        assert(f(s[0]) + (enc_list(sd.take(k - 1), f) + f(s[k])) =~= (f(s[0]) + enc_list(
            sd.take(k - 1),
            f,
        )) + f(s[k]));
    }
}

/// One more element decoded after a decoded prefix.
pub proof fn lemma_dec_list_snoc<T>(
    b: Seq<u8>,
    i: int,
    c: nat,
    f: spec_fn(Seq<u8>, int) -> Option<(T, int)>,
    xs: Seq<T>,
    j: int,
    x: T,
    j2: int,
)
    requires
        dec_list_at(b, i, c, f) == Some((xs, j)),
        f(b, j) == Some((x, j2)),
    ensures
        dec_list_at(b, i, (c + 1) as nat, f) == Some((xs.push(x), j2)),
    decreases c,
{
    if c == 0 {
        assert(xs =~= Seq::<T>::empty());
        assert(j == i);
        assert(dec_list_at(b, j2, 0, f) == Some((Seq::<T>::empty(), j2)));
        assert(dec_list_at(b, i, 1, f) == Some((seq![x] + Seq::<T>::empty(), j2)));
        assert(seq![x] + Seq::<T>::empty() =~= Seq::<T>::empty().push(x));
    } else {
        match f(b, i) {
            Some((x0, j0)) => {
                match dec_list_at(b, j0, (c - 1) as nat, f) {
                    Some((xs1, j1)) => {
                        lemma_dec_list_snoc(b, j0, (c - 1) as nat, f, xs1, j1, x, j2);
                        assert(dec_list_at(b, j0, c, f) == Some((xs1.push(x), j2)));
                        assert(dec_list_at(b, i, (c + 1) as nat, f) == Some((
                            seq![x0] + xs1.push(x),
                            j2,
                        )));
                        assert(seq![x0] + xs1.push(x) =~= (seq![x0] + xs1).push(x));
                        assert(xs =~= seq![x0] + xs1);
                    },
                    None => {
                        assert(false);
                    },
                }
            },
            None => {
                assert(false);
            },
        }
    }
}

/// A failure to decode one more element fails the whole list.
pub proof fn lemma_dec_list_fail<T>(
    b: Seq<u8>,
    i: int,
    c: nat,
    n: nat,
    f: spec_fn(Seq<u8>, int) -> Option<(T, int)>,
    xs: Seq<T>,
    j: int,
)
    requires
        c < n,
        dec_list_at(b, i, c, f) == Some((xs, j)),
        f(b, j) is None,
    ensures
        dec_list_at(b, i, n, f) is None,
    decreases c,
{
    if c == 0 {
        assert(j == i);
    } else {
        match f(b, i) {
            Some((x0, j0)) => {
                match dec_list_at(b, j0, (c - 1) as nat, f) {
                    Some((xs1, j1)) => {
                        lemma_dec_list_fail(b, j0, (c - 1) as nat, (n - 1) as nat, f, xs1, j);
                    },
                    None => {
                        assert(false);
                    },
                }
            },
            None => {
                assert(false);
            },
        }
    }
}

// ===================================================================
// Round-trip lemmas
//
// Each lemma says: wherever the encoding of a value stands inside a
// larger byte sequence, the decoder started at its first byte yields
// that value and stops just past its last byte.
// ===================================================================

/// The encoded lengths of characters and strings.
pub proof fn lemma_enc_chars_len(s: Seq<char>)
    ensures
        enc_list(s, char_enc()).len() == 4 * s.len(),
    decreases s.len(),
{
    lemma_auto_spec_u32_to_from_le_bytes();
    if s.len() > 0 {
        lemma_enc_chars_len(s.drop_first());
    }
}

pub proof fn lemma_enc_str_len(s: Seq<char>)
    ensures
        enc_str(s).len() == 4 + 4 * s.len(),
{
    lemma_auto_spec_u32_to_from_le_bytes();
    lemma_enc_chars_len(s);
}

pub proof fn lemma_rt_u32(n: u32, pre: Seq<u8>, post: Seq<u8>)
    ensures
        dec_u32_at(pre + enc_u32(n) + post, pre.len() as int) == Some((
            n,
            pre.len() as int + enc_u32(n).len(),
        )),
{
    lemma_auto_spec_u32_to_from_le_bytes();
    let b = pre + enc_u32(n) + post;
    assert(b.subrange(pre.len() as int, pre.len() as int + 4) =~= enc_u32(n));
}

pub proof fn lemma_rt_tag(t: u8, pre: Seq<u8>, post: Seq<u8>)
    ensures
        dec_tag_at(pre + enc_tag(t) + post, pre.len() as int) == Some((t, pre.len() as int + 1)),
{
    let b = pre + enc_tag(t) + post;
    assert(b[pre.len() as int] == t);
}

pub proof fn lemma_rt_char(c: char, pre: Seq<u8>, post: Seq<u8>)
    ensures
        dec_char_at(pre + enc_char(c) + post, pre.len() as int) == Some((
            c,
            pre.len() as int + enc_char(c).len(),
        )),
{
    lemma_rt_u32(c as u32, pre, post);
    lemma_char_of_scalar(c, c as u32);
}

/// The generic list round trip: if every element of `s` round-trips
/// through `fe` and `fd` at any position, so does the whole list.
pub proof fn lemma_rt_list<T>(
    s: Seq<T>,
    fe: spec_fn(T) -> Seq<u8>,
    fd: spec_fn(Seq<u8>, int) -> Option<(T, int)>,
    pre: Seq<u8>,
    post: Seq<u8>,
)
    requires
        forall|k: int, p: Seq<u8>, q: Seq<u8>|
            0 <= k < s.len() ==> #[trigger] fd(p + fe(s[k]) + q, p.len() as int) == Some((
                s[k],
                p.len() as int + fe(s[k]).len(),
            )),
    ensures
        dec_list_at(pre + enc_list(s, fe) + post, pre.len() as int, s.len(), fd) == Some((
            s,
            pre.len() as int + enc_list(s, fe).len(),
        )),
    decreases s.len(),
{
    let b = pre + enc_list(s, fe) + post;
    if s.len() == 0 {
        assert(enc_list(s, fe) =~= Seq::<u8>::empty());
    } else {
        let sd = s.drop_first();
        let tail = enc_list(sd, fe) + post;
        assert(b =~= pre + fe(s[0]) + tail);
        assert(fd(pre + fe(s[0]) + tail, pre.len() as int) == Some((
            s[0],
            pre.len() as int + fe(s[0]).len(),
        )));
        let pre2 = pre + fe(s[0]);
        assert(b =~= pre2 + enc_list(sd, fe) + post);
        assert forall|k: int, p: Seq<u8>, q: Seq<u8>| 0 <= k < sd.len() implies #[trigger] fd(
            p + fe(sd[k]) + q,
            p.len() as int,
        ) == Some((sd[k], p.len() as int + fe(sd[k]).len())) by {
            assert(sd[k] == s[k + 1]);
        }
        lemma_rt_list(sd, fe, fd, pre2, post);
        assert(fd(b, pre.len() as int) == Some((s[0], pre2.len() as int)));
        assert(dec_list_at(b, pre2.len() as int, sd.len(), fd) == Some((
            sd,
            pre2.len() as int + enc_list(sd, fe).len(),
        )));
        assert(seq![s[0]] + sd =~= s);
        assert(enc_list(s, fe).len() == fe(s[0]).len() + enc_list(sd, fe).len());
    }
}

/// Every character round-trips at any position; stated in the shape the
/// generic list lemma asks for.
pub proof fn lemma_rt_char_all(s: Seq<char>)
    ensures
        forall|k: int, p: Seq<u8>, q: Seq<u8>|
            0 <= k < s.len() ==> #[trigger] char_dec()(p + char_enc()(s[k]) + q, p.len() as int)
                == Some((s[k], p.len() as int + char_enc()(s[k]).len())),
{
    assert forall|k: int, p: Seq<u8>, q: Seq<u8>| 0 <= k < s.len() implies #[trigger] char_dec()(
        p + char_enc()(s[k]) + q,
        p.len() as int,
    ) == Some((s[k], p.len() as int + char_enc()(s[k]).len())) by {
        lemma_rt_char(s[k], p, q);
    }
}

pub proof fn lemma_rt_str(s: Seq<char>, pre: Seq<u8>, post: Seq<u8>)
    requires
        s.len() <= 0xFFFF_FFFF,
    ensures
        dec_str_at(pre + enc_str(s) + post, pre.len() as int) == Some((
            s,
            pre.len() as int + enc_str(s).len(),
        )),
{
    let b = pre + enc_str(s) + post;
    let n: u32 = s.len() as u32;
    let chars = enc_list(s, char_enc());
    assert(b =~= pre + enc_u32(n) + (chars + post));
    lemma_rt_u32(n, pre, chars + post);
    let pre2 = pre + enc_u32(n);
    assert(b =~= pre2 + chars + post);
    lemma_rt_char_all(s);
    lemma_rt_list(s, char_enc(), char_dec(), pre2, post);
    assert(dec_u32_at(b, pre.len() as int) == Some((n, pre2.len() as int)));
    assert(enc_str(s).len() == 4 + chars.len());
}

pub proof fn lemma_rt_bytes(v: Seq<u8>, pre: Seq<u8>, post: Seq<u8>)
    requires
        v.len() <= 0xFFFF_FFFF,
    ensures
        dec_bytes_at(pre + enc_bytes(v) + post, pre.len() as int) == Some((
            v,
            pre.len() as int + enc_bytes(v).len(),
        )),
{
    let b = pre + enc_bytes(v) + post;
    let n: u32 = v.len() as u32;
    assert(b =~= pre + enc_u32(n) + (v + post));
    lemma_rt_u32(n, pre, v + post);
    let j: int = pre.len() as int + 4;
    assert(b.subrange(j, j + n) =~= v);
}

/// The round trip of an absent optional value.
pub proof fn lemma_rt_opt_none<T>(
    fe: spec_fn(T) -> Seq<u8>,
    fd: spec_fn(Seq<u8>, int) -> Option<(T, int)>,
    pre: Seq<u8>,
    post: Seq<u8>,
)
    ensures
        dec_opt_at(pre + enc_opt(None::<T>, fe) + post, pre.len() as int, fd) == Some((
            None::<T>,
            pre.len() as int + enc_opt(None::<T>, fe).len(),
        )),
{
    let b = pre + enc_opt(None::<T>, fe) + post;
    assert(b =~= pre + enc_tag(0) + post);
    lemma_rt_tag(0, pre, post);
    assert(dec_tag_at(b, pre.len() as int) == Some((0u8, pre.len() as int + 1)));
}

/// The round trip of a present optional value, given that its payload
/// round-trips just past the tag byte.
pub proof fn lemma_rt_opt_some<T>(
    x: T,
    fe: spec_fn(T) -> Seq<u8>,
    fd: spec_fn(Seq<u8>, int) -> Option<(T, int)>,
    pre: Seq<u8>,
    post: Seq<u8>,
)
    requires
        fd((pre + enc_tag(1)) + fe(x) + post, pre.len() as int + 1) == Some((
            x,
            pre.len() as int + 1 + fe(x).len(),
        )),
    ensures
        dec_opt_at(pre + enc_opt(Some(x), fe) + post, pre.len() as int, fd) == Some((
            Some(x),
            pre.len() as int + enc_opt(Some(x), fe).len(),
        )),
{
    let b = pre + enc_opt(Some(x), fe) + post;
    assert(b =~= pre + enc_tag(1) + (fe(x) + post));
    lemma_rt_tag(1, pre, fe(x) + post);
    assert(dec_tag_at(b, pre.len() as int) == Some((1u8, pre.len() as int + 1)));
    let pre2 = pre + enc_tag(1);
    assert(b =~= pre2 + fe(x) + post);
    assert(pre2.len() as int == pre.len() as int + 1);
    assert(fd(b, pre.len() as int + 1) == Some((x, pre.len() as int + 1 + fe(x).len())));
}

} // verus!
