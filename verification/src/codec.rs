//! The durable snapshot format of the progress store, and `load_or_default`.
//!
//! The format is an internal contract: every integer is eight bytes
//! little-endian, every string is its byte length followed by its UTF-8
//! bytes, every list is its element count followed by its elements. A
//! snapshot is seed name, team, location map, checked list, item log, with
//! nothing trailing. Decoding inverts encoding exactly; bytes that are not
//! the encoding of a well-formed snapshot are rejected, never mis-read.

use vstd::prelude::*;
use vstd::bytes::{
    lemma_auto_spec_u64_to_from_le_bytes, spec_u64_from_le_bytes, spec_u64_to_le_bytes,
    u64_from_le_bytes, u64_to_le_bytes,
};
use vstd::slice::{slice_subrange, slice_to_vec};
use vstd::utf8::{decode_utf8, encode_utf8, encode_utf8_decode_utf8, encode_utf8_valid_utf8,
    valid_utf8};
use crate::store::{
    distinct_u64s, empty_model, LocationEntry, ProgressStore, StoreModel,
};

verus! {

/// Relies on `String::from_utf8`: by its documentation it returns `Ok` with
/// the string of the given bytes exactly when they are valid UTF-8, and
/// `Err` otherwise.
pub assume_specification[ String::from_utf8 ](vec: Vec<u8>) -> (r: Result<
    String,
    std::string::FromUtf8Error,
>)
    ensures
        r is Ok <==> valid_utf8(vec@),
        r is Ok ==> r.unwrap()@ == decode_utf8(vec@),
;

#[verifier::external_type_specification]
#[verifier::external_body]
pub struct ExFromUtf8Error(std::string::FromUtf8Error);

/// An integer, eight bytes little-endian.
pub open spec fn enc_u64(x: u64) -> Seq<u8> {
    spec_u64_to_le_bytes(x)
}

/// A string: the length of its UTF-8 encoding, then those bytes.
pub open spec fn enc_str(s: Seq<char>) -> Seq<u8> {
    enc_u64(encode_utf8(s).len() as u64) + encode_utf8(s)
}

/// The body of an integer list: each element in order.
pub open spec fn enc_u64_list(xs: Seq<u64>) -> Seq<u8>
    decreases xs.len(),
{
    if xs.len() == 0 {
        Seq::<u8>::empty()
    } else {
        enc_u64(xs[0]) + enc_u64_list(xs.drop_first())
    }
}

/// The body of a location map: each entry's name, then its id.
pub open spec fn enc_pair_list(ps: Seq<(Seq<char>, u64)>) -> Seq<u8>
    decreases ps.len(),
{
    if ps.len() == 0 {
        Seq::<u8>::empty()
    } else {
        enc_str(ps[0].0) + enc_u64(ps[0].1) + enc_pair_list(ps.drop_first())
    }
}

/// The whole snapshot.
pub open spec fn enc_model(m: StoreModel) -> Seq<u8> {
    enc_str(m.seed) + enc_u64(m.team) + enc_u64(m.locations.len() as u64) + enc_pair_list(
        m.locations,
    ) + enc_u64(m.checked.len() as u64) + enc_u64_list(m.checked) + enc_u64(
        m.items.len() as u64,
    ) + enc_u64_list(m.items)
}

/// Whether a model's sizes fit the format: every length fits in an
/// integer field. Any snapshot an actual store yields satisfies this.
pub open spec fn model_encodable(m: StoreModel) -> bool {
    &&& encode_utf8(m.seed).len() <= u64::MAX
    &&& m.locations.len() <= u64::MAX
    &&& (forall|i: int|
        0 <= i < m.locations.len() ==> encode_utf8(#[trigger] m.locations[i].0).len()
            <= u64::MAX)
    &&& m.checked.len() <= u64::MAX
    &&& m.items.len() <= u64::MAX
}

/// Reading an integer: the first eight bytes, and what follows.
pub open spec fn dec_u64(b: Seq<u8>) -> Option<(u64, Seq<u8>)> {
    if b.len() >= 8 {
        Some((spec_u64_from_le_bytes(b.take(8)), b.skip(8)))
    } else {
        None
    }
}

/// Reading a string: a length, that many bytes of valid UTF-8, and what
/// follows.
pub open spec fn dec_str(b: Seq<u8>) -> Option<(Seq<char>, Seq<u8>)> {
    match dec_u64(b) {
        None => None,
        Some((n, rest)) => if rest.len() >= n && valid_utf8(rest.take(n as int)) {
            Some((decode_utf8(rest.take(n as int)), rest.skip(n as int)))
        } else {
            None
        },
    }
}

/// Reading a counted integer list body.
pub open spec fn dec_u64_list(b: Seq<u8>, count: nat) -> Option<(Seq<u64>, Seq<u8>)>
    decreases count,
{
    if count == 0 {
        Some((Seq::<u64>::empty(), b))
    } else {
        match dec_u64(b) {
            None => None,
            Some((x, rest)) => match dec_u64_list(rest, (count - 1) as nat) {
                None => None,
                Some((xs, rest2)) => Some((seq![x] + xs, rest2)),
            },
        }
    }
}

/// Reading a counted location map body.
pub open spec fn dec_pair_list(b: Seq<u8>, count: nat) -> Option<(Seq<(Seq<char>, u64)>, Seq<u8>)>
    decreases count,
{
    if count == 0 {
        Some((Seq::<(Seq<char>, u64)>::empty(), b))
    } else {
        match dec_str(b) {
            None => None,
            Some((name, rest)) => match dec_u64(rest) {
                None => None,
                Some((id, rest2)) => match dec_pair_list(rest2, (count - 1) as nat) {
                    None => None,
                    Some((ps, rest3)) => Some((seq![(name, id)] + ps, rest3)),
                },
            },
        }
    }
}

/// Reading a whole snapshot: all five fields, with nothing trailing.
pub open spec fn dec_model(b: Seq<u8>) -> Option<StoreModel> {
    match dec_str(b) {
        None => None,
        Some((seed, b1)) => match dec_u64(b1) {
            None => None,
            Some((team, b2)) => match dec_u64(b2) {
                None => None,
                Some((nloc, b3)) => match dec_pair_list(b3, nloc as nat) {
                    None => None,
                    Some((locations, b4)) => match dec_u64(b4) {
                        None => None,
                        Some((ncheck, b5)) => match dec_u64_list(b5, ncheck as nat) {
                            None => None,
                            Some((checked, b6)) => match dec_u64(b6) {
                                None => None,
                                Some((nitem, b7)) => match dec_u64_list(b7, nitem as nat) {
                                    None => None,
                                    Some((items, b8)) => if b8.len() == 0 {
                                        Some(
                                            StoreModel { seed, team, locations, checked, items },
                                        )
                                    } else {
                                        None
                                    },
                                },
                            },
                        },
                    },
                },
            },
        },
    }
}

/// Reading an integer undoes writing one, whatever follows.
pub proof fn lemma_dec_enc_u64(x: u64, rest: Seq<u8>)
    ensures
        dec_u64(enc_u64(x) + rest) == Some((x, rest)),
{
    lemma_auto_spec_u64_to_from_le_bytes();
    assert((enc_u64(x) + rest).take(8) =~= enc_u64(x));
    assert((enc_u64(x) + rest).skip(8) =~= rest);
}

/// Reading a string undoes writing one, whatever follows.
pub proof fn lemma_dec_enc_str(s: Seq<char>, rest: Seq<u8>)
    requires
        encode_utf8(s).len() <= u64::MAX,
    ensures
        dec_str(enc_str(s) + rest) == Some((s, rest)),
{
    let bs = encode_utf8(s);
    let n = bs.len() as u64;
    assert(enc_str(s) + rest =~= enc_u64(n) + (bs + rest));
    lemma_dec_enc_u64(n, bs + rest);
    assert((bs + rest).take(n as int) =~= bs);
    assert((bs + rest).skip(n as int) =~= rest);
    encode_utf8_valid_utf8(s);
    encode_utf8_decode_utf8(s);
}

/// Reading an integer list body undoes writing one, whatever follows.
pub proof fn lemma_dec_enc_u64_list(xs: Seq<u64>, rest: Seq<u8>)
    ensures
        dec_u64_list(enc_u64_list(xs) + rest, xs.len()) == Some((xs, rest)),
    decreases xs.len(),
{
    if xs.len() == 0 {
        assert(enc_u64_list(xs) + rest =~= rest);
    } else {
        assert(enc_u64_list(xs) + rest =~= enc_u64(xs[0]) + (enc_u64_list(xs.drop_first())
            + rest));
        lemma_dec_enc_u64(xs[0], enc_u64_list(xs.drop_first()) + rest);
        lemma_dec_enc_u64_list(xs.drop_first(), rest);
        assert(seq![xs[0]] + xs.drop_first() =~= xs);
    }
}

/// Reading a location map body undoes writing one, whatever follows.
pub proof fn lemma_dec_enc_pair_list(ps: Seq<(Seq<char>, u64)>, rest: Seq<u8>)
    requires
        forall|i: int| 0 <= i < ps.len() ==> encode_utf8(#[trigger] ps[i].0).len() <= u64::MAX,
    ensures
        dec_pair_list(enc_pair_list(ps) + rest, ps.len()) == Some((ps, rest)),
    decreases ps.len(),
{
    if ps.len() == 0 {
        assert(enc_pair_list(ps) + rest =~= rest);
    } else {
        let tail = enc_u64(ps[0].1) + (enc_pair_list(ps.drop_first()) + rest);
        assert(enc_pair_list(ps) + rest =~= enc_str(ps[0].0) + tail);
        lemma_dec_enc_str(ps[0].0, tail);
        lemma_dec_enc_u64(ps[0].1, enc_pair_list(ps.drop_first()) + rest);
        assert forall|i: int| 0 <= i < ps.drop_first().len() implies encode_utf8(
            #[trigger] ps.drop_first()[i].0,
        ).len() <= u64::MAX by {
            assert(ps.drop_first()[i] == ps[i + 1]);
        }
        lemma_dec_enc_pair_list(ps.drop_first(), rest);
        assert(seq![(ps[0].0, ps[0].1)] + ps.drop_first() =~= ps);
    }
}

/// Law: the snapshot codec round-trips. Decoding the encoding of any
/// encodable snapshot yields that snapshot back, field for field — so a
/// store saved and reloaded for the same seed is equal in seed name, team,
/// location map, checked-set and item log to the snapshot that was saved.
pub proof fn lemma_snapshot_round_trip(m: StoreModel)
    requires
        model_encodable(m),
    ensures
        dec_model(enc_model(m)) == Some(m),
{
    let b0 = enc_u64(m.team) + (enc_u64(m.locations.len() as u64) + (enc_pair_list(m.locations)
        + (enc_u64(m.checked.len() as u64) + (enc_u64_list(m.checked) + (enc_u64(
        m.items.len() as u64,
    ) + (enc_u64_list(m.items) + Seq::<u8>::empty()))))));
    assert(enc_model(m) =~= enc_str(m.seed) + b0);
    lemma_dec_enc_str(m.seed, b0);
    let b1 = enc_u64(m.locations.len() as u64) + (enc_pair_list(m.locations) + (enc_u64(
        m.checked.len() as u64,
    ) + (enc_u64_list(m.checked) + (enc_u64(m.items.len() as u64) + (enc_u64_list(m.items)
        + Seq::<u8>::empty())))));
    lemma_dec_enc_u64(m.team, b1);
    let b2 = enc_pair_list(m.locations) + (enc_u64(m.checked.len() as u64) + (enc_u64_list(
        m.checked,
    ) + (enc_u64(m.items.len() as u64) + (enc_u64_list(m.items) + Seq::<u8>::empty()))));
    lemma_dec_enc_u64(m.locations.len() as u64, b2);
    let b3 = enc_u64(m.checked.len() as u64) + (enc_u64_list(m.checked) + (enc_u64(
        m.items.len() as u64,
    ) + (enc_u64_list(m.items) + Seq::<u8>::empty())));
    lemma_dec_enc_pair_list(m.locations, b3);
    let b4 = enc_u64_list(m.checked) + (enc_u64(m.items.len() as u64) + (enc_u64_list(m.items)
        + Seq::<u8>::empty()));
    lemma_dec_enc_u64(m.checked.len() as u64, b4);
    let b5 = enc_u64(m.items.len() as u64) + (enc_u64_list(m.items) + Seq::<u8>::empty());
    lemma_dec_enc_u64_list(m.checked, b5);
    let b6 = enc_u64_list(m.items) + Seq::<u8>::empty();
    lemma_dec_enc_u64(m.items.len() as u64, b6);
    lemma_dec_enc_u64_list(m.items, Seq::<u8>::empty());
}

/// Law: persisting and reloading for the same seed restores the store.
/// For any well-formed snapshot content with a non-empty seed name, the
/// bytes of its encoding decode back to that very content, and they pass
/// every acceptance test of `load_or_default` for that seed — duplicates
/// absent, seed matching, seed non-empty — so by `load_or_default`'s own
/// contract the reloaded store equals the persisted one in seed name,
/// team, location map, checked list and item log. A snapshot with an empty
/// seed name is excluded: it is the "no prior state" sentinel, which
/// `load_or_default` deliberately reloads as the default store.
pub proof fn lemma_persist_round_trip(m: StoreModel)
    requires
        model_encodable(m),
        distinct_u64s(m.checked),
        m.seed.len() > 0,
    ensures
        dec_model(enc_model(m)) == Some(m),
        match dec_model(enc_model(m)) {
            Some(m2) => distinct_u64s(m2.checked) && m2.seed == m.seed && m2.seed.len() > 0,
            None => false,
        },
{
    lemma_snapshot_round_trip(m);
}

/// Writing one more integer extends a list body at its end.
pub proof fn lemma_enc_u64_list_snoc(xs: Seq<u64>, x: u64)
    ensures
        enc_u64_list(xs.push(x)) == enc_u64_list(xs) + enc_u64(x),
    decreases xs.len(),
{
    if xs.len() == 0 {
        assert(xs.push(x)[0] == x);
        assert(xs.push(x).drop_first() =~= Seq::<u64>::empty());
        assert(enc_u64_list(xs.push(x)) == enc_u64(x) + enc_u64_list(Seq::<u64>::empty()));
        assert(enc_u64(x) + Seq::<u8>::empty() =~= enc_u64(x));
        assert(Seq::<u8>::empty() + enc_u64(x) =~= enc_u64(x));
    } else {
        assert(xs.push(x)[0] == xs[0]);
        assert(xs.push(x).drop_first() =~= xs.drop_first().push(x));
        lemma_enc_u64_list_snoc(xs.drop_first(), x);
        assert(enc_u64_list(xs.push(x)) == enc_u64(xs[0]) + (enc_u64_list(xs.drop_first())
            + enc_u64(x)));
        assert(enc_u64(xs[0]) + (enc_u64_list(xs.drop_first()) + enc_u64(x)) =~= (enc_u64(xs[0])
            + enc_u64_list(xs.drop_first())) + enc_u64(x));
    }
}

/// Writing one more entry extends a location map body at its end.
pub proof fn lemma_enc_pair_list_snoc(ps: Seq<(Seq<char>, u64)>, p: (Seq<char>, u64))
    ensures
        enc_pair_list(ps.push(p)) == enc_pair_list(ps) + enc_str(p.0) + enc_u64(p.1),
    decreases ps.len(),
{
    if ps.len() == 0 {
        assert(ps.push(p)[0] == p);
        assert(ps.push(p).drop_first() =~= Seq::<(Seq<char>, u64)>::empty());
        assert(enc_pair_list(ps.push(p)) == enc_str(p.0) + enc_u64(p.1) + enc_pair_list(
            Seq::<(Seq<char>, u64)>::empty(),
        ));
        assert(enc_str(p.0) + enc_u64(p.1) + Seq::<u8>::empty() =~= enc_str(p.0) + enc_u64(p.1));
        assert(Seq::<u8>::empty() + enc_str(p.0) + enc_u64(p.1) =~= enc_str(p.0) + enc_u64(p.1));
    } else {
        assert(ps.push(p)[0] == ps[0]);
        assert(ps.push(p).drop_first() =~= ps.drop_first().push(p));
        lemma_enc_pair_list_snoc(ps.drop_first(), p);
        assert(enc_pair_list(ps.push(p)) == enc_str(ps[0].0) + enc_u64(ps[0].1) + (enc_pair_list(
            ps.drop_first(),
        ) + enc_str(p.0) + enc_u64(p.1)));
        assert(enc_str(ps[0].0) + enc_u64(ps[0].1) + (enc_pair_list(ps.drop_first()) + enc_str(
            p.0,
        ) + enc_u64(p.1)) =~= enc_str(ps[0].0) + enc_u64(ps[0].1) + enc_pair_list(
            ps.drop_first(),
        ) + enc_str(p.0) + enc_u64(p.1));
    }
}

/// Appends one integer field to the output.
fn push_u64(out: &mut Vec<u8>, x: u64)
    ensures
        final(out)@ == old(out)@ + enc_u64(x),
{
    let mut b = u64_to_le_bytes(x);
    out.append(&mut b);
}

/// Appends one string field to the output.
fn push_str(out: &mut Vec<u8>, s: &String)
    ensures
        final(out)@ == old(out)@ + enc_str(s@),
        encode_utf8(s@).len() <= u64::MAX,
{
    let bs: &[u8] = s.as_str().as_bytes();
    push_u64(out, bs.len() as u64);
    let mut v = slice_to_vec(bs);
    out.append(&mut v);
    proof {
        assert(final(out)@ =~= old(out)@ + enc_str(s@));
    }
}

/// A consistent point-in-time snapshot of the store, in the durable format.
/// The caller takes the bytes under the store's lock and writes them out
/// after releasing it; no lock is held across the write.
pub fn encode_snapshot(s: &ProgressStore) -> (out: Vec<u8>)
    ensures
        out@ == enc_model(s.model()),
        model_encodable(s.model()),
{
    let ghost m = s.model();
    let mut out: Vec<u8> = Vec::new();
    push_str(&mut out, &s.seed_name);
    push_u64(&mut out, s.team);
    push_u64(&mut out, s.locations.len() as u64);
    proof {
        assert(out@ =~= enc_str(m.seed) + enc_u64(m.team) + enc_u64(m.locations.len() as u64)
            + enc_pair_list(m.locations.take(0)));
    }
    let mut k: usize = 0;
    while k < s.locations.len()
        invariant
            0 <= k <= s.locations@.len(),
            m == s.model(),
            out@ == enc_str(m.seed) + enc_u64(m.team) + enc_u64(m.locations.len() as u64)
                + enc_pair_list(m.locations.take(k as int)),
            forall|i: int|
                0 <= i < k ==> encode_utf8(#[trigger] m.locations[i].0).len() <= u64::MAX,
        decreases s.locations@.len() - k,
    {
        push_str(&mut out, &s.locations[k].name);
        push_u64(&mut out, s.locations[k].id);
        proof {
            assert(m.locations[k as int] == (s.locations@[k as int].name@, s.locations@[
                k as int
            ].id));
            lemma_enc_pair_list_snoc(m.locations.take(k as int), m.locations[k as int]);
            assert(m.locations.take(k as int).push(m.locations[k as int]) =~= m.locations.take(
                k as int + 1,
            ));
            assert(out@ =~= enc_str(m.seed) + enc_u64(m.team) + enc_u64(
                m.locations.len() as u64,
            ) + enc_pair_list(m.locations.take(k as int + 1)));
        }
        k += 1;
    }
    proof {
        assert(m.locations.take(m.locations.len() as int) =~= m.locations);
    }
    push_u64(&mut out, s.checked.len() as u64);
    proof {
        assert(m.checked.take(0) =~= Seq::<u64>::empty());
    }
    let mut k2: usize = 0;
    while k2 < s.checked.len()
        invariant
            0 <= k2 <= s.checked@.len(),
            m == s.model(),
            out@ == enc_str(m.seed) + enc_u64(m.team) + enc_u64(m.locations.len() as u64)
                + enc_pair_list(m.locations) + enc_u64(m.checked.len() as u64) + enc_u64_list(
                m.checked.take(k2 as int),
            ),
        decreases s.checked@.len() - k2,
    {
        push_u64(&mut out, s.checked[k2]);
        proof {
            lemma_enc_u64_list_snoc(m.checked.take(k2 as int), m.checked[k2 as int]);
            assert(m.checked.take(k2 as int).push(m.checked[k2 as int]) =~= m.checked.take(
                k2 as int + 1,
            ));
            assert(out@ =~= enc_str(m.seed) + enc_u64(m.team) + enc_u64(m.locations.len() as u64)
                + enc_pair_list(m.locations) + enc_u64(m.checked.len() as u64) + enc_u64_list(
                m.checked.take(k2 as int + 1),
            ));
        }
        k2 += 1;
    }
    proof {
        assert(m.checked.take(m.checked.len() as int) =~= m.checked);
    }
    push_u64(&mut out, s.items.len() as u64);
    let mut k3: usize = 0;
    while k3 < s.items.len()
        invariant
            0 <= k3 <= s.items@.len(),
            m == s.model(),
            out@ == enc_str(m.seed) + enc_u64(m.team) + enc_u64(m.locations.len() as u64)
                + enc_pair_list(m.locations) + enc_u64(m.checked.len() as u64) + enc_u64_list(
                m.checked,
            ) + enc_u64(m.items.len() as u64) + enc_u64_list(m.items.take(k3 as int)),
        decreases s.items@.len() - k3,
    {
        push_u64(&mut out, s.items[k3]);
        proof {
            lemma_enc_u64_list_snoc(m.items.take(k3 as int), m.items[k3 as int]);
            assert(m.items.take(k3 as int).push(m.items[k3 as int]) =~= m.items.take(
                k3 as int + 1,
            ));
            assert(out@ =~= enc_str(m.seed) + enc_u64(m.team) + enc_u64(m.locations.len() as u64)
                + enc_pair_list(m.locations) + enc_u64(m.checked.len() as u64) + enc_u64_list(
                m.checked,
            ) + enc_u64(m.items.len() as u64) + enc_u64_list(m.items.take(k3 as int + 1)));
        }
        k3 += 1;
    }
    proof {
        assert(m.items.take(m.items.len() as int) =~= m.items);
        assert(out@ =~= enc_model(m));
    }
    out
}

/// Reads one integer field at the given offset.
fn read_u64(b: &[u8], pos: usize) -> (r: Option<(u64, usize)>)
    requires
        pos <= b@.len(),
    ensures
        match r {
            Some(p) => dec_u64(b@.skip(pos as int)) == Some((p.0, b@.skip(p.1 as int))) && pos
                < p.1 <= b@.len(),
            None => dec_u64(b@.skip(pos as int)) is None,
        },
{
    if b.len() - pos >= 8 {
        let s = slice_subrange(b, pos, pos + 8);
        let x = u64_from_le_bytes(s);
        proof {
            assert(b@.skip(pos as int).take(8) =~= b@.subrange(pos as int, pos as int + 8));
            assert(b@.skip(pos as int).skip(8) =~= b@.skip(pos as int + 8));
        }
        Some((x, pos + 8))
    } else {
        None
    }
}

/// Reads one string field at the given offset.
fn read_string(b: &[u8], pos: usize) -> (r: Option<(String, usize)>)
    requires
        pos <= b@.len(),
    ensures
        match r {
            Some(p) => dec_str(b@.skip(pos as int)) == Some((p.0@, b@.skip(p.1 as int))) && pos
                < p.1 <= b@.len(),
            None => dec_str(b@.skip(pos as int)) is None,
        },
{
    match read_u64(b, pos) {
        None => None,
        Some((n, p1)) => {
            if n <= (b.len() - p1) as u64 {
                let nn = n as usize;
                let sub = slice_subrange(b, p1, p1 + nn);
                let v = slice_to_vec(sub);
                proof {
                    assert(b@.skip(p1 as int).take(n as int) =~= b@.subrange(
                        p1 as int,
                        p1 as int + nn,
                    ));
                    assert(b@.skip(p1 as int).skip(n as int) =~= b@.skip(p1 as int + nn));
                }
                match String::from_utf8(v) {
                    Ok(s) => Some((s, p1 + nn)),
                    Err(_) => None,
                }
            } else {
                None
            }
        },
    }
}

/// Reads a counted integer list body at the given offset.
fn read_u64_list(b: &[u8], pos: usize, count: u64) -> (r: Option<(Vec<u64>, usize)>)
    requires
        pos <= b@.len(),
    ensures
        match r {
            Some(p) => dec_u64_list(b@.skip(pos as int), count as nat) == Some((
                p.0@,
                b@.skip(p.1 as int),
            )) && pos <= p.1 <= b@.len(),
            None => dec_u64_list(b@.skip(pos as int), count as nat) is None,
        },
{
    let mut acc: Vec<u64> = Vec::new();
    let mut cur: usize = pos;
    let mut i: u64 = 0;
    while i < count
        invariant
            pos <= cur <= b@.len(),
            0 <= i <= count,
            acc@.len() == i,
            dec_u64_list(b@.skip(pos as int), count as nat) == (match dec_u64_list(
                b@.skip(cur as int),
                (count - i) as nat,
            ) {
                Some(p) => Some((acc@ + p.0, p.1)),
                None => None::<(Seq<u64>, Seq<u8>)>,
            }),
        decreases count - i,
    {
        match read_u64(b, cur) {
            None => {
                return None;
            },
            Some((x, p2)) => {
                proof {
                    let tail = dec_u64_list(b@.skip(p2 as int), (count - i - 1) as nat);
                    if tail is Some {
                        assert(acc@ + (seq![x] + tail.unwrap().0) =~= (acc@.push(x))
                            + tail.unwrap().0);
                    }
                }
                acc.push(x);
                cur = p2;
                i += 1;
            },
        }
    }
    proof {
        assert(acc@ + Seq::<u64>::empty() =~= acc@);
    }
    Some((acc, cur))
}

/// Reads a counted location map body at the given offset.
fn read_pair_list(b: &[u8], pos: usize, count: u64) -> (r: Option<(Vec<LocationEntry>, usize)>)
    requires
        pos <= b@.len(),
    ensures
        match r {
            Some(p) => dec_pair_list(b@.skip(pos as int), count as nat) == Some((
                p.0@.map_values(|e: LocationEntry| e.model()),
                b@.skip(p.1 as int),
            )) && pos <= p.1 <= b@.len(),
            None => dec_pair_list(b@.skip(pos as int), count as nat) is None,
        },
{
    let mut acc: Vec<LocationEntry> = Vec::new();
    let mut cur: usize = pos;
    let mut i: u64 = 0;
    proof {
        assert(acc@.map_values(|e: LocationEntry| e.model()) =~= Seq::<(Seq<char>, u64)>::empty());
    }
    while i < count
        invariant
            pos <= cur <= b@.len(),
            0 <= i <= count,
            dec_pair_list(b@.skip(pos as int), count as nat) == (match dec_pair_list(
                b@.skip(cur as int),
                (count - i) as nat,
            ) {
                Some(p) => Some((acc@.map_values(|e: LocationEntry| e.model()) + p.0, p.1)),
                None => None::<(Seq<(Seq<char>, u64)>, Seq<u8>)>,
            }),
        decreases count - i,
    {
        match read_string(b, cur) {
            None => {
                return None;
            },
            Some((name, p1)) => {
                match read_u64(b, p1) {
                    None => {
                        return None;
                    },
                    Some((id, p2)) => {
                        proof {
                            let ghost am = acc@.map_values(|e: LocationEntry| e.model());
                            let tail = dec_pair_list(b@.skip(p2 as int), (count - i - 1) as nat);
                            if tail is Some {
                                assert(am + (seq![(name@, id)] + tail.unwrap().0) =~= (am.push(
                                    (name@, id),
                                )) + tail.unwrap().0);
                            }
                        }
                        let ghost old_acc = acc@;
                        acc.push(LocationEntry { name, id });
                        proof {
                            assert(acc@.map_values(|e: LocationEntry| e.model()) =~= old_acc
                                .map_values(|e: LocationEntry| e.model()).push(
                                (acc@[old_acc.len() as int].name@, acc@[old_acc.len() as int].id),
                            ));
                        }
                        cur = p2;
                        i += 1;
                    },
                }
            },
        }
    }
    proof {
        assert(acc@.map_values(|e: LocationEntry| e.model()) + Seq::<(Seq<char>, u64)>::empty()
            =~= acc@.map_values(|e: LocationEntry| e.model()));
    }
    Some((acc, cur))
}

/// Whether the list holds no duplicate id.
fn all_distinct(v: &Vec<u64>) -> (b: bool)
    ensures
        b == distinct_u64s(v@),
{
    let mut k: usize = 0;
    while k < v.len()
        invariant
            0 <= k <= v@.len(),
            forall|i: int, j: int| 0 <= i < j < k ==> v@[i] != v@[j],
        decreases v@.len() - k,
    {
        let mut j: usize = 0;
        while j < k
            invariant
                0 <= j <= k < v@.len(),
                forall|i: int| 0 <= i < j ==> v@[i] != v@[k as int],
            decreases k - j,
        {
            if v[j] == v[k] {
                assert(v@[j as int] == v@[k as int] && j < k);
                return false;
            }
            j += 1;
        }
        k += 1;
    }
    true
}

/// Decodes a durable snapshot. Exactly the byte strings produced by
/// `encode_snapshot` for a well-formed store are accepted; anything else —
/// truncated fields, invalid UTF-8, trailing bytes, a duplicated checked
/// id — is rejected with `None`, never mis-read.
pub fn decode_snapshot(b: &[u8]) -> (r: Option<ProgressStore>)
    ensures
        match r {
            Some(store) => dec_model(b@) == Some(store.model()) && store.wf(),
            None => dec_model(b@) is None || !distinct_u64s(dec_model(b@).unwrap().checked),
        },
{
    proof {
        assert(b@.skip(0) =~= b@);
    }
    let step0 = read_string(b, 0);
    if step0.is_none() {
        return None;
    }
    let (seed_name, p1) = step0.unwrap();
    let step1 = read_u64(b, p1);
    if step1.is_none() {
        return None;
    }
    let (team, p2) = step1.unwrap();
    let step2 = read_u64(b, p2);
    if step2.is_none() {
        return None;
    }
    let (nloc, p3) = step2.unwrap();
    let step3 = read_pair_list(b, p3, nloc);
    if step3.is_none() {
        return None;
    }
    let (locations, p4) = step3.unwrap();
    let step4 = read_u64(b, p4);
    if step4.is_none() {
        return None;
    }
    let (ncheck, p5) = step4.unwrap();
    let step5 = read_u64_list(b, p5, ncheck);
    if step5.is_none() {
        return None;
    }
    let (checked, p6) = step5.unwrap();
    let step6 = read_u64(b, p6);
    if step6.is_none() {
        return None;
    }
    let (nitem, p7) = step6.unwrap();
    let step7 = read_u64_list(b, p7, nitem);
    if step7.is_none() {
        return None;
    }
    let (items, p8) = step7.unwrap();
    if p8 != b.len() {
        proof {
            assert(b@.skip(p8 as int).len() != 0);
        }
        return None;
    }
    if !all_distinct(&checked) {
        return None;
    }
    let store = ProgressStore { seed_name, team, locations, checked, items };
    proof {
        assert(b@.skip(p8 as int).len() == 0);
        assert(dec_model(b@) == Some(store.model()));
    }
    Some(store)
}

/// Loads the progress store for the given seed, or falls back to a fresh,
/// uninitialized store. The bytes are whatever the durable storage held for
/// the seed key, `None` if it held nothing; a read that failed upstream is
/// passed in as `None` as well. Absent content, bytes that do not decode,
/// and a snapshot recorded for a different seed name all degrade to the
/// default store — this function never fails its caller.
pub fn load_or_default(seed_name: &String, content: Option<Vec<u8>>) -> (store: ProgressStore)
    ensures
        store.wf(),
        content is None ==> store.model() == empty_model(),
        content is Some ==> store.model() == (match dec_model(content.unwrap()@) {
            Some(m) => if distinct_u64s(m.checked) && m.seed == seed_name@ && m.seed.len() > 0 {
                m
            } else {
                empty_model()
            },
            None => empty_model(),
        }),
{
    match content {
        None => ProgressStore::new_uninitialized(),
        Some(bytes) => {
            match decode_snapshot(bytes.as_slice()) {
                None => ProgressStore::new_uninitialized(),
                Some(store) => {
                    if !store.seed_name.as_str().is_empty() && store.seed_name.eq(seed_name) {
                        store
                    } else {
                        ProgressStore::new_uninitialized()
                    }
                },
            }
        },
    }
}

} // verus!
