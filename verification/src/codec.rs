use vstd::prelude::*;

use vstd::bytes::{
    lemma_auto_spec_u64_to_from_le_bytes, spec_u64_from_le_bytes, spec_u64_to_le_bytes,
    u64_from_le_bytes, u64_to_le_bytes,
};
use vstd::slice::{slice_subrange, slice_to_vec};
use vstd::string::StrSliceExecFns;
use vstd::utf8::{decode_utf8, encode_utf8, encode_utf8_decode_utf8, encode_utf8_valid_utf8,
    valid_utf8};

use crate::errors::HandlerServiceError;
use crate::mapping::{HandlerMapping, Mapping};

verus! {

// The snapshot is a full-table encoding of the registration data: the count
// of entries, then per entry its directory path, handler type name and
// handler configuration path, each string as an eight-byte little-endian
// byte length followed by its UTF-8 bytes.  The running indicator is not
// persisted: only registration survives restarts.

/// The persisted face of one entry: directory path, handler type name,
/// handler configuration path.
pub open spec fn entry_triple(e: (String, HandlerMapping)) -> (Seq<char>, Seq<char>, Seq<char>) {
    (e.0@, e.1.handler_type_name@, e.1.handler_config_path@)
}

pub open spec fn triples_of(s: Seq<(String, HandlerMapping)>) -> Seq<
    (Seq<char>, Seq<char>, Seq<char>),
> {
    s.map_values(|e: (String, HandlerMapping)| entry_triple(e))
}

pub open spec fn unique_triple_paths(ts: Seq<(Seq<char>, Seq<char>, Seq<char>)>) -> bool {
    forall|i: int, j: int| 0 <= i < j < ts.len() ==> ts[i].0 != ts[j].0
}

pub open spec fn enc_str(s: Seq<char>) -> Seq<u8> {
    spec_u64_to_le_bytes(encode_utf8(s).len() as u64) + encode_utf8(s)
}

pub open spec fn enc_triple(t: (Seq<char>, Seq<char>, Seq<char>)) -> Seq<u8> {
    enc_str(t.0) + enc_str(t.1) + enc_str(t.2)
}

pub open spec fn enc_triples(ts: Seq<(Seq<char>, Seq<char>, Seq<char>)>) -> Seq<u8>
    decreases ts.len(),
{
    if ts.len() == 0 {
        Seq::empty()
    } else {
        enc_triple(ts[0]) + enc_triples(ts.drop_first())
    }
}

/// The whole snapshot of a table whose entries carry these triples.
pub open spec fn spec_encode(ts: Seq<(Seq<char>, Seq<char>, Seq<char>)>) -> Seq<u8> {
    spec_u64_to_le_bytes(ts.len() as u64) + enc_triples(ts)
}

/// Parses one length-prefixed string; `None` on truncated or invalid input.
pub open spec fn dec_str(b: Seq<u8>) -> Option<(Seq<char>, Seq<u8>)> {
    if b.len() < 8 {
        None
    } else {
        let n = spec_u64_from_le_bytes(b.take(8)) as int;
        if b.len() - 8 < n {
            None
        } else {
            let data = b.subrange(8, 8 + n);
            if valid_utf8(data) {
                Some((decode_utf8(data), b.skip(8 + n)))
            } else {
                None
            }
        }
    }
}

pub open spec fn dec_triple(b: Seq<u8>) -> Option<((Seq<char>, Seq<char>, Seq<char>), Seq<u8>)> {
    match dec_str(b) {
        None => None,
        Some((p, b1)) => match dec_str(b1) {
            None => None,
            Some((t, b2)) => match dec_str(b2) {
                None => None,
                Some((c, b3)) => Some(((p, t, c), b3)),
            },
        },
    }
}

pub open spec fn dec_triples(b: Seq<u8>, n: nat) -> Option<
    (Seq<(Seq<char>, Seq<char>, Seq<char>)>, Seq<u8>),
>
    decreases n,
{
    if n == 0 {
        Some((Seq::empty(), b))
    } else {
        match dec_triple(b) {
            None => None,
            Some((t, b1)) => match dec_triples(b1, (n - 1) as nat) {
                None => None,
                Some((ts, b2)) => Some((seq![t] + ts, b2)),
            },
        }
    }
}

/// The snapshot a byte sequence stands for; `None` exactly on malformed
/// input: a truncated prefix, invalid UTF-8, trailing bytes, or a repeated
/// directory path.
pub open spec fn spec_decode(b: Seq<u8>) -> Option<Seq<(Seq<char>, Seq<char>, Seq<char>)>> {
    if b.len() < 8 {
        None
    } else {
        let n = spec_u64_from_le_bytes(b.take(8));
        match dec_triples(b.skip(8), n as nat) {
            None => None,
            Some((ts, rest)) => if rest.len() == 0 && unique_triple_paths(ts) {
                Some(ts)
            } else {
                None
            },
        }
    }
}

proof fn lemma_dec_enc_str(s: Seq<char>, rest: Seq<u8>)
    requires
        encode_utf8(s).len() < 0x10000000000000000,
    ensures
        dec_str(enc_str(s) + rest) == Some((s, rest)),
{
    lemma_auto_spec_u64_to_from_le_bytes();
    let data = encode_utf8(s);
    let b = enc_str(s) + rest;
    assert(b.take(8) =~= spec_u64_to_le_bytes(data.len() as u64));
    assert(spec_u64_from_le_bytes(b.take(8)) == data.len() as u64);
    assert(b.subrange(8, 8 + data.len() as int) =~= data);
    encode_utf8_valid_utf8(s);
    encode_utf8_decode_utf8(s);
    assert(b.skip(8 + data.len() as int) =~= rest);
}

/// Every string of this triple has an encoding whose length fits the prefix.
pub open spec fn triple_fits(t: (Seq<char>, Seq<char>, Seq<char>)) -> bool {
    &&& encode_utf8(t.0).len() < 0x10000000000000000
    &&& encode_utf8(t.1).len() < 0x10000000000000000
    &&& encode_utf8(t.2).len() < 0x10000000000000000
}

proof fn lemma_dec_enc_triple(t: (Seq<char>, Seq<char>, Seq<char>), rest: Seq<u8>)
    requires
        triple_fits(t),
    ensures
        dec_triple(enc_triple(t) + rest) == Some((t, rest)),
{
    assert(enc_triple(t) + rest =~= enc_str(t.0) + (enc_str(t.1) + (enc_str(t.2) + rest)));
    lemma_dec_enc_str(t.0, enc_str(t.1) + (enc_str(t.2) + rest));
    lemma_dec_enc_str(t.1, enc_str(t.2) + rest);
    lemma_dec_enc_str(t.2, rest);
}

proof fn lemma_dec_enc_triples(ts: Seq<(Seq<char>, Seq<char>, Seq<char>)>, rest: Seq<u8>)
    requires
        forall|i: int| 0 <= i < ts.len() ==> triple_fits(#[trigger] ts[i]),
    ensures
        dec_triples(enc_triples(ts) + rest, ts.len() as nat) == Some((ts, rest)),
    decreases ts.len(),
{
    if ts.len() == 0 {
        assert(enc_triples(ts) + rest =~= rest);
        assert(ts =~= Seq::<(Seq<char>, Seq<char>, Seq<char>)>::empty());
    } else {
        let tail = ts.drop_first();
        assert(enc_triples(ts) + rest =~= enc_triple(ts[0]) + (enc_triples(tail) + rest));
        lemma_dec_enc_triple(ts[0], enc_triples(tail) + rest);
        assert(forall|i: int| 0 <= i < tail.len() ==> triple_fits(#[trigger] tail[i])) by {
            assert(forall|i: int| 0 <= i < tail.len() ==> tail[i] == ts[i + 1]);
        }
        lemma_dec_enc_triples(tail, rest);
        assert(seq![ts[0]] + tail =~= ts);
    }
}

/// Law: a snapshot read back gives exactly the triples it was written from.
/// Serializing the table and then deserializing reproduces the same set of
/// (directory path, handler type name, handler config path) triples,
/// independent of the running state, which is not persisted.
pub proof fn lemma_snapshot_round_trip(ts: Seq<(Seq<char>, Seq<char>, Seq<char>)>)
    requires
        unique_triple_paths(ts),
        ts.len() < 0x10000000000000000,
        forall|i: int| 0 <= i < ts.len() ==> triple_fits(#[trigger] ts[i]),
    ensures
        spec_decode(spec_encode(ts)) == Some(ts),
{
    lemma_auto_spec_u64_to_from_le_bytes();
    let b = spec_encode(ts);
    assert(b.take(8) =~= spec_u64_to_le_bytes(ts.len() as u64));
    assert(spec_u64_from_le_bytes(b.take(8)) == ts.len() as u64);
    assert(b.skip(8) =~= enc_triples(ts) + Seq::<u8>::empty());
    lemma_dec_enc_triples(ts, Seq::empty());
}

proof fn lemma_enc_triples_snoc(ts: Seq<(Seq<char>, Seq<char>, Seq<char>)>, t: (
    Seq<char>,
    Seq<char>,
    Seq<char>,
))
    ensures
        enc_triples(ts.push(t)) == enc_triples(ts) + enc_triple(t),
    decreases ts.len(),
{
    if ts.len() == 0 {
        let single = ts.push(t);
        assert(single[0] == t);
        assert(single.drop_first() =~= Seq::<(Seq<char>, Seq<char>, Seq<char>)>::empty());
        assert(enc_triples(single.drop_first()) == Seq::<u8>::empty());
        assert(enc_triples(single) == enc_triple(t) + Seq::<u8>::empty());
        assert(enc_triple(t) + Seq::<u8>::empty() =~= Seq::<u8>::empty() + enc_triple(t));
        assert(enc_triples(ts) == Seq::<u8>::empty());
    } else {
        assert(ts.push(t).drop_first() =~= ts.drop_first().push(t));
        assert(ts.push(t)[0] == ts[0]);
        lemma_enc_triples_snoc(ts.drop_first(), t);
        assert(enc_triple(ts[0]) + (enc_triples(ts.drop_first()) + enc_triple(t)) =~= (enc_triple(
            ts[0],
        ) + enc_triples(ts.drop_first())) + enc_triple(t));
    }
}

/// Appends one length-prefixed string to the output.
fn encode_string_into(out: &mut Vec<u8>, s: &String)
    ensures
        final(out)@ == old(out)@ + enc_str(s@),
        encode_utf8(s@).len() < 0x10000000000000000,
{
    let ghost o0 = out@;
    let data = s.as_str().as_bytes_vec();
    let len_bytes = u64_to_le_bytes(data.len() as u64);
    out.extend_from_slice(len_bytes.as_slice());
    assert(out@ =~= o0 + spec_u64_to_le_bytes(data@.len() as u64));
    out.extend_from_slice(data.as_slice());
    assert(out@ =~= o0 + enc_str(s@));
}

/// Relies on String::from_utf8: it returns a string exactly when the bytes
/// are valid UTF-8, and that string's UTF-8 encoding is those bytes.
#[verifier::external_body]
fn string_from_utf8(bytes: Vec<u8>) -> (r: Option<String>)
    ensures
        r is Some <==> valid_utf8(bytes@),
        r matches Some(s) ==> encode_utf8(s@) == bytes@,
{
    match String::from_utf8(bytes) {
        Ok(s) => Some(s),
        Err(_) => None,
    }
}

/// Parses one length-prefixed string starting at byte `i`; on success also
/// returns the position just past it.
fn read_string(bytes: &Vec<u8>, i: usize) -> (r: Option<(String, usize)>)
    requires
        i <= bytes@.len(),
    ensures
        match r {
            Some(sj) => {
                &&& i < sj.1 <= bytes@.len()
                &&& dec_str(bytes@.skip(i as int)) == Some((sj.0@, bytes@.skip(sj.1 as int)))
            },
            None => dec_str(bytes@.skip(i as int)) is None,
        },
{
    let total = bytes.len();
    let ghost suffix = bytes@.skip(i as int);
    if total - i < 8 {
        return None;
    }
    let len_slice = slice_subrange(bytes.as_slice(), i, i + 8);
    let n64 = u64_from_le_bytes(len_slice);
    proof {
        assert(suffix.take(8) =~= bytes@.subrange(i as int, i as int + 8));
    }
    if n64 > (total - (i + 8)) as u64 {
        return None;
    }
    let n = n64 as usize;
    let data_slice = slice_subrange(bytes.as_slice(), i + 8, i + 8 + n);
    let data = slice_to_vec(data_slice);
    proof {
        assert(suffix.subrange(8, 8 + n as int) =~= bytes@.subrange(
            i as int + 8,
            i as int + 8 + n as int,
        ));
    }
    match string_from_utf8(data) {
        Some(s) => {
            proof {
                encode_utf8_decode_utf8(s@);
                assert(suffix.skip(8 + n as int) =~= bytes@.skip(i as int + 8 + n as int));
            }
            Some((s, i + 8 + n))
        },
        None => None,
    }
}

impl Mapping {
    /// Serializes the whole table; the result deserializes back to exactly
    /// this table's triples.
    pub fn to_bytes(&self) -> (r: Vec<u8>)
        requires
            self.wf(),
        ensures
            r@ == spec_encode(triples_of(self.directory_mapping@)),
            spec_decode(r@) == Some(triples_of(self.directory_mapping@)),
    {
        let n = self.directory_mapping.len();
        let mut out: Vec<u8> = u64_to_le_bytes(n as u64);
        let mut i: usize = 0;
        while i < n
            invariant
                self.wf(),
                n == self.directory_mapping@.len(),
                0 <= i <= n,
                out@ == spec_u64_to_le_bytes(n as u64) + enc_triples(
                    triples_of(self.directory_mapping@.take(i as int)),
                ),
                forall|j: int|
                    0 <= j < i ==> triple_fits(
                        #[trigger] triples_of(self.directory_mapping@)[j],
                    ),
            decreases n - i,
        {
            let ghost prefix = triples_of(self.directory_mapping@.take(i as int));
            let entry = &self.directory_mapping[i];
            encode_string_into(&mut out, &entry.0);
            encode_string_into(&mut out, &entry.1.handler_type_name);
            encode_string_into(&mut out, &entry.1.handler_config_path);
            proof {
                let t = entry_triple(self.directory_mapping@[i as int]);
                lemma_enc_triples_snoc(prefix, t);
                assert(triples_of(self.directory_mapping@.take(i as int + 1)) =~= prefix.push(t));
                assert(out@ =~= spec_u64_to_le_bytes(n as u64) + enc_triples(prefix.push(t)));
                assert(triples_of(self.directory_mapping@)[i as int] == t);
            }
            i += 1;
        }
        proof {
            let ts = triples_of(self.directory_mapping@);
            assert(self.directory_mapping@.take(n as int) =~= self.directory_mapping@);
            assert(unique_triple_paths(ts)) by {
                assert(forall|a: int|
                    0 <= a < ts.len() ==> ts[a].0 == self.directory_mapping@[a].0@);
            }
            lemma_snapshot_round_trip(ts);
        }
        out
    }

    /// Reads a snapshot back into a table: the triples the bytes encode, no
    /// directory running.  Malformed input fails with `MappingCorrupt`; the
    /// caller falls back to an empty table with a warning, never fatally.
    pub fn from_bytes(bytes: &Vec<u8>) -> (r: Result<Mapping, HandlerServiceError>)
        ensures
            match r {
                Ok(m) => {
                    &&& m.wf()
                    &&& spec_decode(bytes@) == Some(triples_of(m.directory_mapping@))
                    &&& forall|j: int|
                        0 <= j < m.directory_mapping@.len()
                            ==> !(#[trigger] m.directory_mapping@[j]).1.running
                },
                Err(e) => e is MappingCorrupt && spec_decode(bytes@) is None,
            },
    {
        let total = bytes.len();
        if total < 8 {
            return Err(HandlerServiceError::MappingCorrupt);
        }
        let count = u64_from_le_bytes(slice_subrange(bytes.as_slice(), 0, 8));
        proof {
            assert(bytes@.take(8) =~= bytes@.subrange(0, 8));
        }
        let mut entries: Vec<(String, HandlerMapping)> = Vec::new();
        let mut i: usize = 8;
        let mut k: u64 = 0;
        while k < count
            invariant
                8 <= i <= bytes@.len(),
                bytes@.len() >= 8,
                count == spec_u64_from_le_bytes(bytes@.take(8)),
                0 <= k <= count,
                entries@.len() == k as nat,
                forall|j: int| 0 <= j < entries@.len() ==> !(#[trigger] entries@[j]).1.running,
                dec_triples(bytes@.skip(8), count as nat) == (match dec_triples(
                    bytes@.skip(i as int),
                    (count - k) as nat,
                ) {
                    None => None::<(Seq<(Seq<char>, Seq<char>, Seq<char>)>, Seq<u8>)>,
                    Some(tsr) => Some((triples_of(entries@) + tsr.0, tsr.1)),
                }),
            decreases count - k,
        {
            let ghost old_entries = entries@;
            let ghost i0 = i as int;
            let (p, i1) = match read_string(bytes, i) {
                Some(x) => x,
                None => {
                    return Err(HandlerServiceError::MappingCorrupt);
                },
            };
            let (t, i2) = match read_string(bytes, i1) {
                Some(x) => x,
                None => {
                    return Err(HandlerServiceError::MappingCorrupt);
                },
            };
            let (c, i3) = match read_string(bytes, i2) {
                Some(x) => x,
                None => {
                    return Err(HandlerServiceError::MappingCorrupt);
                },
            };
            proof {
                let tr = (p@, t@, c@);
                assert(dec_triple(bytes@.skip(i0)) == Some((tr, bytes@.skip(i3 as int))));
            }
            entries.push(
                (
                    p,
                    HandlerMapping {
                        running: false,
                        handler_type_name: t,
                        handler_config_path: c,
                    },
                ),
            );
            proof {
                assert(triples_of(entries@) =~= triples_of(old_entries).push(
                    entry_triple(entries@.last()),
                ));
                match dec_triples(bytes@.skip(i3 as int), (count - k - 1) as nat) {
                    None => {},
                    Some(tsr) => {
                        assert(triples_of(old_entries) + (seq![entry_triple(entries@.last())]
                            + tsr.0) =~= triples_of(entries@) + tsr.0);
                    },
                }
            }
            i = i3;
            k = k + 1;
        }
        if i != total {
            proof {
                match dec_triples(bytes@.skip(8), count as nat) {
                    None => {},
                    Some(tsr) => {
                        assert(tsr.1.len() > 0);
                    },
                }
            }
            return Err(HandlerServiceError::MappingCorrupt);
        }
        proof {
            assert(bytes@.skip(i as int) =~= Seq::<u8>::empty());
            assert(triples_of(entries@) + Seq::<(Seq<char>, Seq<char>, Seq<char>)>::empty()
                =~= triples_of(entries@));
        }
        assert(dec_triples(bytes@.skip(8), count as nat) == Some(
            (triples_of(entries@), Seq::<u8>::empty()),
        ));
        // A repeated directory path makes the snapshot ambiguous: corrupt.
        let n_entries = entries.len();
        let mut a: usize = 0;
        while a < n_entries
            invariant
                n_entries == entries@.len(),
                0 <= a <= n_entries,
                bytes@.len() >= 8,
                count == spec_u64_from_le_bytes(bytes@.take(8)),
                dec_triples(bytes@.skip(8), count as nat) == Some(
                    (triples_of(entries@), Seq::<u8>::empty()),
                ),
                forall|j: int| 0 <= j < entries@.len() ==> !(#[trigger] entries@[j]).1.running,
                forall|x: int, y: int| 0 <= x < y < a ==> entries@[x].0@ != entries@[y].0@,
            decreases n_entries - a,
        {
            let mut b: usize = 0;
            while b < a
                invariant
                    n_entries == entries@.len(),
                    0 <= b <= a < n_entries,
                    bytes@.len() >= 8,
                    count == spec_u64_from_le_bytes(bytes@.take(8)),
                    dec_triples(bytes@.skip(8), count as nat) == Some(
                        (triples_of(entries@), Seq::<u8>::empty()),
                    ),
                    forall|x: int, y: int| 0 <= x < y < a ==> entries@[x].0@ != entries@[y].0@,
                    forall|x: int| 0 <= x < b ==> entries@[x].0@ != entries@[a as int].0@,
                decreases a - b,
            {
                if entries[b].0 == entries[a].0 {
                    proof {
                        let ts = triples_of(entries@);
                        assert(ts[b as int].0 == ts[a as int].0);
                        assert(!unique_triple_paths(ts));
                    }
                    return Err(HandlerServiceError::MappingCorrupt);
                }
                b += 1;
            }
            a += 1;
        }
        proof {
            assert(unique_triple_paths(triples_of(entries@))) by {
                assert(forall|x: int|
                    0 <= x < entries@.len() ==> triples_of(entries@)[x].0 == entries@[x].0@);
            }
        }
        Ok(Mapping { directory_mapping: entries })
    }
}

} // verus!
