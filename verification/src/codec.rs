//! The stored byte form of a player record, with its encoder and decoder.
//!
//! A record is stored as: an optional identifier, then an optional rating
//! list written as a 64-bit little-endian count followed by one optional
//! 64-bit count per category. An optional 64-bit value is one tag byte
//! (`0` absent, `1` present) followed, when present, by eight
//! little-endian bytes.

use vstd::prelude::*;

use crate::record::{PlayerRecord, RatingEntry, RecordModel};
use crate::LedgerError;

verus! {

/// The eight little-endian bytes of a 64-bit value.
pub open spec fn u64_le_bytes(v: u64) -> Seq<u8> {
    seq![
        v as u8,
        (v >> 8) as u8,
        (v >> 16) as u8,
        (v >> 24) as u8,
        (v >> 32) as u8,
        (v >> 40) as u8,
        (v >> 48) as u8,
        (v >> 56) as u8,
    ]
}

/// The 64-bit value read back from eight little-endian bytes.
pub open spec fn u64_from_le(b: Seq<u8>) -> u64
    recommends
        b.len() == 8,
{
    (b[0] as u64) | ((b[1] as u64) << 8) | ((b[2] as u64) << 16) | ((b[3] as u64) << 24)
        | ((b[4] as u64) << 32) | ((b[5] as u64) << 40) | ((b[6] as u64) << 48)
        | ((b[7] as u64) << 56)
}

pub proof fn lemma_u64_le_round_trip(v: u64)
    ensures
        u64_from_le(u64_le_bytes(v)) == v,
{
    assert(((v as u8) as u64) | ((((v >> 8) as u8) as u64) << 8) | ((((v >> 16) as u8) as u64)
        << 16) | ((((v >> 24) as u8) as u64) << 24) | ((((v >> 32) as u8) as u64) << 32) | ((((v
        >> 40) as u8) as u64) << 40) | ((((v >> 48) as u8) as u64) << 48) | ((((v >> 56) as u8)
        as u64) << 56) == v) by (bit_vector);
}

/// The encoding of one optional 64-bit value.
pub open spec fn spec_enc_opt(o: Option<u64>) -> Seq<u8> {
    match o {
        None => seq![0u8],
        Some(v) => seq![1u8] + u64_le_bytes(v),
    }
}

/// The encoding of a rating list's entries, one after the other.
pub open spec fn spec_enc_entries(s: Seq<Option<u64>>) -> Seq<u8>
    decreases s.len(),
{
    if s.len() == 0 {
        Seq::empty()
    } else {
        spec_enc_opt(s.first()) + spec_enc_entries(s.drop_first())
    }
}

/// The stored byte form of a record model.
pub open spec fn spec_encode(m: RecordModel) -> Seq<u8> {
    spec_enc_opt(m.id) + (match m.ratings {
        None => seq![0u8],
        Some(s) => seq![1u8] + u64_le_bytes(s.len() as u64) + spec_enc_entries(s),
    })
}

/// Parse one optional 64-bit value off the front of a byte sequence,
/// yielding the value and the unread rest.
pub open spec fn spec_dec_opt(s: Seq<u8>) -> Option<(Option<u64>, Seq<u8>)> {
    if s.len() >= 1 && s[0] == 0u8 {
        Some((None, s.drop_first()))
    } else if s.len() >= 9 && s[0] == 1u8 {
        Some((Some(u64_from_le(s.subrange(1, 9))), s.skip(9)))
    } else {
        None
    }
}

/// Parse exactly `n` optional 64-bit values off the front of a byte
/// sequence, yielding them and the unread rest.
pub open spec fn spec_dec_entries(s: Seq<u8>, n: nat) -> Option<(Seq<Option<u64>>, Seq<u8>)>
    decreases n,
{
    if n == 0 {
        Some((Seq::empty(), s))
    } else {
        match spec_dec_opt(s) {
            Some(head) => match spec_dec_entries(head.1, (n - 1) as nat) {
                Some(tail) => Some((seq![head.0] + tail.0, tail.1)),
                None => None,
            },
            None => None,
        }
    }
}

/// The record model a byte sequence decodes to, or nothing when the bytes
/// are not exactly the encoding of one record.
pub open spec fn spec_decode(s: Seq<u8>) -> Option<RecordModel> {
    match spec_dec_opt(s) {
        None => None,
        Some(head) => {
            let id = head.0;
            let r1 = head.1;
            if r1.len() >= 1 && r1[0] == 0u8 {
                if r1.len() == 1 {
                    Some(RecordModel { id: id, ratings: None })
                } else {
                    None
                }
            } else if r1.len() >= 9 && r1[0] == 1u8 {
                let n = u64_from_le(r1.subrange(1, 9));
                match spec_dec_entries(r1.skip(9), n as nat) {
                    Some(tail) => if tail.1.len() == 0 {
                        Some(RecordModel { id: id, ratings: Some(tail.0) })
                    } else {
                        None
                    },
                    None => None,
                }
            } else {
                None
            }
        }
    }
}

pub proof fn lemma_dec_opt_enc(o: Option<u64>, rest: Seq<u8>)
    ensures
        spec_dec_opt(spec_enc_opt(o) + rest) == Some((o, rest)),
{
    let s = spec_enc_opt(o) + rest;
    match o {
        None => {
            assert(s[0] == 0u8);
            assert(s.drop_first() =~= rest);
        }
        Some(v) => {
            assert(s[0] == 1u8);
            assert(s.len() >= 9);
            assert(s.subrange(1, 9) =~= u64_le_bytes(v));
            lemma_u64_le_round_trip(v);
            assert(s.skip(9) =~= rest);
        }
    }
}

pub proof fn lemma_dec_entries_enc(s: Seq<Option<u64>>, rest: Seq<u8>)
    ensures
        spec_dec_entries(spec_enc_entries(s) + rest, s.len()) == Some((s, rest)),
    decreases s.len(),
{
    if s.len() == 0 {
        assert(spec_enc_entries(s) + rest =~= rest);
    } else {
        let tail_enc = spec_enc_entries(s.drop_first()) + rest;
        assert(spec_enc_entries(s) + rest =~= spec_enc_opt(s.first()) + tail_enc);
        lemma_dec_opt_enc(s.first(), tail_enc);
        lemma_dec_entries_enc(s.drop_first(), rest);
        assert(seq![s.first()] + s.drop_first() =~= s);
    }
}

/// Decoding inverts encoding: any record model whose rating list fits the
/// 64-bit length field decodes from its own encoding, and to nothing else.
pub proof fn lemma_encode_decode(m: RecordModel)
    requires
        m.ratings matches Some(s) ==> s.len() <= u64::MAX,
    ensures
        spec_decode(spec_encode(m)) == Some(m),
{
    match m.ratings {
        None => {
            lemma_dec_opt_enc(m.id, seq![0u8]);
        }
        Some(s) => {
            let tail = (seq![1u8] + u64_le_bytes(s.len() as u64)) + spec_enc_entries(s);
            assert(spec_encode(m) =~= spec_enc_opt(m.id) + tail);
            lemma_dec_opt_enc(m.id, tail);
            assert(tail[0] == 1u8);
            assert(tail.len() >= 9);
            assert(tail.subrange(1, 9) =~= u64_le_bytes(s.len() as u64));
            lemma_u64_le_round_trip(s.len() as u64);
            assert((s.len() as u64) as nat == s.len());
            assert(tail.skip(9) =~= spec_enc_entries(s) + Seq::<u8>::empty());
            lemma_dec_entries_enc(s, Seq::empty());
        }
    }
}

fn push_u64_le(out: &mut Vec<u8>, v: u64)
    ensures
        final(out)@ == old(out)@ + u64_le_bytes(v),
{
    out.push(v as u8);
    out.push((v >> 8) as u8);
    out.push((v >> 16) as u8);
    out.push((v >> 24) as u8);
    out.push((v >> 32) as u8);
    out.push((v >> 40) as u8);
    out.push((v >> 48) as u8);
    out.push((v >> 56) as u8);
    proof {
        assert(out@ =~= old(out)@ + u64_le_bytes(v));
    }
}

fn push_opt_u64(out: &mut Vec<u8>, o: Option<u64>)
    ensures
        final(out)@ == old(out)@ + spec_enc_opt(o),
{
    match o {
        None => {
            out.push(0u8);
            proof {
                assert(out@ =~= old(out)@ + spec_enc_opt(o));
            }
        }
        Some(v) => {
            out.push(1u8);
            push_u64_le(out, v);
            proof {
                assert(out@ =~= old(out)@ + spec_enc_opt(o));
            }
        }
    }
}

proof fn lemma_enc_entries_snoc(s: Seq<Option<u64>>, e: Option<u64>)
    ensures
        spec_enc_entries(s.push(e)) == spec_enc_entries(s) + spec_enc_opt(e),
    decreases s.len(),
{
    if s.len() == 0 {
        assert(s.push(e).first() == e);
        assert(s.push(e).drop_first() =~= Seq::<Option<u64>>::empty());
        assert(spec_enc_entries(s.push(e)) == spec_enc_opt(e) + spec_enc_entries(
            Seq::<Option<u64>>::empty(),
        ));
        assert(spec_enc_entries(Seq::<Option<u64>>::empty()) == Seq::<u8>::empty());
        assert(spec_enc_opt(e) + Seq::<u8>::empty() =~= Seq::<u8>::empty() + spec_enc_opt(e));
        assert(spec_enc_entries(s) == Seq::<u8>::empty());
    } else {
        let a = spec_enc_opt(s.first());
        let b = spec_enc_entries(s.drop_first());
        let c = spec_enc_opt(e);
        assert(s.push(e).first() == s.first());
        assert(s.push(e).drop_first() =~= s.drop_first().push(e));
        lemma_enc_entries_snoc(s.drop_first(), e);
        assert(spec_enc_entries(s.push(e)) == a + (b + c));
        assert(a + (b + c) =~= (a + b) + c);
        assert(spec_enc_entries(s) == a + b);
    }
}

/// Encode a player record into its stored byte form.
pub fn serialize_player_response(player: &PlayerRecord) -> (out: Vec<u8>)
    ensures
        out@ == spec_encode(player@),
{
    let mut out: Vec<u8> = Vec::new();
    push_opt_u64(&mut out, player.id);
    match &player.ratings {
        None => {
            out.push(0u8);
            proof {
                assert(out@ =~= spec_encode(player@));
            }
        }
        Some(entries) => {
            let ghost s: Seq<Option<u64>> = entries@.map_values(|e: RatingEntry| e.match_count);
            out.push(1u8);
            push_u64_le(&mut out, entries.len() as u64);
            let ghost prefix = out@;
            let mut i: usize = 0;
            while i < entries.len()
                invariant
                    i <= entries@.len(),
                    s == entries@.map_values(|e: RatingEntry| e.match_count),
                    out@ == prefix + spec_enc_entries(s.take(i as int)),
                decreases entries@.len() - i,
            {
                let c: Option<u64> = entries[i].match_count;
                proof {
                    assert(c == s[i as int]);
                }
                push_opt_u64(&mut out, c);
                proof {
                    assert(s.take(i + 1) =~= s.take(i as int).push(s[i as int]));
                    lemma_enc_entries_snoc(s.take(i as int), s[i as int]);
                    assert(out@ =~= prefix + spec_enc_entries(s.take(i + 1)));
                }
                i = i + 1;
            }
            proof {
                assert(s.take(entries@.len() as int) =~= s);
                assert((s.len() as u64) == (entries.len() as u64));
                assert(out@ =~= spec_encode(player@));
            }
        }
    }
    out
}

fn read_u64_le(data: &Vec<u8>, pos: usize) -> (v: u64)
    requires
        pos + 8 <= data@.len(),
        data@.len() <= usize::MAX,
    ensures
        v == u64_from_le(data@.subrange(pos as int, pos as int + 8)),
{
    let v = (data[pos] as u64) | ((data[pos + 1] as u64) << 8) | ((data[pos + 2] as u64) << 16)
        | ((data[pos + 3] as u64) << 24) | ((data[pos + 4] as u64) << 32) | ((data[pos + 5]
        as u64) << 40) | ((data[pos + 6] as u64) << 48) | ((data[pos + 7] as u64) << 56);
    proof {
        let b = data@.subrange(pos as int, pos as int + 8);
        assert(b[0] == data@[pos as int]);
        assert(b[1] == data@[pos as int + 1]);
        assert(b[2] == data@[pos as int + 2]);
        assert(b[3] == data@[pos as int + 3]);
        assert(b[4] == data@[pos as int + 4]);
        assert(b[5] == data@[pos as int + 5]);
        assert(b[6] == data@[pos as int + 6]);
        assert(b[7] == data@[pos as int + 7]);
    }
    v
}

fn read_opt_u64(data: &Vec<u8>, pos: usize) -> (r: Option<(Option<u64>, usize)>)
    requires
        pos <= data@.len(),
    ensures
        match r {
            Some(p) => pos < p.1 && p.1 <= data@.len() && spec_dec_opt(data@.skip(pos as int))
                == Some((p.0, data@.skip(p.1 as int))),
            None => spec_dec_opt(data@.skip(pos as int)) is None,
        },
{
    if pos < data.len() {
        let tag = data[pos];
        if tag == 0 {
            proof {
                assert(data@.skip(pos as int).drop_first() =~= data@.skip(pos as int + 1));
            }
            Some((None, pos + 1))
        } else if tag == 1 {
            if data.len() - pos >= 9 {
                let v = read_u64_le(data, pos + 1);
                proof {
                    assert(data@.skip(pos as int).subrange(1, 9) =~= data@.subrange(
                        pos as int + 1,
                        pos as int + 9,
                    ));
                    assert(data@.skip(pos as int).skip(9) =~= data@.skip(pos as int + 9));
                }
                Some((Some(v), pos + 9))
            } else {
                None
            }
        } else {
            None
        }
    } else {
        None
    }
}

/// Decode a stored byte sequence back into a player record; bytes that are
/// not exactly the encoding of one record are reported as corrupt.
pub fn deserialize_player_response(data: &Vec<u8>) -> (r: Result<PlayerRecord, LedgerError>)
    ensures
        r matches Ok(rec) ==> spec_decode(data@) == Some(rec@),
        r matches Err(e) ==> spec_decode(data@) is None && e matches LedgerError::Encoding,
{
    proof {
        assert(data@.skip(0) =~= data@);
    }
    match read_opt_u64(data, 0) {
        None => Err(LedgerError::Encoding),
        Some((id, p1)) => {
            let ghost r1 = data@.skip(p1 as int);
            if p1 >= data.len() {
                return Err(LedgerError::Encoding);
            }
            let tag = data[p1];
            proof {
                assert(r1[0] == tag);
            }
            if tag == 0 {
                if p1 + 1 == data.len() {
                    Ok(PlayerRecord { id, ratings: None })
                } else {
                    Err(LedgerError::Encoding)
                }
            } else if tag == 1 {
                if data.len() - p1 < 9 {
                    return Err(LedgerError::Encoding);
                }
                let n = read_u64_le(data, p1 + 1);
                proof {
                    assert(r1.subrange(1, 9) =~= data@.subrange(p1 as int + 1, p1 as int + 9));
                    assert(r1.skip(9) =~= data@.skip(p1 as int + 9));
                }
                let ghost r9 = data@.skip(p1 as int + 9);
                let mut entries: Vec<RatingEntry> = Vec::new();
                let mut p: usize = p1 + 9;
                let mut i: u64 = 0;
                #[verifier::loop_isolation(false)]
                while i < n
                    invariant
                        p1 as int + 9 <= p as int <= data@.len(),
                        i <= n,
                        entries@.len() == i,
                        r9 == data@.skip(p1 as int + 9),
                        spec_dec_entries(r9, n as nat) == (match spec_dec_entries(
                            data@.skip(p as int),
                            (n - i) as nat,
                        ) {
                            Some(t) => Some(
                                (entries@.map_values(|e: RatingEntry| e.match_count) + t.0, t.1),
                            ),
                            None => None::<(Seq<Option<u64>>, Seq<u8>)>,
                        }),
                    decreases n - i,
                {
                    let ghost em = entries@.map_values(|e: RatingEntry| e.match_count);
                    match read_opt_u64(data, p) {
                        None => {
                            proof {
                                assert(spec_dec_entries(data@.skip(p as int), (n - i) as nat)
                                    is None);
                            }
                            return Err(LedgerError::Encoding);
                        }
                        Some((o, p2)) => {
                            proof {
                                let rest = data@.skip(p2 as int);
                                assert(spec_dec_entries(data@.skip(p as int), (n - i) as nat)
                                    == (match spec_dec_entries(rest, (n - i - 1) as nat) {
                                    Some(t) => Some((seq![o] + t.0, t.1)),
                                    None => None::<(Seq<Option<u64>>, Seq<u8>)>,
                                }));
                            }
                            entries.push(RatingEntry { match_count: o });
                            proof {
                                assert(entries@.map_values(|e: RatingEntry| e.match_count) =~= em
                                    + seq![o]);
                                assert(forall|t0: Seq<Option<u64>>|
                                    (em + seq![o]) + t0 =~= em + (seq![o] + t0));
                            }
                            p = p2;
                            i = i + 1;
                        }
                    }
                }
                proof {
                    assert(spec_dec_entries(data@.skip(p as int), 0) == Some(
                        (Seq::<Option<u64>>::empty(), data@.skip(p as int)),
                    ));
                    assert(entries@.map_values(|e: RatingEntry| e.match_count)
                        + Seq::<Option<u64>>::empty() =~= entries@.map_values(
                        |e: RatingEntry| e.match_count,
                    ));
                }
                if p == data.len() {
                    proof {
                        assert(data@.skip(p as int).len() == 0);
                    }
                    Ok(PlayerRecord { id, ratings: Some(entries) })
                } else {
                    proof {
                        assert(data@.skip(p as int).len() > 0);
                    }
                    Err(LedgerError::Encoding)
                }
            } else {
                Err(LedgerError::Encoding)
            }
        }
    }
}

} // verus!
