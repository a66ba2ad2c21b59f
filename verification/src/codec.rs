use vstd::prelude::*;

use vstd::bytes::{
    lemma_auto_spec_u64_to_from_le_bytes, spec_u64_from_le_bytes, spec_u64_to_le_bytes,
    u64_from_le_bytes, u64_to_le_bytes,
};
use vstd::slice::slice_subrange;

use crate::ledger::{contains_key, copy_bytes, index_of_key, unique_keys, TradeLedger};
use crate::trade::{EnergyTrade, TradeSide};

verus! {

// The persisted wire form of the ledger, one row after the other:
//   8 bytes   key length, little endian
//   n bytes   participant key
//   1 byte    side (0 push, 1 request)
//   8 bytes   energy amount, little endian
//   8 bytes   currency paid, little endian
// The host state store persists this byte string; nothing downstream of the
// ledger interface sees the encoding.

/// The wire code of a trade side.
pub open spec fn side_code(s: TradeSide) -> u8 {
    match s {
        TradeSide::Push => 0,
        TradeSide::Request => 1,
    }
}

/// The wire form of one ledger row.
pub open spec fn spec_encode_entry(e: (Seq<u8>, EnergyTrade)) -> Seq<u8> {
    spec_u64_to_le_bytes(e.0.len() as u64) + e.0 + seq![side_code(e.1.side)]
        + spec_u64_to_le_bytes(e.1.energy_amount) + spec_u64_to_le_bytes(e.1.currency_paid)
}

/// The wire form of a whole ledger view, rows in order.
pub open spec fn spec_encode(s: Seq<(Seq<u8>, EnergyTrade)>) -> Seq<u8>
    decreases s.len(),
{
    if s.len() == 0 {
        Seq::empty()
    } else {
        spec_encode_entry(s[0]) + spec_encode(s.drop_first())
    }
}

/// Reads one row off the front of `b`: the row and the remaining bytes, or
/// `None` where `b` does not start with a well-formed row.
pub open spec fn spec_decode_entry(b: Seq<u8>) -> Option<((Seq<u8>, EnergyTrade), Seq<u8>)> {
    if b.len() < 8 {
        None
    } else {
        let n = spec_u64_from_le_bytes(b.take(8)) as int;
        if b.len() < 25 + n {
            None
        } else {
            let sb = b[8 + n];
            if sb != 0u8 && sb != 1u8 {
                None
            } else {
                let t = EnergyTrade {
                    side: if sb == 0u8 {
                        TradeSide::Push
                    } else {
                        TradeSide::Request
                    },
                    energy_amount: spec_u64_from_le_bytes(b.subrange(9 + n, 17 + n)),
                    currency_paid: spec_u64_from_le_bytes(b.subrange(17 + n, 25 + n)),
                };
                Some(((b.subrange(8, 8 + n), t), b.skip(25 + n)))
            }
        }
    }
}

/// Reads a whole ledger view back from its wire form; `None` where any row
/// is malformed or bytes trail the last row.
pub open spec fn spec_decode(b: Seq<u8>) -> Option<Seq<(Seq<u8>, EnergyTrade)>>
    decreases b.len(),
{
    if b.len() == 0 {
        Some(Seq::empty())
    } else {
        match spec_decode_entry(b) {
            None => None,
            Some(er) => {
                if er.1.len() < b.len() {
                    match spec_decode(er.1) {
                        None => None,
                        Some(s) => Some(seq![er.0] + s),
                    }
                } else {
                    None
                }
            },
        }
    }
}

/// What `decode_ledger` accepts: a well-formed row sequence whose keys are
/// unique, as a ledger's invariant demands.
pub open spec fn spec_decode_ledger(b: Seq<u8>) -> Option<Seq<(Seq<u8>, EnergyTrade)>> {
    match spec_decode(b) {
        None => None,
        Some(s) => if unique_keys(s) {
            Some(s)
        } else {
            None
        },
    }
}

/// Reading a row off an encoded row followed by anything yields that row
/// and leaves exactly the trailing bytes.
pub proof fn lemma_decode_entry_of_encoded(e: (Seq<u8>, EnergyTrade), tail: Seq<u8>)
    requires
        e.0.len() <= u64::MAX,
    ensures
        spec_decode_entry(spec_encode_entry(e) + tail) == Some((e, tail)),
{
    lemma_auto_spec_u64_to_from_le_bytes();
    let b = spec_encode_entry(e) + tail;
    let n = e.0.len() as int;
    assert(spec_u64_to_le_bytes(e.0.len() as u64).len() == 8);
    assert(spec_encode_entry(e).len() == 25 + n);
    assert(b.take(8) =~= spec_u64_to_le_bytes(e.0.len() as u64));
    assert(spec_u64_from_le_bytes(b.take(8)) == e.0.len() as u64);
    assert(b.subrange(8, 8 + n) =~= e.0);
    assert(b[8 + n] == side_code(e.1.side));
    assert(b.subrange(9 + n, 17 + n) =~= spec_u64_to_le_bytes(e.1.energy_amount));
    assert(b.subrange(17 + n, 25 + n) =~= spec_u64_to_le_bytes(e.1.currency_paid));
    assert(b.skip(25 + n) =~= tail);
    match e.1.side {
        TradeSide::Push => {
            assert(side_code(e.1.side) == 0u8);
        },
        TradeSide::Request => {
            assert(side_code(e.1.side) == 1u8);
        },
    }
}

/// Appending a row to a view appends that row's wire form.
pub proof fn lemma_encode_snoc(s: Seq<(Seq<u8>, EnergyTrade)>, e: (Seq<u8>, EnergyTrade))
    ensures
        spec_encode(s.push(e)) == spec_encode(s) + spec_encode_entry(e),
    decreases s.len(),
{
    if s.len() == 0 {
        assert(s.push(e).drop_first() =~= Seq::<(Seq<u8>, EnergyTrade)>::empty());
        assert(s.push(e)[0] == e);
        assert(spec_encode(s.push(e)) == spec_encode_entry(e) + spec_encode(
            s.push(e).drop_first(),
        ));
        assert(spec_encode(s.push(e)) =~= spec_encode(s) + spec_encode_entry(e));
    } else {
        assert(s.push(e).drop_first() =~= s.drop_first().push(e));
        assert(s.push(e)[0] == s[0]);
        lemma_encode_snoc(s.drop_first(), e);
        assert(spec_encode_entry(s[0]) + (spec_encode(s.drop_first()) + spec_encode_entry(e)) =~= (
        spec_encode_entry(s[0]) + spec_encode(s.drop_first())) + spec_encode_entry(e));
    }
}

/// Law: decoding an encoded row sequence yields exactly that sequence.
pub proof fn lemma_decode_of_encoded(s: Seq<(Seq<u8>, EnergyTrade)>)
    requires
        forall|i: int| 0 <= i < s.len() ==> (#[trigger] s[i]).0.len() <= u64::MAX,
    ensures
        spec_decode(spec_encode(s)) == Some(s),
    decreases s.len(),
{
    if s.len() == 0 {
        assert(s =~= Seq::<(Seq<u8>, EnergyTrade)>::empty());
    } else {
        let rest = s.drop_first();
        let tail = spec_encode(rest);
        lemma_decode_entry_of_encoded(s[0], tail);
        let b = spec_encode(s);
        assert(spec_encode_entry(s[0]).len() == 25 + s[0].0.len()) by {
            lemma_auto_spec_u64_to_from_le_bytes();
        }
        assert(b.len() >= 25);
        assert forall|i: int| 0 <= i < rest.len() implies (#[trigger] rest[i]).0.len()
            <= u64::MAX by {
            assert(rest[i] == s[i + 1]);
        }
        lemma_decode_of_encoded(rest);
        assert(seq![s[0]] + rest =~= s);
    }
}

/// Law: the ledger's wire form deserializes back to the identical mapping.
/// Each well-formed ledger round-trips through `spec_encode` and
/// `spec_decode_ledger` unchanged.
pub proof fn lemma_ledger_codec_round_trip(l: TradeLedger)
    requires
        l.wf(),
        forall|i: int| 0 <= i < l@.len() ==> (#[trigger] l@[i]).0.len() <= u64::MAX,
    ensures
        spec_decode_ledger(spec_encode(l@)) == Some(l@),
{
    lemma_decode_of_encoded(l@);
}

/// Appends raw bytes to the output being built.
fn push_bytes(out: &mut Vec<u8>, b: &[u8])
    ensures
        final(out)@ == old(out)@ + b@,
{
    let mut i: usize = 0;
    while i < b.len()
        invariant
            0 <= i <= b@.len(),
            out@ =~= old(out)@ + b@.take(i as int),
        decreases b@.len() - i,
    {
        out.push(b[i]);
        proof {
            assert(old(out)@ + b@.take(i + 1) =~= (old(out)@ + b@.take(i as int)).push(b@[i as int]));
        }
        i = i + 1;
    }
    proof {
        assert(b@.take(b@.len() as int) =~= b@);
    }
}

/// Serializes the ledger to its persisted wire form.
pub fn encode_ledger(l: &TradeLedger) -> (r: Vec<u8>)
    ensures
        r@ == spec_encode(l@),
{
    let mut out: Vec<u8> = Vec::new();
    let n = l.len();
    let mut i: usize = 0;
    proof {
        assert(l@.take(0) =~= Seq::<(Seq<u8>, EnergyTrade)>::empty());
    }
    while i < n
        invariant
            0 <= i <= n,
            n == l@.len(),
            out@ == spec_encode(l@.take(i as int)),
        decreases n - i,
    {
        let entry = l.entry_at(i);
        let key_len_bytes = u64_to_le_bytes(entry.participant.len() as u64);
        push_bytes(&mut out, key_len_bytes.as_slice());
        push_bytes(&mut out, entry.participant.as_slice());
        let sb: u8 = match entry.trade.side {
            TradeSide::Push => 0,
            TradeSide::Request => 1,
        };
        out.push(sb);
        let energy_bytes = u64_to_le_bytes(entry.trade.energy_amount);
        push_bytes(&mut out, energy_bytes.as_slice());
        let currency_bytes = u64_to_le_bytes(entry.trade.currency_paid);
        push_bytes(&mut out, currency_bytes.as_slice());
        proof {
            let s = l@;
            let e = s[i as int];
            assert(seq![sb] =~= seq![side_code(e.1.side)]);
            assert(out@ =~= spec_encode(s.take(i as int)) + spec_encode_entry(e));
            lemma_encode_snoc(s.take(i as int), e);
            assert(s.take(i + 1) =~= s.take(i as int).push(e));
        }
        i = i + 1;
    }
    proof {
        assert(l@.take(n as int) =~= l@);
    }
    out
}

/// Deserializes a persisted wire form back into a ledger. Returns `None`
/// exactly where the bytes are not the wire form of a ledger with one row
/// per participant.
pub fn decode_ledger(b: &[u8]) -> (r: Option<TradeLedger>)
    ensures
        r is Some <==> spec_decode_ledger(b@) is Some,
        r matches Some(l) ==> l.wf() && spec_decode_ledger(b@) == Some(l@),
{
    let mut out = TradeLedger::new();
    let mut pos: usize = 0;
    proof {
        assert(b@.skip(0) =~= b@);
    }
    while pos < b.len()
        invariant
            0 <= pos <= b@.len(),
            out.wf(),
            (match spec_decode(b@.skip(pos as int)) {
                None => spec_decode(b@) is None,
                Some(rest) => spec_decode(b@) == Some(out@ + rest),
            }),
        decreases b@.len() - pos,
    {
        let ghost oldskip = b@.skip(pos as int);
        let rem = b.len() - pos;
        if rem < 8 {
            return None;
        }
        let len_slice = slice_subrange(b, pos, pos + 8);
        proof {
            assert(len_slice@ =~= oldskip.take(8));
        }
        let n64 = u64_from_le_bytes(len_slice);
        if rem < 25 {
            return None;
        }
        if n64 > (rem - 25) as u64 {
            return None;
        }
        let n = n64 as usize;
        let key_slice = slice_subrange(b, pos + 8, pos + 8 + n);
        let sb = b[pos + 8 + n];
        if sb != 0 && sb != 1 {
            proof {
                assert(oldskip[8 + n as int] == sb);
            }
            return None;
        }
        let side = if sb == 0 {
            TradeSide::Push
        } else {
            TradeSide::Request
        };
        let energy_slice = slice_subrange(b, pos + 9 + n, pos + 17 + n);
        let energy = u64_from_le_bytes(energy_slice);
        let currency_slice = slice_subrange(b, pos + 17 + n, pos + 25 + n);
        let currency = u64_from_le_bytes(currency_slice);
        let key = copy_bytes(key_slice);
        let t = EnergyTrade { side, energy_amount: energy, currency_paid: currency };
        let ghost e_spec = (key@, t);
        let ghost newskip = b@.skip(pos as int + 25 + n as int);
        proof {
            assert(oldskip.subrange(8, 8 + n as int) =~= key_slice@);
            assert(oldskip[8 + n as int] == sb);
            assert(oldskip.subrange(9 + n as int, 17 + n as int) =~= energy_slice@);
            assert(oldskip.subrange(17 + n as int, 25 + n as int) =~= currency_slice@);
            assert(oldskip.skip(25 + n as int) =~= newskip);
            assert(spec_decode_entry(oldskip) == Some((e_spec, newskip)));
        }
        let duplicate = match out.get(key.as_slice()) {
            Some(_) => true,
            None => false,
        };
        if duplicate {
            proof {
                assert(contains_key(out@, key@));
                if spec_decode(newskip) is Some {
                    let rest = spec_decode(newskip)->Some_0;
                    let full = out@ + (seq![e_spec] + rest);
                    let i = index_of_key(out@, key@);
                    assert(0 <= i < out@.len() && out@[i].0 == key@);
                    assert(full[i] == out@[i]);
                    assert(full[i].0 == key@);
                    assert(full[out@.len() as int] == e_spec);
                    assert(full[out@.len() as int].0 == key@);
                    assert(!unique_keys(full));
                }
            }
            return None;
        }
        let ghost out_snap = out@;
        out.upsert(key, t);
        pos = pos + 25 + n;
        proof {
            assert(out@ =~= out_snap.push(e_spec));
            assert(b@.skip(pos as int) =~= newskip);
            if spec_decode(newskip) is Some {
                let rest = spec_decode(newskip)->Some_0;
                assert(spec_decode(oldskip) == Some(seq![e_spec] + rest));
                assert(out_snap + (seq![e_spec] + rest) =~= out@ + rest);
            }
        }
    }
    proof {
        assert(b@.skip(pos as int) =~= Seq::<u8>::empty());
        assert(spec_decode(b@) == Some(out@ + Seq::<(Seq<u8>, EnergyTrade)>::empty()));
        assert(out@ + Seq::<(Seq<u8>, EnergyTrade)>::empty() =~= out@);
    }
    Some(out)
}

} // verus!
