//! The header field grammar: a run of length-prefixed `name=value` entries.
use vstd::prelude::*;
use crate::bytes::{read_u32_le, le_bytes_u32, lemma_le_bytes_u32_of};
use crate::cursor::{block_fits, block_end, block_at};
use crate::error::Error;

verus! {

/// A byte that may stand in a field name: printable ASCII other than `=`.
pub open spec fn is_name_byte(b: u8) -> bool {
    0x20 <= b <= 0x7e && b != 0x3d
}

/// `d` is where the name of entry `rec` ends: a non-empty run of name bytes,
/// then `=`.
pub open spec fn delim_at(rec: Seq<u8>, d: int) -> bool {
    &&& 0 < d < rec.len()
    &&& rec[d] == 0x3d
    &&& forall|j: int| 0 <= j < d ==> is_name_byte(#[trigger] rec[j])
}

pub open spec fn has_delim(rec: Seq<u8>) -> bool {
    exists|d: int| delim_at(rec, d)
}

/// The first entry of a field block: its name, its value and the number of
/// bytes it takes; `None` where the block does not start with a well-formed
/// entry.
#[verifier::opaque]
pub open spec fn parse_field(buf: Seq<u8>) -> Option<(Seq<u8>, Seq<u8>, int)> {
    if block_fits(buf, 0) && has_delim(block_at(buf, 0)) {
        let rec = block_at(buf, 0);
        let d = choose|d: int| delim_at(rec, d);
        Some((rec.subrange(0, d), rec.subrange(d + 1, rec.len() as int), block_end(buf, 0)))
    } else {
        None
    }
}

pub proof fn lemma_delim_unique(rec: Seq<u8>, d1: int, d2: int)
    requires
        delim_at(rec, d1),
        delim_at(rec, d2),
    ensures
        d1 == d2,
{
    if d1 < d2 {
        assert(is_name_byte(rec[d1]));
    } else if d2 < d1 {
        assert(is_name_byte(rec[d2]));
    }
}

pub proof fn lemma_parse_field_len(buf: Seq<u8>)
    requires
        parse_field(buf) is Some,
    ensures
        4 <= parse_field(buf)->Some_0.2 <= buf.len(),
{
    reveal(parse_field);
}

/// The entries of a field block, in order; `None` where the block is not a
/// run of well-formed entries.
pub open spec fn field_entries(h: Seq<u8>) -> Option<Seq<(Seq<u8>, Seq<u8>)>>
    decreases h.len(),
{
    if h.len() == 0 {
        Some(Seq::empty())
    } else {
        match parse_field(h) {
            None => None,
            Some((name, val, k)) => if 4 <= k <= h.len() {
                match field_entries(h.subrange(k, h.len() as int)) {
                    None => None,
                    Some(rest) => Some(seq![(name, val)] + rest),
                }
            } else {
                None
            },
        }
    }
}

/// Unfolds `field_entries` by one entry.
pub proof fn lemma_field_entries_step(h: Seq<u8>)
    requires
        h.len() > 0,
        field_entries(h) is Some,
    ensures
        parse_field(h) is Some,
        ({
            let (name, val, k) = parse_field(h)->Some_0;
            &&& 4 <= k <= h.len()
            &&& field_entries(h.subrange(k, h.len() as int)) is Some
            &&& field_entries(h)->Some_0 == seq![(name, val)] + field_entries(h.subrange(k, h.len() as int))->Some_0
        }),
{
    lemma_parse_field_len(h);
}

/// One entry written out: its length, then `name=value`.
pub open spec fn encode_field(name: Seq<u8>, val: Seq<u8>) -> Seq<u8> {
    le_bytes_u32((name.len() + 1 + val.len()) as int) + name + seq![0x3du8] + val
}

/// Entries written out one after the other.
pub open spec fn encode_fields(es: Seq<(Seq<u8>, Seq<u8>)>) -> Seq<u8>
    decreases es.len(),
{
    if es.len() == 0 {
        Seq::empty()
    } else {
        encode_field(es[0].0, es[0].1) + encode_fields(es.drop_first())
    }
}

/// The first entry of a block, written out again, is the bytes it was read
/// from.
pub proof fn lemma_parse_field_encode(h: Seq<u8>)
    requires
        parse_field(h) is Some,
    ensures
        ({
            let (name, val, k) = parse_field(h)->Some_0;
            encode_field(name, val) == h.subrange(0, k)
        }),
{
    reveal(parse_field);
    let rec = block_at(h, 0);
    let d = choose|d: int| delim_at(rec, d);
    let (name, val, k) = parse_field(h)->Some_0;
    lemma_le_bytes_u32_of(h.subrange(0, 4));
    assert(name.len() + 1 + val.len() == rec.len());
    assert(rec =~= name + seq![0x3du8] + val);
    assert(h.subrange(0, k) =~= h.subrange(0, 4) + rec);
    assert(encode_field(name, val) =~= h.subrange(0, k));
}

/// Round trip: the entries parsed out of a well-formed field block, written
/// out again with the same length-prefixed grammar, are the bytes they were
/// read from.
pub proof fn lemma_fields_round_trip(h: Seq<u8>)
    requires
        field_entries(h) is Some,
    ensures
        encode_fields(field_entries(h)->Some_0) == h,
    decreases h.len(),
{
    if h.len() > 0 {
        let (name, val, k) = parse_field(h)->Some_0;
        lemma_parse_field_len(h);
        let rest = h.subrange(k, h.len() as int);
        let rest_es = field_entries(rest)->Some_0;
        let es = field_entries(h)->Some_0;
        assert(es == seq![(name, val)] + rest_es);
        lemma_fields_round_trip(rest);
        lemma_parse_field_encode(h);
        assert(es.drop_first() =~= rest_es);
        assert(encode_fields(es) == encode_field(name, val) + encode_fields(rest_es));
        assert(h =~= h.subrange(0, k) + rest);
    } else {
        assert(h =~= Seq::<u8>::empty());
    }
}

/// Splits the first entry off a field block: its name, its value, and the
/// rest of the block.
pub fn read_record<'a>(header: &'a [u8]) -> (r: Result<(&'a [u8], &'a [u8], &'a [u8]), Error>)
    ensures
        match parse_field(header@) {
            None => r == Err::<(&[u8], &[u8], &[u8]), Error>(Error::InvalidHeader),
            Some((name, val, k)) => r matches Ok((n, v, rest)) && n@ == name && v@ == val
                && rest@ == header@.subrange(k, header@.len() as int),
        },
{
    reveal(parse_field);
    let len = header.len();
    if len < 4 {
        return Err(Error::InvalidHeader);
    }
    let n = read_u32_le(header) as usize;
    assert(le_sub(header@) == crate::bytes::le_u32(header@));
    if len - 4 < n {
        return Err(Error::InvalidHeader);
    }
    let rec = vstd::slice::slice_subrange(header, 4, 4 + n);
    let rest = vstd::slice::slice_subrange(header, 4 + n, len);
    assert(rec@ == block_at(header@, 0));
    assert(block_fits(header@, 0));
    let mut i: usize = 0;
    while i < n && rec[i] != 0x3d
        invariant
            n == rec@.len(),
            0 <= i <= n,
            rec@ == block_at(header@, 0),
            block_fits(header@, 0),
            forall|j: int| 0 <= j < i ==> is_name_byte(#[trigger] rec@[j]),
        decreases n - i,
    {
        let b = rec[i];
        if b < 0x20 || b > 0x7e {
            reveal(parse_field);
            assert forall|d: int| !delim_at(rec@, d) by {
                if delim_at(rec@, d) {
                    if d > i {
                        assert(is_name_byte(rec@[i as int]));
                    } else if d < i {
                        assert(is_name_byte(rec@[d]));
                    }
                }
            }
            assert(!has_delim(rec@));
            return Err(Error::InvalidHeader);
        }
        i = i + 1;
    }
    if i == n {
        assert forall|d: int| !delim_at(rec@, d) by {
            if delim_at(rec@, d) {
                assert(is_name_byte(rec@[d]));
            }
        }
        assert(!has_delim(rec@));
        return Err(Error::InvalidHeader);
    }
    if i == 0 {
        assert forall|d: int| !delim_at(rec@, d) by {
            if delim_at(rec@, d) {
                assert(is_name_byte(rec@[0]));
            }
        }
        assert(!has_delim(rec@));
        return Err(Error::InvalidHeader);
    }
    assert(delim_at(rec@, i as int));
    proof {
        let d = choose|d: int| delim_at(rec@, d);
        lemma_delim_unique(rec@, d, i as int);
    }
    let name = vstd::slice::slice_subrange(rec, 0, i);
    let val = vstd::slice::slice_subrange(rec, i + 1, n);
    Ok((name, val, rest))
}

spec fn le_sub(b: Seq<u8>) -> int {
    crate::bytes::le_u32(b.subrange(0, 4))
}

/// Walks the entries of a field block, in order. It yields each entry as
/// `(name, value)`; where an entry is malformed it yields
/// `Err(InvalidHeader)`, and yields it again on every later call.
pub struct FieldIterator<'a> {
    buf: &'a [u8],
}

impl<'a> FieldIterator<'a> {
    /// The part of the block not yet walked.
    pub closed spec fn rest(&self) -> Seq<u8> {
        self.buf@
    }

    /// An iterator over the entries of `buf`.
    pub fn new(buf: &'a [u8]) -> (r: Self)
        ensures
            r.rest() == buf@,
    {
        FieldIterator { buf }
    }

    /// The next entry, or `None` once the block is used up.
    pub fn next(&mut self) -> (r: Option<Result<(&'a [u8], &'a [u8]), Error>>)
        ensures
            old(self).rest().len() == 0 ==> r is None && final(self).rest() == old(self).rest(),
            old(self).rest().len() > 0 ==> match parse_field(old(self).rest()) {
                None => r == Some(Err::<(&[u8], &[u8]), Error>(Error::InvalidHeader))
                    && final(self).rest() == old(self).rest(),
                Some((name, val, k)) => r matches Some(Ok((n, v))) && n@ == name && v@ == val
                    && final(self).rest() == old(self).rest().subrange(k, old(self).rest().len() as int),
            },
    {
        if self.buf.len() == 0 {
            return None;
        }
        match read_record(self.buf) {
            Ok((name, val, rest)) => {
                self.buf = rest;
                Some(Ok((name, val)))
            },
            Err(e) => Some(Err(e)),
        }
    }
}

/// The views of parsed entries.
pub open spec fn pairs_view<'a>(v: Seq<(&'a [u8], &'a [u8])>) -> Seq<(Seq<u8>, Seq<u8>)> {
    v.map_values(|p: (&'a [u8], &'a [u8])| (p.0@, p.1@))
}

/// All the entries of the field block `buf`, in order, walked with a
/// `FieldIterator`; `InvalidHeader` where an entry is malformed. Written out
/// again, the entries are `buf`.
pub fn read_fields<'a>(buf: &'a [u8]) -> (r: Result<Vec<(&'a [u8], &'a [u8])>, Error>)
    ensures
        match field_entries(buf@) {
            None => r matches Err(e) && e == Error::InvalidHeader,
            Some(es) => r matches Ok(v) && pairs_view(v@) == es,
        },
        r matches Ok(v) ==> encode_fields(pairs_view(v@)) == buf@,
{
    let mut out: Vec<(&'a [u8], &'a [u8])> = Vec::new();
    let mut it = FieldIterator::new(buf);
    loop
        invariant
            field_entries(buf@) == match field_entries(it.rest()) {
                None => None,
                Some(t) => Some(pairs_view(out@) + t),
            },
        decreases it.rest().len(),
    {
        proof {
            if it.rest().len() > 0 && parse_field(it.rest()) is Some {
                lemma_parse_field_len(it.rest());
            }
        }
        let ghost before = it.rest();
        match it.next() {
            None => {
                assert(field_entries(before) == Some(Seq::<(Seq<u8>, Seq<u8>)>::empty()));
                assert(pairs_view(out@) + Seq::<(Seq<u8>, Seq<u8>)>::empty() =~= pairs_view(out@));
                proof {
                    lemma_fields_round_trip(buf@);
                }
                return Ok(out);
            },
            Some(Err(e)) => {
                return Err(e);
            },
            Some(Ok((name, val))) => {
                let ghost old_out = out@;
                out.push((name, val));
                proof {
                    assert(pairs_view(out@) =~= pairs_view(old_out).push((name@, val@)));
                    match field_entries(it.rest()) {
                        None => {},
                        Some(t) => {
                            assert(field_entries(before)->Some_0 == seq![(name@, val@)] + t);
                            assert(pairs_view(old_out) + (seq![(name@, val@)] + t)
                                =~= pairs_view(out@) + t);
                        },
                    }
                }
            },
        }
    }
}

} // verus!
