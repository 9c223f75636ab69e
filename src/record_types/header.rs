//! The header phase shared by every record kind: scanning a header's field
//! block into per-kind slots.
use vstd::prelude::*;
use vstd::string::StringSliceAdditionalSpecFns;
use crate::bytes::{le_u32, le_u64, time_of, read_u32_le, read_u64_le, utf8_text, bytes_are};
use crate::cursor::time_from_bytes;
use crate::error::Error;
use crate::field_iter::{parse_field, read_record, lemma_parse_field_len, field_entries, lemma_field_entries_step};
use super::chunk::Compression;

verus! {

/// The six kinds of record, each with its own opcode.
#[derive(Debug, Clone, Copy, PartialEq, Eq, Structural)]
pub enum RecordKind {
    BagHeader,
    Chunk,
    Connection,
    MessageData,
    IndexData,
    ChunkInfo,
}

/// The opcode that marks a record of the kind.
pub open spec fn op_of(kind: RecordKind) -> u8 {
    match kind {
        RecordKind::MessageData => 0x02,
        RecordKind::BagHeader => 0x03,
        RecordKind::IndexData => 0x04,
        RecordKind::Chunk => 0x05,
        RecordKind::ChunkInfo => 0x06,
        RecordKind::Connection => 0x07,
    }
}

/// The kind an opcode marks, if any.
pub open spec fn kind_of(op: u8) -> Option<RecordKind> {
    if op == 0x02 {
        Some(RecordKind::MessageData)
    } else if op == 0x03 {
        Some(RecordKind::BagHeader)
    } else if op == 0x04 {
        Some(RecordKind::IndexData)
    } else if op == 0x05 {
        Some(RecordKind::Chunk)
    } else if op == 0x06 {
        Some(RecordKind::ChunkInfo)
    } else if op == 0x07 {
        Some(RecordKind::Connection)
    } else {
        None
    }
}

impl RecordKind {
    /// The opcode of the kind.
    pub fn op(self) -> (r: u8)
        ensures
            r == op_of(self),
    {
        match self {
            RecordKind::MessageData => 0x02,
            RecordKind::BagHeader => 0x03,
            RecordKind::IndexData => 0x04,
            RecordKind::Chunk => 0x05,
            RecordKind::ChunkInfo => 0x06,
            RecordKind::Connection => 0x07,
        }
    }

    /// The kind that `op` marks, if any.
    pub fn from_op(op: u8) -> (r: Option<RecordKind>)
        ensures
            r == kind_of(op),
    {
        if op == 0x02 {
            Some(RecordKind::MessageData)
        } else if op == 0x03 {
            Some(RecordKind::BagHeader)
        } else if op == 0x04 {
            Some(RecordKind::IndexData)
        } else if op == 0x05 {
            Some(RecordKind::Chunk)
        } else if op == 0x06 {
            Some(RecordKind::ChunkInfo)
        } else if op == 0x07 {
            Some(RecordKind::Connection)
        } else {
            None
        }
    }
}

/// How a header field's value is written.
#[derive(Debug, Clone, Copy, PartialEq, Eq, Structural)]
pub enum FieldKind {
    /// Four bytes, little-endian.
    Int32,
    /// Eight bytes, little-endian.
    Int64,
    /// Eight bytes: seconds and nanoseconds, combined into nanoseconds.
    Time,
    /// UTF-8 text.
    Text,
    /// The name of a compression scheme.
    Codec,
}

/// A decoded header field value.
#[derive(Debug, Clone, Copy)]
pub enum FieldValue<'a> {
    Int32(u32),
    Int64(u64),
    Text(&'a str),
    Codec(Compression),
}

/// The mathematical content of a header field value; text by its bytes.
pub enum SlotValue {
    Int32(u32),
    Int64(u64),
    Text(Seq<u8>),
    Codec(Compression),
}

impl<'a> View for FieldValue<'a> {
    type V = SlotValue;

    open spec fn view(&self) -> SlotValue {
        match *self {
            FieldValue::Int32(v) => SlotValue::Int32(v),
            FieldValue::Int64(v) => SlotValue::Int64(v),
            FieldValue::Text(s) => SlotValue::Text(s.spec_bytes()),
            FieldValue::Codec(c) => SlotValue::Codec(c),
        }
    }
}

/// The slots of the header fields a kind knows.
pub open spec fn slot_count(kind: RecordKind) -> nat {
    match kind {
        RecordKind::BagHeader => 3,
        RecordKind::Chunk => 2,
        RecordKind::Connection => 2,
        RecordKind::MessageData => 2,
        RecordKind::IndexData => 3,
        RecordKind::ChunkInfo => 5,
    }
}

/// The slot, and the value encoding, of a header field name in a kind; `None`
/// for a name the kind does not know.
pub open spec fn field_slot(kind: RecordKind, name: Seq<u8>) -> Option<(usize, FieldKind)> {
    match kind {
        RecordKind::BagHeader => if name == "index_pos".spec_bytes() {
            Some((0usize, FieldKind::Int64))
        } else if name == "conn_count".spec_bytes() {
            Some((1usize, FieldKind::Int32))
        } else if name == "chunk_count".spec_bytes() {
            Some((2usize, FieldKind::Int32))
        } else {
            None
        },
        RecordKind::Chunk => if name == "compression".spec_bytes() {
            Some((0usize, FieldKind::Codec))
        } else if name == "size".spec_bytes() {
            Some((1usize, FieldKind::Int32))
        } else {
            None
        },
        RecordKind::Connection => if name == "conn".spec_bytes() {
            Some((0usize, FieldKind::Int32))
        } else if name == "topic".spec_bytes() {
            Some((1usize, FieldKind::Text))
        } else {
            None
        },
        RecordKind::MessageData => if name == "conn".spec_bytes() {
            Some((0usize, FieldKind::Int32))
        } else if name == "time".spec_bytes() {
            Some((1usize, FieldKind::Time))
        } else {
            None
        },
        RecordKind::IndexData => if name == "ver".spec_bytes() {
            Some((0usize, FieldKind::Int32))
        } else if name == "conn".spec_bytes() {
            Some((1usize, FieldKind::Int32))
        } else if name == "count".spec_bytes() {
            Some((2usize, FieldKind::Int32))
        } else {
            None
        },
        RecordKind::ChunkInfo => if name == "ver".spec_bytes() {
            Some((0usize, FieldKind::Int32))
        } else if name == "chunk_pos".spec_bytes() {
            Some((1usize, FieldKind::Int64))
        } else if name == "start_time".spec_bytes() {
            Some((2usize, FieldKind::Time))
        } else if name == "end_time".spec_bytes() {
            Some((3usize, FieldKind::Time))
        } else if name == "count".spec_bytes() {
            Some((4usize, FieldKind::Int32))
        } else {
            None
        },
    }
}

pub proof fn lemma_field_slot_bound(kind: RecordKind, name: Seq<u8>)
    ensures
        field_slot(kind, name) matches Some((i, _)) ==> i < slot_count(kind),
{
}

/// Two names that a kind puts in the same slot are the same name.
pub proof fn lemma_field_slot_injective(kind: RecordKind, a: Seq<u8>, b: Seq<u8>)
    requires
        field_slot(kind, a) is Some,
        field_slot(kind, b) is Some,
        field_slot(kind, a)->Some_0.0 == field_slot(kind, b)->Some_0.0,
    ensures
        a == b,
{
}

/// The compression scheme a header names, if any.
pub open spec fn codec_of(val: Seq<u8>) -> Option<Compression> {
    if val == "none".spec_bytes() {
        Some(Compression::Uncompressed)
    } else if val == "bz2".spec_bytes() {
        Some(Compression::Bzip2)
    } else if val == "lz4".spec_bytes() {
        Some(Compression::Lz4)
    } else {
        None
    }
}

/// The value a field of encoding `fk` holds; `None` where it is malformed.
pub open spec fn field_value(fk: FieldKind, val: Seq<u8>) -> Option<SlotValue> {
    match fk {
        FieldKind::Int32 => if val.len() == 4 {
            Some(SlotValue::Int32(le_u32(val) as u32))
        } else {
            None
        },
        FieldKind::Int64 => if val.len() == 8 {
            Some(SlotValue::Int64(le_u64(val) as u64))
        } else {
            None
        },
        FieldKind::Time => if val.len() == 8 {
            Some(SlotValue::Int64(time_of(val) as u64))
        } else {
            None
        },
        FieldKind::Text => if vstd::utf8::valid_utf8(val) {
            Some(SlotValue::Text(val))
        } else {
            None
        },
        FieldKind::Codec => match codec_of(val) {
            Some(c) => Some(SlotValue::Codec(c)),
            None => None,
        },
    }
}

/// A timestamp field holds eight bytes, seconds then nanoseconds, and gives
/// `seconds * 1_000_000_000 + nanoseconds`, which always fits a `u64`; any
/// other length is malformed.
pub proof fn lemma_time_field(val: Seq<u8>)
    ensures
        val.len() == 8 ==> field_value(FieldKind::Time, val) == Some(SlotValue::Int64(
            (1_000_000_000 * le_u32(val.subrange(0, 4)) + le_u32(val.subrange(4, 8))) as u64,
        )),
        val.len() == 8 ==> 1_000_000_000 * le_u32(val.subrange(0, 4)) + le_u32(val.subrange(4, 8)) <= u64::MAX,
        val.len() != 8 ==> field_value(FieldKind::Time, val) is None,
{
    if val.len() == 8 {
        let s = le_u32(val.subrange(0, 4));
        let ns = le_u32(val.subrange(4, 8));
        assert(le_u32(val.subrange(0, 4)) == le_u32(val));
        assert(0 <= s <= u32::MAX && 0 <= ns <= u32::MAX);
        assert(1_000_000_000 * s + ns <= u64::MAX) by (nonlinear_arith)
            requires
                0 <= s <= u32::MAX,
                0 <= ns <= u32::MAX,
        ;
    }
}

/// What the header phase has gathered so far: one optional value per slot,
/// and whether the opcode field was met.
pub type Slots = (Seq<Option<SlotValue>>, bool);

/// The empty slots of a kind.
pub open spec fn no_slots(kind: RecordKind) -> Slots {
    (Seq::new(slot_count(kind), |i: int| None::<SlotValue>), false)
}

/// One header field applied to the slots of `kind`: `op` must hold the kind's
/// opcode, a known name fills its slot once with a well-formed value, and an
/// unknown name is passed over.
pub open spec fn apply_field(kind: RecordKind, st: Slots, name: Seq<u8>, val: Seq<u8>) -> Result<Slots, Error> {
    if name == "op".spec_bytes() {
        if val == seq![op_of(kind)] {
            Ok((st.0, true))
        } else {
            Err(Error::InvalidRecord)
        }
    } else {
        match field_slot(kind, name) {
            None => Ok(st),
            Some((i, fk)) => if st.0[i as int] is Some {
                Err(Error::InvalidHeader)
            } else {
                match field_value(fk, val) {
                    None => Err(Error::InvalidHeader),
                    Some(v) => Ok((st.0.update(i as int, Some(v)), st.1)),
                }
            },
        }
    }
}

/// The header phase over the rest `buf` of a field block, from the slots `st`.
pub open spec fn scan_fields(kind: RecordKind, buf: Seq<u8>, st: Slots) -> Result<Slots, Error>
    decreases buf.len(),
{
    if buf.len() == 0 {
        Ok(st)
    } else {
        match parse_field(buf) {
            None => Err(Error::InvalidHeader),
            Some((name, val, k)) => match apply_field(kind, st, name, val) {
                Err(e) => Err(e),
                Ok(st2) => if 4 <= k <= buf.len() {
                    scan_fields(kind, buf.subrange(k, buf.len() as int), st2)
                } else {
                    Ok(st2)
                },
            },
        }
    }
}

/// The header phase of a record of `kind` whose header block is `h`.
pub open spec fn header_slots(kind: RecordKind, h: Seq<u8>) -> Result<Slots, Error> {
    scan_fields(kind, h, no_slots(kind))
}

/// The view of executable slots.
pub open spec fn slots_view<'a>(v: Seq<Option<FieldValue<'a>>>) -> Seq<Option<SlotValue>> {
    v.map_values(|o: Option<FieldValue<'a>>| match o {
        None => None,
        Some(f) => Some(f@),
    })
}

fn field_slot_exec(kind: RecordKind, name: &[u8]) -> (r: Option<(usize, FieldKind)>)
    ensures
        r == field_slot(kind, name@),
{
    match kind {
        RecordKind::BagHeader => if bytes_are(name, "index_pos") {
            Some((0, FieldKind::Int64))
        } else if bytes_are(name, "conn_count") {
            Some((1, FieldKind::Int32))
        } else if bytes_are(name, "chunk_count") {
            Some((2, FieldKind::Int32))
        } else {
            None
        },
        RecordKind::Chunk => if bytes_are(name, "compression") {
            Some((0, FieldKind::Codec))
        } else if bytes_are(name, "size") {
            Some((1, FieldKind::Int32))
        } else {
            None
        },
        RecordKind::Connection => if bytes_are(name, "conn") {
            Some((0, FieldKind::Int32))
        } else if bytes_are(name, "topic") {
            Some((1, FieldKind::Text))
        } else {
            None
        },
        RecordKind::MessageData => if bytes_are(name, "conn") {
            Some((0, FieldKind::Int32))
        } else if bytes_are(name, "time") {
            Some((1, FieldKind::Time))
        } else {
            None
        },
        RecordKind::IndexData => if bytes_are(name, "ver") {
            Some((0, FieldKind::Int32))
        } else if bytes_are(name, "conn") {
            Some((1, FieldKind::Int32))
        } else if bytes_are(name, "count") {
            Some((2, FieldKind::Int32))
        } else {
            None
        },
        RecordKind::ChunkInfo => if bytes_are(name, "ver") {
            Some((0, FieldKind::Int32))
        } else if bytes_are(name, "chunk_pos") {
            Some((1, FieldKind::Int64))
        } else if bytes_are(name, "start_time") {
            Some((2, FieldKind::Time))
        } else if bytes_are(name, "end_time") {
            Some((3, FieldKind::Time))
        } else if bytes_are(name, "count") {
            Some((4, FieldKind::Int32))
        } else {
            None
        },
    }
}

/// The compression scheme `val` names, if any.
pub fn codec_named(val: &[u8]) -> (r: Option<Compression>)
    ensures
        r == codec_of(val@),
{
    if bytes_are(val, "none") {
        Some(Compression::Uncompressed)
    } else if bytes_are(val, "bz2") {
        Some(Compression::Bzip2)
    } else if bytes_are(val, "lz4") {
        Some(Compression::Lz4)
    } else {
        None
    }
}

fn field_value_exec<'a>(fk: FieldKind, val: &'a [u8]) -> (r: Option<FieldValue<'a>>)
    ensures
        match field_value(fk, val@) {
            None => r is None,
            Some(v) => r matches Some(f) && f@ == v,
        },
{
    match fk {
        FieldKind::Int32 => if val.len() == 4 {
            Some(FieldValue::Int32(read_u32_le(val)))
        } else {
            None
        },
        FieldKind::Int64 => if val.len() == 8 {
            Some(FieldValue::Int64(read_u64_le(val)))
        } else {
            None
        },
        FieldKind::Time => if val.len() == 8 {
            Some(FieldValue::Int64(time_from_bytes(val)))
        } else {
            None
        },
        FieldKind::Text => match utf8_text(val) {
            Some(s) => Some(FieldValue::Text(s)),
            None => None,
        },
        FieldKind::Codec => match codec_named(val) {
            Some(c) => Some(FieldValue::Codec(c)),
            None => None,
        },
    }
}

/// The header phase: the slots of `kind` filled from the field block `header`.
pub fn read_header<'a>(kind: RecordKind, header: &'a [u8]) -> (r: Result<(Vec<Option<FieldValue<'a>>>, bool), Error>)
    ensures
        match header_slots(kind, header@) {
            Err(e) => r matches Err(e2) && e2 == e,
            Ok(st) => r matches Ok((v, seen)) && slots_view(v@) == st.0 && seen == st.1,
        },
        r matches Ok((v, _)) ==> v@.len() == slot_count(kind),
{
    let mut slots: Vec<Option<FieldValue<'a>>> = Vec::new();
    let count: usize = match kind {
        RecordKind::BagHeader => 3,
        RecordKind::Chunk => 2,
        RecordKind::Connection => 2,
        RecordKind::MessageData => 2,
        RecordKind::IndexData => 3,
        RecordKind::ChunkInfo => 5,
    };
    let mut j: usize = 0;
    while j < count
        invariant
            j <= count,
            slots@.len() == j,
            forall|i: int| 0 <= i < j ==> slots@[i] is None,
        decreases count - j,
    {
        slots.push(None);
        j = j + 1;
    }
    assert(slots_view(slots@) =~= no_slots(kind).0);
    let mut op_seen = false;
    let mut buf = header;
    while buf.len() > 0
        invariant
            slots@.len() == slot_count(kind),
            header_slots(kind, header@) == scan_fields(kind, buf@, (slots_view(slots@), op_seen)),
        decreases buf@.len(),
    {
        proof {
            if parse_field(buf@) is Some {
                lemma_parse_field_len(buf@);
            }
        }
        let (name, val, rest) = match read_record(buf) {
            Ok(t) => t,
            Err(e) => return Err(e),
        };
        if bytes_are(name, "op") {
            if val.len() == 1 && val[0] == kind.op() {
                assert(val@ == seq![op_of(kind)]);
                op_seen = true;
            } else {
                assert(val@ != seq![op_of(kind)]);
                return Err(Error::InvalidRecord);
            }
        } else {
            proof {
                lemma_field_slot_bound(kind, name@);
            }
            match field_slot_exec(kind, name) {
                None => {},
                Some((i, fk)) => {
                    if slots[i].is_some() {
                        return Err(Error::InvalidHeader);
                    }
                    match field_value_exec(fk, val) {
                        None => {
                            return Err(Error::InvalidHeader);
                        },
                        Some(v) => {
                            let ghost before = slots@;
                            slots.set(i, Some(v));
                            assert(slots_view(slots@) =~= slots_view(before).update(i as int, Some(v@)));
                        },
                    }
                },
            }
        }
        buf = rest;
    }
    Ok((slots, op_seen))
}

/// Scanning a valid field block that has no entry named `name`, and whose
/// `op` entries are right, leaves the slot of `name` empty or fails with
/// `InvalidHeader`.
pub(crate) proof fn lemma_scan_leaves_unset(kind: RecordKind, buf: Seq<u8>, st: Slots, name: Seq<u8>)
    requires
        field_entries(buf) is Some,
        field_slot(kind, name) is Some,
        st.0.len() == slot_count(kind),
        st.0[field_slot(kind, name)->Some_0.0 as int] is None,
        forall|j: int| 0 <= j < field_entries(buf)->Some_0.len() ==> (#[trigger] field_entries(buf)->Some_0[j]).0 != name,
        forall|j: int| 0 <= j < field_entries(buf)->Some_0.len()
            && (#[trigger] field_entries(buf)->Some_0[j]).0 == "op".spec_bytes()
            ==> field_entries(buf)->Some_0[j].1 == seq![op_of(kind)],
    ensures
        scan_fields(kind, buf, st) matches Ok(st2) ==> st2.0.len() == slot_count(kind)
            && st2.0[field_slot(kind, name)->Some_0.0 as int] is None,
        scan_fields(kind, buf, st) matches Err(e) ==> e == Error::InvalidHeader,
    decreases buf.len(),
{
    if buf.len() > 0 {
        lemma_field_entries_step(buf);
        let (n, v, k) = parse_field(buf)->Some_0;
        let rest = buf.subrange(k, buf.len() as int);
        let es = field_entries(buf)->Some_0;
        let es2 = field_entries(rest)->Some_0;
        assert(es[0] == (n, v));
        assert forall|j: int| 0 <= j < es2.len() implies (#[trigger] es2[j]) == es[j + 1] by {}
        let i = field_slot(kind, name)->Some_0.0;
        lemma_field_slot_bound(kind, name);
        lemma_field_slot_bound(kind, n);
        if field_slot(kind, n) is Some && n != "op".spec_bytes() {
            if field_slot(kind, n)->Some_0.0 == i {
                lemma_field_slot_injective(kind, n, name);
            }
        }
        match apply_field(kind, st, n, v) {
            Ok(st2) => {
                lemma_scan_leaves_unset(kind, rest, st2, name);
            },
            Err(e) => {},
        }
    }
}

/// Scanning a valid field block whose entries other than `op` are distinct,
/// known and well-formed fields of `kind` whose slots are still empty, and
/// which holds an `op` entry with another opcode, fails with `InvalidRecord`.
pub(crate) proof fn lemma_scan_wrong_op(kind: RecordKind, buf: Seq<u8>, st: Slots)
    requires
        field_entries(buf) is Some,
        st.0.len() == slot_count(kind),
        forall|j: int| 0 <= j < field_entries(buf)->Some_0.len()
            && (#[trigger] field_entries(buf)->Some_0[j]).0 != "op".spec_bytes()
            ==> field_slot(kind, field_entries(buf)->Some_0[j].0) is Some
                && field_value(field_slot(kind, field_entries(buf)->Some_0[j].0)->Some_0.1, field_entries(buf)->Some_0[j].1) is Some
                && st.0[field_slot(kind, field_entries(buf)->Some_0[j].0)->Some_0.0 as int] is None,
        forall|j1: int, j2: int| 0 <= j1 < field_entries(buf)->Some_0.len() && 0 <= j2 < field_entries(buf)->Some_0.len()
            && j1 != j2 && (#[trigger] field_entries(buf)->Some_0[j1]).0 != "op".spec_bytes()
            ==> field_entries(buf)->Some_0[j1].0 != (#[trigger] field_entries(buf)->Some_0[j2]).0,
        exists|j: int| 0 <= j < field_entries(buf)->Some_0.len()
            && (#[trigger] field_entries(buf)->Some_0[j]).0 == "op".spec_bytes()
            && field_entries(buf)->Some_0[j].1 != seq![op_of(kind)],
    ensures
        scan_fields(kind, buf, st) == Err::<Slots, Error>(Error::InvalidRecord),
    decreases buf.len(),
{
    let es = field_entries(buf)->Some_0;
    let w = choose|j: int| 0 <= j < es.len() && (#[trigger] es[j]).0 == "op".spec_bytes() && es[j].1 != seq![op_of(kind)];
    lemma_field_entries_step(buf);
    let (n, v, k) = parse_field(buf)->Some_0;
    let rest = buf.subrange(k, buf.len() as int);
    let es2 = field_entries(rest)->Some_0;
    assert(es[0] == (n, v));
    assert forall|j: int| 0 <= j < es2.len() implies (#[trigger] es2[j]) == es[j + 1] by {}
    if n == "op".spec_bytes() {
        if v == seq![op_of(kind)] {
            assert(w != 0);
            assert(es2[w - 1] == es[w]);
            lemma_scan_wrong_op(kind, rest, (st.0, true));
        }
    } else {
        let (i, fk) = field_slot(kind, n)->Some_0;
        lemma_field_slot_bound(kind, n);
        let st2 = (st.0.update(i as int, Some(field_value(fk, v)->Some_0)), st.1);
        assert forall|j: int| 0 <= j < es2.len() && (#[trigger] es2[j]).0 != "op".spec_bytes()
            implies st2.0[field_slot(kind, es2[j].0)->Some_0.0 as int] is None by {
            assert(es2[j] == es[j + 1]);
            assert(es[0].0 != es[j + 1].0);
            lemma_field_slot_bound(kind, es2[j].0);
            if field_slot(kind, es2[j].0)->Some_0.0 == i {
                lemma_field_slot_injective(kind, es2[j].0, n);
            }
        }
        assert forall|j1: int, j2: int| 0 <= j1 < es2.len() && 0 <= j2 < es2.len()
            && j1 != j2 && (#[trigger] es2[j1]).0 != "op".spec_bytes()
            implies es2[j1].0 != (#[trigger] es2[j2]).0 by {
            assert(es2[j1] == es[j1 + 1]);
            assert(es2[j2] == es[j2 + 1]);
        }
        assert(w != 0);
        assert(es2[w - 1] == es[w]);
        lemma_scan_wrong_op(kind, rest, st2);
    }
}

} // verus!
