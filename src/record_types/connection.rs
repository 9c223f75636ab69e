//! Connection records: the topic, message type and type hash of one
//! publish/subscribe channel.
use vstd::prelude::*;
use vstd::string::StringSliceAdditionalSpecFns;
use crate::bytes::{utf8_text, bytes_are};
use crate::cursor::{Cursor, block_fits, block_at, block_end};
use crate::error::Error;
use crate::field_iter::{FieldIterator, parse_field, lemma_parse_field_len, field_entries, lemma_field_entries_step};
use super::header::{RecordKind, FieldValue, SlotValue, Slots, header_slots, read_header};

verus! {

/// Connection record: the message type of a ROS topic.
///
/// It holds two topics, `storage_topic` and `topic`: messages may be stored
/// in the bag under another topic than the one they were published on.
#[derive(Debug, Clone, Copy, PartialEq, Eq)]
pub struct Connection<'a> {
    /// Unique connection id.
    pub id: u32,
    /// Topic the messages are stored under.
    pub storage_topic: &'a str,
    /// Name of the topic the subscriber is connecting to.
    pub topic: &'a str,
    /// Message type.
    pub tp: &'a str,
    /// MD5 hash of the message type.
    pub md5sum: [u8; 16],
    /// Full text of the message definition (empty where absent).
    pub message_definition: &'a str,
    /// Name of the node sending the data (empty where absent).
    pub caller_id: &'a str,
    /// Whether the publisher is latching (sends its last message to new
    /// subscribers).
    pub latching: bool,
}

/// The content of a `Connection` record; text by its bytes.
pub struct ConnectionView {
    pub id: u32,
    pub storage_topic: Seq<u8>,
    pub topic: Seq<u8>,
    pub tp: Seq<u8>,
    pub md5sum: Seq<u8>,
    pub message_definition: Seq<u8>,
    pub caller_id: Seq<u8>,
    pub latching: bool,
}

impl<'a> View for Connection<'a> {
    type V = ConnectionView;

    open spec fn view(&self) -> ConnectionView {
        ConnectionView {
            id: self.id,
            storage_topic: self.storage_topic.spec_bytes(),
            topic: self.topic.spec_bytes(),
            tp: self.tp.spec_bytes(),
            md5sum: self.md5sum@,
            message_definition: self.message_definition.spec_bytes(),
            caller_id: self.caller_id.spec_bytes(),
            latching: self.latching,
        }
    }
}

/// The value of a lower-case hex digit, or -1 for any other byte.
pub open spec fn hex_digit(b: u8) -> int {
    if 0x30 <= b <= 0x39 {
        b - 0x30
    } else if 0x61 <= b <= 0x66 {
        b - 0x61 + 10
    } else {
        -1
    }
}

/// Whether every byte of `s` is a lower-case hex digit.
pub open spec fn is_lower_hex(s: Seq<u8>) -> bool {
    forall|i: int| 0 <= i < s.len() ==> hex_digit(#[trigger] s[i]) >= 0
}

/// The bytes written as hex digit pairs in `s`, high digit first.
pub open spec fn lower_hex_decode(s: Seq<u8>) -> Seq<u8> {
    Seq::new(s.len() / 2, |i: int| (16 * hex_digit(s[2 * i]) + hex_digit(s[2 * i + 1])) as u8)
}

/// Relies on `base16ct::lower::decode`: 32 lower-case hex digits give 16
/// bytes, each from a pair of digits, high first; any other digit fails.
#[verifier::external_body]
fn decode_md5(src: &[u8]) -> (r: Option<[u8; 16]>)
    requires
        src@.len() == 32,
    ensures
        r is Some <==> is_lower_hex(src@),
        r matches Some(b) ==> b@ == lower_hex_decode(src@),
{
    let mut res = [0u8; 16];
    match base16ct::lower::decode(src, &mut res) {
        Ok(_) => Some(res),
        Err(_) => None,
    }
}

/// What the nested field block of a connection has given so far.
pub struct ConnectionFieldsView {
    pub topic: Option<Seq<u8>>,
    pub tp: Option<Seq<u8>>,
    pub md5sum: Option<Seq<u8>>,
    pub message_definition: Option<Seq<u8>>,
    pub caller_id: Option<Seq<u8>>,
    pub latching: bool,
}

pub open spec fn no_connection_fields() -> ConnectionFieldsView {
    ConnectionFieldsView {
        topic: None,
        tp: None,
        md5sum: None,
        message_definition: None,
        caller_id: None,
        latching: false,
    }
}

/// A text field set once: `InvalidHeader` if it is set already or not UTF-8.
pub open spec fn set_text(slot: Option<Seq<u8>>, val: Seq<u8>) -> Result<Option<Seq<u8>>, Error> {
    if slot is Some || !vstd::utf8::valid_utf8(val) {
        Err(Error::InvalidHeader)
    } else {
        Ok(Some(val))
    }
}

/// One field of a connection's nested block applied to what it has given.
pub open spec fn apply_connection_field(st: ConnectionFieldsView, name: Seq<u8>, val: Seq<u8>) -> Result<ConnectionFieldsView, Error> {
    if name == "topic".spec_bytes() {
        match set_text(st.topic, val) {
            Err(e) => Err(e),
            Ok(v) => Ok(ConnectionFieldsView { topic: v, ..st }),
        }
    } else if name == "type".spec_bytes() {
        match set_text(st.tp, val) {
            Err(e) => Err(e),
            Ok(v) => Ok(ConnectionFieldsView { tp: v, ..st }),
        }
    } else if name == "md5sum".spec_bytes() {
        if st.md5sum is Some || val.len() != 32 || !is_lower_hex(val) {
            Err(Error::InvalidRecord)
        } else {
            Ok(ConnectionFieldsView { md5sum: Some(lower_hex_decode(val)), ..st })
        }
    } else if name == "message_definition".spec_bytes() {
        match set_text(st.message_definition, val) {
            Err(e) => Err(e),
            Ok(v) => Ok(ConnectionFieldsView { message_definition: v, ..st }),
        }
    } else if name == "callerid".spec_bytes() {
        match set_text(st.caller_id, val) {
            Err(e) => Err(e),
            Ok(v) => Ok(ConnectionFieldsView { caller_id: v, ..st }),
        }
    } else if name == "latching".spec_bytes() {
        if val == "1".spec_bytes() {
            Ok(ConnectionFieldsView { latching: true, ..st })
        } else if val == "0".spec_bytes() {
            Ok(ConnectionFieldsView { latching: false, ..st })
        } else {
            Err(Error::InvalidRecord)
        }
    } else {
        Ok(st)
    }
}

/// A connection's nested field block `buf` applied from `st`.
pub open spec fn scan_connection_fields(buf: Seq<u8>, st: ConnectionFieldsView) -> Result<ConnectionFieldsView, Error>
    decreases buf.len(),
{
    if buf.len() == 0 {
        Ok(st)
    } else {
        match parse_field(buf) {
            None => Err(Error::InvalidHeader),
            Some((name, val, k)) => match apply_connection_field(st, name, val) {
                Err(e) => Err(e),
                Ok(st2) => if 4 <= k <= buf.len() {
                    scan_connection_fields(buf.subrange(k, buf.len() as int), st2)
                } else {
                    Ok(st2)
                },
            },
        }
    }
}

/// The body phase of a `Connection` record whose header gave `st` and whose
/// body, a nested field block, starts at `q` in `d`.
pub open spec fn connection_of(st: Slots, d: Seq<u8>, q: int) -> Result<(ConnectionView, int), Error> {
    match (st.0[0], st.0[1]) {
        (Some(SlotValue::Int32(id)), Some(SlotValue::Text(storage_topic))) => if !st.1 {
            Err(Error::InvalidRecord)
        } else if !block_fits(d, q) {
            Err(Error::OutOfBounds)
        } else {
            match scan_connection_fields(block_at(d, q), no_connection_fields()) {
                Err(e) => Err(e),
                Ok(f) => match (f.topic, f.tp, f.md5sum) {
                    (Some(topic), Some(tp), Some(md5sum)) => Ok((
                        ConnectionView {
                            id,
                            storage_topic,
                            topic,
                            tp,
                            md5sum,
                            message_definition: match f.message_definition {
                                Some(s) => s,
                                None => Seq::empty(),
                            },
                            caller_id: match f.caller_id {
                                Some(s) => s,
                                None => Seq::empty(),
                            },
                            latching: f.latching,
                        },
                        block_end(d, q),
                    )),
                    _ => Err(Error::InvalidHeader),
                },
            }
        },
        _ => Err(Error::InvalidHeader),
    }
}

struct ConnectionFields<'a> {
    topic: Option<&'a str>,
    tp: Option<&'a str>,
    md5sum: Option<[u8; 16]>,
    message_definition: Option<&'a str>,
    caller_id: Option<&'a str>,
    latching: bool,
}

spec fn text_view<'a>(s: Option<&'a str>) -> Option<Seq<u8>> {
    match s {
        Some(t) => Some(t.spec_bytes()),
        None => None,
    }
}

impl<'a> View for ConnectionFields<'a> {
    type V = ConnectionFieldsView;

    closed spec fn view(&self) -> ConnectionFieldsView {
        ConnectionFieldsView {
            topic: text_view(self.topic),
            tp: text_view(self.tp),
            md5sum: match self.md5sum {
                Some(b) => Some(b@),
                None => None,
            },
            message_definition: text_view(self.message_definition),
            caller_id: text_view(self.caller_id),
            latching: self.latching,
        }
    }
}

fn set_text_exec<'a>(slot: &mut Option<&'a str>, val: &'a [u8]) -> (r: Result<(), Error>)
    ensures
        match set_text(text_view(*old(slot)), val@) {
            Err(e) => r == Err::<(), Error>(e) && *final(slot) == *old(slot),
            Ok(v) => r is Ok && text_view(*final(slot)) == v,
        },
{
    if slot.is_some() {
        return Err(Error::InvalidHeader);
    }
    match utf8_text(val) {
        Some(s) => {
            *slot = Some(s);
            Ok(())
        },
        None => Err(Error::InvalidHeader),
    }
}

impl<'a> ConnectionFields<'a> {
    fn apply(&mut self, name: &[u8], val: &'a [u8]) -> (r: Result<(), Error>)
        ensures
            match apply_connection_field(old(self)@, name@, val@) {
                Err(e) => r == Err::<(), Error>(e),
                Ok(st) => r is Ok && final(self)@ == st,
            },
    {
        if bytes_are(name, "topic") {
            set_text_exec(&mut self.topic, val)
        } else if bytes_are(name, "type") {
            set_text_exec(&mut self.tp, val)
        } else if bytes_are(name, "md5sum") {
            if self.md5sum.is_some() || val.len() != 32 {
                return Err(Error::InvalidRecord);
            }
            match decode_md5(val) {
                Some(b) => {
                    self.md5sum = Some(b);
                    Ok(())
                },
                None => Err(Error::InvalidRecord),
            }
        } else if bytes_are(name, "message_definition") {
            set_text_exec(&mut self.message_definition, val)
        } else if bytes_are(name, "callerid") {
            set_text_exec(&mut self.caller_id, val)
        } else if bytes_are(name, "latching") {
            if bytes_are(val, "1") {
                self.latching = true;
                Ok(())
            } else if bytes_are(val, "0") {
                self.latching = false;
                Ok(())
            } else {
                Err(Error::InvalidRecord)
            }
        } else {
            Ok(())
        }
    }
}

/// Whether the header block `h` of a `Connection` record passes every check made
/// before the body is read (its fields, its opcode); a decode stops without
/// moving the cursor where it does not.
pub open spec fn connection_reads_body(h: Seq<u8>) -> bool {
    match header_slots(RecordKind::Connection, h) {
        Ok(st) => match (st.0[0], st.0[1]) {
            (Some(SlotValue::Int32(_)), Some(SlotValue::Text(_))) => st.1,
            _ => false,
        },
        Err(_) => false,
    }
}

impl<'a> Connection<'a> {
    /// Decodes a `Connection` record with header block `header` whose body
    /// starts at the cursor.
    #[verifier::loop_isolation(false)]
    pub fn read(header: &'a [u8], c: &mut Cursor<'a>) -> (r: Result<Self, Error>)
        requires
            old(c).wf(),
        ensures
            final(c).wf(),
            final(c).data() == old(c).data(),
            !connection_reads_body(header@) ==> final(c).at() == old(c).at() && r is Err,
            match header_slots(RecordKind::Connection, header@) {
                Err(e) => r matches Err(e2) && e2 == e,
                Ok(st) => match connection_of(st, old(c).data(), old(c).at()) {
                    Err(e) => r matches Err(e2) && e2 == e,
                    Ok((v, end)) => r matches Ok(x) && x@ == v && final(c).at() == end,
                },
            },
    {
        let (slots, op_seen) = match read_header(RecordKind::Connection, header) {
            Ok(t) => t,
            Err(e) => return Err(e),
        };
        assert(slots@.len() == 2);
        let (id, storage_topic) = match (slots[0], slots[1]) {
            (Some(FieldValue::Int32(id)), Some(FieldValue::Text(storage_topic))) => (id, storage_topic),
            _ => return Err(Error::InvalidHeader),
        };
        if !op_seen {
            return Err(Error::InvalidRecord);
        }
        let buf = match c.next_chunk() {
            Ok(b) => b,
            Err(e) => return Err(Error::from(e)),
        };
        let mut fields = ConnectionFields {
            topic: None,
            tp: None,
            md5sum: None,
            message_definition: None,
            caller_id: None,
            latching: false,
        };
        let mut it = FieldIterator::new(buf);
        loop
            invariant
                scan_connection_fields(buf@, no_connection_fields())
                    == scan_connection_fields(it.rest(), fields@),
            decreases it.rest().len(),
        {
            proof {
                if it.rest().len() > 0 && parse_field(it.rest()) is Some {
                    lemma_parse_field_len(it.rest());
                }
            }
            match it.next() {
                None => break,
                Some(Err(e)) => return Err(e),
                Some(Ok((name, val))) => {
                    match fields.apply(name, val) {
                        Ok(()) => {},
                        Err(e) => return Err(e),
                    }
                },
            }
        }
        let (topic, tp, md5sum) = match (fields.topic, fields.tp, fields.md5sum) {
            (Some(topic), Some(tp), Some(md5sum)) => (topic, tp, md5sum),
            _ => return Err(Error::InvalidHeader),
        };
        proof {
            reveal_strlit("");
        }
        assert("".spec_bytes() =~= Seq::<u8>::empty());
        let message_definition = match fields.message_definition {
            Some(s) => s,
            None => "",
        };
        let caller_id = match fields.caller_id {
            Some(s) => s,
            None => "",
        };
        Ok(Connection {
            id,
            storage_topic,
            topic,
            tp,
            md5sum,
            message_definition,
            caller_id,
            latching: fields.latching,
        })
    }
}

/// The name of the `i`-th field a connection's nested block must hold:
/// `topic`, `type`, then `md5sum`.
pub open spec fn required_connection_field(i: int) -> Seq<u8> {
    if i == 0 {
        "topic".spec_bytes()
    } else if i == 1 {
        "type".spec_bytes()
    } else {
        "md5sum".spec_bytes()
    }
}

/// What the nested block has given for the `i`-th required field.
pub open spec fn required_connection_value(st: ConnectionFieldsView, i: int) -> Option<Seq<u8>> {
    if i == 0 {
        st.topic
    } else if i == 1 {
        st.tp
    } else {
        st.md5sum
    }
}

proof fn lemma_scan_keeps_required(buf: Seq<u8>, st: ConnectionFieldsView, i: int)
    requires
        0 <= i < 3,
        field_entries(buf) is Some,
        forall|j: int| 0 <= j < field_entries(buf)->Some_0.len()
            ==> (#[trigger] field_entries(buf)->Some_0[j]).0 != required_connection_field(i),
    ensures
        scan_connection_fields(buf, st) matches Ok(st2)
            ==> required_connection_value(st2, i) == required_connection_value(st, i),
    decreases buf.len(),
{
    if buf.len() > 0 {
        lemma_field_entries_step(buf);
        let (n, v, k) = parse_field(buf)->Some_0;
        let rest = buf.subrange(k, buf.len() as int);
        let es = field_entries(buf)->Some_0;
        let es2 = field_entries(rest)->Some_0;
        assert(es[0] == (n, v));
        assert forall|j: int| 0 <= j < es2.len() implies (#[trigger] es2[j]) == es[j + 1] by {}
        match apply_connection_field(st, n, v) {
            Ok(st2) => {
                assert(required_connection_value(st2, i) == required_connection_value(st, i));
                lemma_scan_keeps_required(rest, st2, i);
            },
            Err(_) => {},
        }
    }
}

/// A `Connection` whose nested block is well-formed and accepted field by
/// field, but lacks `topic`, `type` or `md5sum`, is rejected with
/// `InvalidHeader`; `message_definition` and `callerid` may be absent.
pub proof fn lemma_connection_missing_field(st: Slots, d: Seq<u8>, q: int, i: int)
    requires
        0 <= i < 3,
        st.1,
        block_fits(d, q),
        field_entries(block_at(d, q)) is Some,
        scan_connection_fields(block_at(d, q), no_connection_fields()) is Ok,
        forall|j: int| 0 <= j < field_entries(block_at(d, q))->Some_0.len()
            ==> (#[trigger] field_entries(block_at(d, q))->Some_0[j]).0 != required_connection_field(i),
    ensures
        connection_of(st, d, q) == Err::<(ConnectionView, int), Error>(Error::InvalidHeader),
{
    lemma_scan_keeps_required(block_at(d, q), no_connection_fields(), i);
}

} // verus!
