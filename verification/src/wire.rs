use vstd::prelude::*;

use vstd::bytes::{
    lemma_auto_spec_u64_to_from_le_bytes, spec_u64_from_le_bytes, spec_u64_to_le_bytes,
    u64_from_le_bytes, u64_to_le_bytes,
};
use vstd::slice::{slice_subrange, slice_to_vec};
use vstd::string::StrSliceExecFns;
use vstd::utf8::{
    decode_utf8, encode_utf8, encode_utf8_decode_utf8, encode_utf8_valid_utf8, valid_utf8,
};

use crate::messages::XCDPSendMessage;
use crate::store::{entries_view, unique_keys, EntryModel, EventStore};

verus! {

/// The mathematical model of the persisted aggregate: every stored
/// entry in insertion order, and the running event counter.
#[verifier::ext_equal]
pub struct StateModel {
    pub events: Seq<EntryModel>,
    pub total_events: u64,
}

/// One text field on the wire: the byte length of its UTF-8 form as a
/// little-endian u64, then those bytes.
pub open spec fn spec_str_bytes(s: Seq<char>) -> Seq<u8> {
    spec_u64_to_le_bytes(encode_utf8(s).len() as u64) + encode_utf8(s)
}

/// One entry on the wire: its key, then its message text.
pub open spec fn spec_entry_bytes(e: EntryModel) -> Seq<u8> {
    spec_str_bytes(e.0) + spec_str_bytes(e.1)
}

/// A run of entries on the wire, in order.
pub open spec fn spec_entries_bytes(es: Seq<EntryModel>) -> Seq<u8>
    decreases es.len(),
{
    if es.len() == 0 {
        Seq::<u8>::empty()
    } else {
        spec_entry_bytes(es[0]) + spec_entries_bytes(es.drop_first())
    }
}

/// The whole aggregate on the wire: the entry count, every entry, then
/// the counter.
pub open spec fn spec_state_bytes(st: StateModel) -> Seq<u8> {
    spec_u64_to_le_bytes(st.events.len() as u64) + spec_entries_bytes(st.events)
        + spec_u64_to_le_bytes(st.total_events)
}

/// True when a text field's UTF-8 byte length fits the wire's length
/// prefix; every string a machine can hold satisfies it.
pub open spec fn bounded_entry(e: EntryModel) -> bool {
    encode_utf8(e.0).len() <= u64::MAX && encode_utf8(e.1).len() <= u64::MAX
}

/// True when every entry is bounded.
pub open spec fn bounded_entries(es: Seq<EntryModel>) -> bool {
    forall|i: int| 0 <= i < es.len() ==> bounded_entry(#[trigger] es[i])
}

/// Read a little-endian u64 from the front of a byte string.
pub open spec fn take_u64(b: Seq<u8>) -> Option<(u64, Seq<u8>)> {
    if b.len() >= 8 {
        Some((spec_u64_from_le_bytes(b.subrange(0, 8)), b.skip(8)))
    } else {
        None
    }
}

/// Read one length-prefixed UTF-8 text field from the front of a byte
/// string.
pub open spec fn take_str(b: Seq<u8>) -> Option<(Seq<char>, Seq<u8>)> {
    match take_u64(b) {
        None => None,
        Some((n, rest)) => if n <= rest.len() && valid_utf8(rest.subrange(0, n as int)) {
            Some((decode_utf8(rest.subrange(0, n as int)), rest.skip(n as int)))
        } else {
            None
        },
    }
}

/// Read a run of exactly n entries from the front of a byte string.
pub open spec fn take_entries(n: nat, b: Seq<u8>) -> Option<(Seq<EntryModel>, Seq<u8>)>
    decreases n,
{
    if n == 0 {
        Some((Seq::<EntryModel>::empty(), b))
    } else {
        match take_str(b) {
            None => None,
            Some((k, b1)) => match take_str(b1) {
                None => None,
                Some((m, b2)) => match take_entries((n - 1) as nat, b2) {
                    None => None,
                    Some((es, b3)) => Some((seq![(k, m)] + es, b3)),
                },
            },
        }
    }
}

/// What a persisted byte string describes: an aggregate with unique
/// keys, read whole with nothing left over, or nothing.
pub open spec fn spec_parse_state(b: Seq<u8>) -> Option<StateModel> {
    match take_u64(b) {
        None => None,
        Some((n, b1)) => match take_entries(n as nat, b1) {
            None => None,
            Some((es, b2)) => match take_u64(b2) {
                None => None,
                Some((total, b3)) => if b3.len() == 0 && unique_keys(es) {
                    Some(StateModel { events: es, total_events: total })
                } else {
                    None
                },
            },
        },
    }
}

/// Appending one entry extends the wire image of a run of entries.
pub proof fn lemma_entries_bytes_push(es: Seq<EntryModel>, e: EntryModel)
    ensures
        spec_entries_bytes(es.push(e)) == spec_entries_bytes(es) + spec_entry_bytes(e),
    decreases es.len(),
{
    if es.len() == 0 {
        assert(es =~= Seq::<EntryModel>::empty());
        assert(es.push(e).drop_first() =~= es);
        assert(es.push(e)[0] == e);
        assert(spec_entries_bytes(es.push(e)) =~= spec_entries_bytes(es) + spec_entry_bytes(e));
    } else {
        lemma_entries_bytes_push(es.drop_first(), e);
        assert(es.push(e).drop_first() =~= es.drop_first().push(e));
        assert(es.push(e)[0] == es[0]);
        assert(spec_entry_bytes(es[0]) + (spec_entries_bytes(es.drop_first())
            + spec_entry_bytes(e)) =~= (spec_entry_bytes(es[0]) + spec_entries_bytes(
            es.drop_first(),
        )) + spec_entry_bytes(e));
    }
}

/// Serialize one text field.
fn encode_str(s: &String) -> (r: Vec<u8>)
    ensures
        r@ == spec_str_bytes(s@),
        encode_utf8(s@).len() <= u64::MAX,
{
    let mut bytes = s.as_str().as_bytes_vec();
    let n = bytes.len();
    let mut out = u64_to_le_bytes(n as u64);
    out.append(&mut bytes);
    proof {
        assert(out@ =~= spec_str_bytes(s@));
    }
    out
}

/// Serialize the aggregate: entry count, entries in insertion order,
/// then the counter.
pub fn encode_aggregate(events: &EventStore, total_events: u64) -> (r: Vec<u8>)
    ensures
        r@ == spec_state_bytes(StateModel { events: events@, total_events }),
        events@.len() <= u64::MAX,
        bounded_entries(events@),
{
    let n = events.entries.len();
    let mut out = u64_to_le_bytes(n as u64);
    let mut i: usize = 0;
    while i < n
        invariant
            0 <= i <= n,
            n == events@.len(),
            out@ == spec_u64_to_le_bytes(n as u64) + spec_entries_bytes(events@.take(i as int)),
            forall|j: int| 0 <= j < i ==> bounded_entry(#[trigger] events@[j]),
        decreases n - i,
    {
        let mut k = encode_str(&events.entries[i].0);
        let mut m = encode_str(&events.entries[i].1.message);
        out.append(&mut k);
        out.append(&mut m);
        proof {
            assert(events@[i as int] == (events.entries@[i as int].0@, events.entries@[
                i as int].1@));
            lemma_entries_bytes_push(events@.take(i as int), events@[i as int]);
            assert(events@.take(i as int + 1) =~= events@.take(i as int).push(
                events@[i as int],
            ));
            assert(out@ =~= spec_u64_to_le_bytes(n as u64) + spec_entries_bytes(
                events@.take(i as int + 1),
            ));
        }
        i += 1;
    }
    let mut t = u64_to_le_bytes(total_events);
    out.append(&mut t);
    proof {
        assert(events@.take(n as int) =~= events@);
        assert(out@ =~= spec_state_bytes(StateModel { events: events@, total_events }));
    }
    out
}

/// Reading a u64 from its own wire image yields it back.
proof fn lemma_take_u64_of_bytes(v: u64, rest: Seq<u8>)
    ensures
        take_u64(spec_u64_to_le_bytes(v) + rest) == Some((v, rest)),
{
    lemma_auto_spec_u64_to_from_le_bytes();
    let b = spec_u64_to_le_bytes(v) + rest;
    assert(b.subrange(0, 8) =~= spec_u64_to_le_bytes(v));
    assert(b.skip(8) =~= rest);
}

/// Reading a text field from its own wire image yields it back.
proof fn lemma_take_str_of_bytes(s: Seq<char>, rest: Seq<u8>)
    requires
        encode_utf8(s).len() <= u64::MAX,
    ensures
        take_str(spec_str_bytes(s) + rest) == Some((s, rest)),
{
    let u = encode_utf8(s);
    lemma_take_u64_of_bytes(u.len() as u64, u + rest);
    assert(spec_str_bytes(s) + rest =~= spec_u64_to_le_bytes(u.len() as u64) + (u + rest));
    assert((u + rest).subrange(0, u.len() as int) =~= u);
    broadcast use encode_utf8_valid_utf8;

    encode_utf8_decode_utf8(s);
    assert((u + rest).skip(u.len() as int) =~= rest);
}

/// Reading a run of entries from its own wire image yields it back.
proof fn lemma_take_entries_of_bytes(es: Seq<EntryModel>, rest: Seq<u8>)
    requires
        bounded_entries(es),
    ensures
        take_entries(es.len(), spec_entries_bytes(es) + rest) == Some((es, rest)),
    decreases es.len(),
{
    if es.len() == 0 {
        assert(spec_entries_bytes(es) + rest =~= rest);
    } else {
        let e = es[0];
        let tail_entries = spec_entries_bytes(es.drop_first()) + rest;
        lemma_take_str_of_bytes(e.0, spec_str_bytes(e.1) + tail_entries);
        assert(spec_entries_bytes(es) + rest =~= spec_str_bytes(e.0) + (spec_str_bytes(e.1)
            + tail_entries));
        lemma_take_str_of_bytes(e.1, tail_entries);
        assert(bounded_entries(es.drop_first())) by {
            assert(forall|i: int|
                0 <= i < es.drop_first().len() ==> #[trigger] es.drop_first()[i] == es[i + 1]);
        }
        lemma_take_entries_of_bytes(es.drop_first(), rest);
        assert(seq![(e.0, e.1)] + es.drop_first() =~= es);
        assert(take_entries(es.len(), spec_entries_bytes(es) + rest) == Some((es, rest)));
    }
}

/// Law: the persisted image of any reachable aggregate state reads back
/// as exactly that state. Keys are unique in any reachable state, and
/// every machine-held string is bounded; under those premises,
/// serialization loses nothing.
pub proof fn lemma_state_roundtrip(st: StateModel)
    requires
        unique_keys(st.events),
        st.events.len() <= u64::MAX,
        bounded_entries(st.events),
    ensures
        spec_parse_state(spec_state_bytes(st)) == Some(st),
{
    let counter = spec_u64_to_le_bytes(st.total_events);
    lemma_take_u64_of_bytes(
        st.events.len() as u64,
        spec_entries_bytes(st.events) + counter,
    );
    assert(spec_state_bytes(st) =~= spec_u64_to_le_bytes(st.events.len() as u64) + (
    spec_entries_bytes(st.events) + counter));
    lemma_take_entries_of_bytes(st.events, counter);
    lemma_take_u64_of_bytes(st.total_events, Seq::<u8>::empty());
    assert(counter + Seq::<u8>::empty() =~= counter);
    assert(spec_parse_state(spec_state_bytes(st)) == Some(st));
}

/// Relies on String::from_utf8: it succeeds exactly on valid UTF-8
/// input, and the characters of the result are the decoding of those
/// bytes.
#[verifier::external_body]
fn string_from_utf8(v: Vec<u8>) -> (r: Option<String>)
    ensures
        match r {
            Some(s) => valid_utf8(v@) && s@ == decode_utf8(v@),
            None => !valid_utf8(v@),
        },
{
    String::from_utf8(v).ok()
}

/// Read a little-endian u64 at a position of the buffer.
fn read_u64_at(bytes: &Vec<u8>, pos: usize) -> (r: Option<(u64, usize)>)
    requires
        pos <= bytes@.len(),
    ensures
        match r {
            Some(vp) => {
                &&& vp.1 == pos + 8
                &&& vp.1 <= bytes@.len()
                &&& take_u64(bytes@.skip(pos as int)) == Some((vp.0, bytes@.skip(vp.1 as int)))
            },
            None => take_u64(bytes@.skip(pos as int)) is None,
        },
{
    if bytes.len() - pos >= 8 {
        let s = slice_subrange(bytes.as_slice(), pos, pos + 8);
        let v = u64_from_le_bytes(s);
        proof {
            assert(bytes@.skip(pos as int).subrange(0, 8) =~= bytes@.subrange(
                pos as int,
                pos as int + 8,
            ));
            assert(bytes@.skip(pos as int).skip(8) =~= bytes@.skip(pos as int + 8));
        }
        Some((v, pos + 8))
    } else {
        None
    }
}

/// Read one length-prefixed UTF-8 text field at a position of the
/// buffer.
fn read_str_at(bytes: &Vec<u8>, pos: usize) -> (r: Option<(String, usize)>)
    requires
        pos <= bytes@.len(),
    ensures
        match r {
            Some(sp) => {
                &&& pos <= sp.1 <= bytes@.len()
                &&& take_str(bytes@.skip(pos as int)) == Some((sp.0@, bytes@.skip(sp.1 as int)))
            },
            None => take_str(bytes@.skip(pos as int)) is None,
        },
{
    match read_u64_at(bytes, pos) {
        None => None,
        Some((n, p1)) => {
            let rem = bytes.len() - p1;
            if n > rem as u64 {
                None
            } else {
                let end = p1 + (n as usize);
                let piece = slice_to_vec(slice_subrange(bytes.as_slice(), p1, end));
                proof {
                    assert(piece@ =~= bytes@.skip(p1 as int).subrange(0, n as int));
                    assert(bytes@.skip(p1 as int).skip(n as int) =~= bytes@.skip(end as int));
                }
                match string_from_utf8(piece) {
                    Some(s) => Some((s, end)),
                    None => None,
                }
            }
        },
    }
}

/// Deserialize a persisted byte string back into the ledger and the
/// counter. Returns nothing exactly when the bytes describe no
/// aggregate: a truncated or oversized image, text that is not UTF-8,
/// leftover bytes, or a duplicated key.
pub fn parse_aggregate(bytes: &Vec<u8>) -> (r: Option<(EventStore, u64)>)
    ensures
        match r {
            Some(st) => {
                &&& unique_keys(st.0@)
                &&& spec_parse_state(bytes@) == Some(
                    StateModel { events: st.0@, total_events: st.1 },
                )
            },
            None => spec_parse_state(bytes@) is None,
        },
{
    proof {
        assert(bytes@.skip(0) =~= bytes@);
    }
    let (n, first) = match read_u64_at(bytes, 0) {
        Some(x) => x,
        None => {
            return None;
        },
    };
    let ghost b1 = bytes@.skip(first as int);
    let mut pos: usize = first;
    let mut entries: Vec<(String, XCDPSendMessage)> = Vec::new();
    let mut i: u64 = 0;
    proof {
        assert(entries_view(entries@) =~= Seq::<EntryModel>::empty());
        assert(Seq::<EntryModel>::empty() + take_entries(n as nat, b1)->Some_0.0
            =~= take_entries(n as nat, b1)->Some_0.0) by {
            if take_entries(n as nat, b1) is Some {
            }
        }
    }
    while i < n
        invariant
            i <= n,
            pos <= bytes@.len(),
            take_u64(bytes@) == Some((n, b1)),
            take_entries(n as nat, b1) == (match take_entries(
                (n - i) as nat,
                bytes@.skip(pos as int),
            ) {
                None => None::<(Seq<EntryModel>, Seq<u8>)>,
                Some(tail) => Some((entries_view(entries@) + tail.0, tail.1)),
            }),
        decreases n - i,
    {
        let (k, p1) = match read_str_at(bytes, pos) {
            Some(x) => x,
            None => {
                return None;
            },
        };
        let (m, p2) = match read_str_at(bytes, p1) {
            Some(x) => x,
            None => {
                return None;
            },
        };
        let ghost pre = entries_view(entries@);
        let ghost kview = k@;
        let ghost mview = m@;
        entries.push((k, XCDPSendMessage { message: m }));
        proof {
            assert(entries_view(entries@) =~= pre.push((kview, mview)));
            assert(((n - i) as nat - 1) as nat == (n - i - 1) as nat);
            match take_entries((n - i - 1) as nat, bytes@.skip(p2 as int)) {
                Some(tail) => {
                    assert(pre.push((kview, mview)) + tail.0 =~= pre + (seq![(kview, mview)]
                        + tail.0));
                },
                None => {},
            }
        }
        pos = p2;
        i = i + 1;
    }
    proof {
        assert(take_entries((n - i) as nat, bytes@.skip(pos as int)) == Some((
            Seq::<EntryModel>::empty(),
            bytes@.skip(pos as int),
        )));
        assert(entries_view(entries@) + Seq::<EntryModel>::empty() =~= entries_view(entries@));
    }
    let (total, p3) = match read_u64_at(bytes, pos) {
        Some(x) => x,
        None => {
            return None;
        },
    };
    if p3 != bytes.len() {
        proof {
            assert(bytes@.skip(p3 as int).len() != 0);
        }
        return None;
    }
    proof {
        assert(bytes@.skip(p3 as int).len() == 0);
    }
    let store = EventStore { entries };
    if store.has_duplicate_key() {
        return None;
    }
    Some((store, total))
}

} // verus!
