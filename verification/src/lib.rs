use vstd::prelude::*;

pub mod codec;
pub mod errors;
pub mod messages;
pub mod store;
pub mod wire;

use vstd::string::StringExecFns;

use crate::codec::{decode_event, spec_decode_event};
use crate::errors::{EventError, StateError, ValidationError};
use crate::messages::{XCDPSendMessage, XCDPSendMessageSolidity};
use crate::store::{
    lemma_unique_push, spec_contains_key, unique_keys, EntryModel, EventStore,
};
use crate::wire::{
    bounded_entries, encode_aggregate, parse_aggregate, spec_parse_state, spec_state_bytes,
    StateModel,
};

verus! {

/// The composite storage key: correlation id, a dash, then the event
/// discriminator.
pub open spec fn spec_key(correlation_id: Seq<char>, event_id: Seq<char>) -> Seq<char> {
    correlation_id + seq!['-'] + event_id
}

/// What one ingestion call does to the aggregate: reject an empty
/// correlation id, then an empty raw record, then any decode failure,
/// then a duplicated composite key; otherwise record the message under
/// the key and count it.
pub open spec fn spec_ingest(st: StateModel, correlation_id: Seq<char>, raw: Seq<u8>) -> Result<
    StateModel,
    EventError,
> {
    if correlation_id.len() == 0 {
        Err(EventError::Validation(ValidationError::EmptyCorrelationId))
    } else if raw.len() == 0 {
        Err(EventError::Validation(ValidationError::EmptyEventData))
    } else {
        match spec_decode_event(raw) {
            Err(e) => Err(EventError::Decode(e)),
            Ok(decoded) => {
                let key = spec_key(correlation_id, decoded.0);
                if spec_contains_key(st.events, key) {
                    Err(EventError::Validation(ValidationError::DuplicateKey))
                } else {
                    Ok(
                        StateModel {
                            events: st.events.push((key, decoded.1)),
                            total_events: (st.total_events + 1) as u64,
                        },
                    )
                }
            },
        }
    }
}

/// The aggregate root: the ledger of stored messages and the running
/// event counter. It is loaded whole, mutated, and saved whole.
#[derive(Clone, Debug, PartialEq, Eq)]
pub struct XCDPCore {
    pub events: EventStore,
    pub total_events: u64,
}

impl View for XCDPCore {
    type V = StateModel;

    open spec fn view(&self) -> StateModel {
        StateModel { events: self.events@, total_events: self.total_events }
    }
}

impl Default for XCDPCore {
    /// A fresh aggregate: no entries, counter at zero.
    fn default() -> (c: Self)
        ensures
            c@.events == Seq::<EntryModel>::empty(),
            c@.total_events == 0,
    {
        XCDPCore { events: EventStore::new(), total_events: 0 }
    }
}

impl XCDPCore {
    /// Every reachable aggregate keeps its composite keys unique.
    pub open spec fn wf(self) -> bool {
        unique_keys(self@.events)
    }

    /// Create a fresh, empty aggregate. Persisting it is the caller's
    /// step: the library never touches storage itself.
    pub fn new() -> (c: Self)
        ensures
            c@.events == Seq::<EntryModel>::empty(),
            c@.total_events == 0,
            c.wf(),
    {
        Self::default()
    }

    /// Rebuild the aggregate from the durable slot's content: absent
    /// content means the aggregate was never initialized, and bytes
    /// that describe no aggregate are corrupt.
    pub fn load(slot: Option<&Vec<u8>>) -> (r: Result<XCDPCore, StateError>)
        ensures
            match r {
                Ok(c) => {
                    &&& c.wf()
                    &&& match slot {
                        Some(b) => spec_parse_state(b@) == Some(c@),
                        None => false,
                    }
                },
                Err(e) => match slot {
                    None => e == StateError::NotInitialized,
                    Some(b) => e == StateError::CorruptState && spec_parse_state(b@) is None,
                },
            },
    {
        match slot {
            None => Err(StateError::NotInitialized),
            Some(bytes) => match parse_aggregate(bytes) {
                Some((events, total_events)) => Ok(XCDPCore { events, total_events }),
                None => Err(StateError::CorruptState),
            },
        }
    }

    /// Serialize the whole aggregate for the durable slot. The verified
    /// encoder is total, so serialization cannot fail.
    pub fn save(&self) -> (r: Vec<u8>)
        ensures
            r@ == spec_state_bytes(self@),
            self@.events.len() <= u64::MAX,
            bounded_entries(self@.events),
    {
        encode_aggregate(&self.events, self.total_events)
    }

    /// Combine a correlation id and an event discriminator into the
    /// composite storage key.
    pub fn to_key(global_tx_id: String, event_type: String) -> (r: String)
        ensures
            r@ == spec_key(global_tx_id@, event_type@),
    {
        let r = global_tx_id.concat("-").concat(event_type.as_str());
        proof {
            reveal_strlit("-");
            assert("-"@ =~= seq!['-']);
            assert(r@ =~= spec_key(global_tx_id@, event_type@));
        }
        r
    }

    /// Record a message under the composite key and count it: an
    /// unconditional write, with the uniqueness check left to the
    /// ingestion handler.
    pub fn save_message_event(
        &mut self,
        global_tx_id: String,
        event_id: String,
        event: XCDPSendMessage,
        destination_network: String,
        destination_smart_contract_address: [u8; 32],
    )
        requires
            old(self).total_events < u64::MAX,
        ensures
            final(self)@.events == old(self)@.events.push(
                (spec_key(global_tx_id@, event_id@), event@),
            ),
            final(self)@.total_events == old(self)@.total_events + 1,
    {
        let key = Self::to_key(global_tx_id, event_id);
        self.events.insert(key, event);
        self.total_events = self.total_events + 1;
    }

    /// The ingestion entry point: validate the inputs, decode the raw
    /// record, derive the composite key, refuse a duplicate, then
    /// record and count the message. A failed call leaves the
    /// aggregate exactly as it was.
    pub fn save_event_data(&mut self, event_data: Vec<u8>, global_tx_id: String) -> (r: Result<
        (),
        EventError,
    >)
        requires
            old(self).wf(),
            old(self).total_events < u64::MAX,
        ensures
            final(self).wf(),
            match r {
                Ok(_) => spec_ingest(old(self)@, global_tx_id@, event_data@) == Ok::<
                    StateModel,
                    EventError,
                >(final(self)@),
                Err(e) => {
                    &&& *final(self) == *old(self)
                    &&& spec_ingest(old(self)@, global_tx_id@, event_data@) == Err::<
                        StateModel,
                        EventError,
                    >(e)
                },
            },
    {
        let ghost tview = global_tx_id@;
        let ghost rview = event_data@;
        if global_tx_id.as_str().is_empty() {
            return Err(EventError::Validation(ValidationError::EmptyCorrelationId));
        }
        if event_data.is_empty() {
            return Err(EventError::Validation(ValidationError::EmptyEventData));
        }
        let decoded = match decode_event(&event_data) {
            Ok(d) => d,
            Err(e) => {
                return Err(EventError::Decode(e));
            },
        };
        let key = Self::to_key(global_tx_id.clone(), decoded.event_id.clone());
        if self.events.contains(&key) {
            return Err(EventError::Validation(ValidationError::DuplicateKey));
        }
        let event = XCDPSendMessageSolidity { message: decoded.message };
        let ghost keyview = key@;
        let ghost msgview = event.message@;
        self.save_message_event(
            global_tx_id,
            decoded.event_id,
            XCDPSendMessage::from(event),
            "destination_network_placeholder".to_owned(),
            [0u8; 32],
        );
        proof {
            lemma_unique_push(old(self)@.events, (keyview, msgview));
            assert(spec_ingest(old(self)@, tview, rview)->Ok_0 =~= self@);
        }
        Ok(())
    }
}

/// Law: once an ingestion succeeds, repeating it on the resulting state
/// with the same inputs fails with DuplicateKey, and by that failure
/// leaves the state unchanged.
pub proof fn lemma_ingest_rejects_duplicate(st: StateModel, correlation_id: Seq<char>, raw: Seq<u8>)
    requires
        spec_ingest(st, correlation_id, raw) is Ok,
    ensures
        spec_ingest(spec_ingest(st, correlation_id, raw)->Ok_0, correlation_id, raw) == Err::<
            StateModel,
            EventError,
        >(EventError::Validation(ValidationError::DuplicateKey)),
{
    let st1 = spec_ingest(st, correlation_id, raw)->Ok_0;
    match spec_decode_event(raw) {
        Ok(decoded) => {
            let key = spec_key(correlation_id, decoded.0);
            assert(st1.events == st.events.push((key, decoded.1)));
            assert(st1.events[st.events.len() as int].0 == key);
            assert(spec_contains_key(st1.events, key));
        },
        Err(_) => {
            assert(false);
        },
    }
}

/// A run of ingestion calls applied in order, stopping at the first
/// failure.
pub open spec fn spec_ingest_all(st: StateModel, calls: Seq<(Seq<char>, Seq<u8>)>) -> Result<
    StateModel,
    EventError,
>
    decreases calls.len(),
{
    if calls.len() == 0 {
        Ok(st)
    } else {
        match spec_ingest(st, calls[0].0, calls[0].1) {
            Err(e) => Err(e),
            Ok(st1) => spec_ingest_all(st1, calls.drop_first()),
        }
    }
}

/// Law: counter consistency. Starting from an aggregate whose counter
/// matches its entry count — in particular the fresh aggregate, where
/// both are zero — N successful ingestions grow the entry count and
/// the counter by exactly N each.
pub proof fn lemma_counter_consistency(st: StateModel, calls: Seq<(Seq<char>, Seq<u8>)>)
    requires
        spec_ingest_all(st, calls) is Ok,
        st.events.len() == st.total_events,
        st.total_events + calls.len() <= u64::MAX,
    ensures
        spec_ingest_all(st, calls)->Ok_0.events.len() == st.events.len() + calls.len(),
        spec_ingest_all(st, calls)->Ok_0.total_events == st.total_events + calls.len(),
    decreases calls.len(),
{
    if calls.len() == 0 {
    } else {
        let st1 = spec_ingest(st, calls[0].0, calls[0].1)->Ok_0;
        lemma_counter_consistency(st1, calls.drop_first());
    }
}

} // verus!


