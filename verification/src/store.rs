use vstd::prelude::*;

use crate::messages::XCDPSendMessage;

verus! {

/// The view of one stored entry: composite key and message text.
pub type EntryModel = (Seq<char>, Seq<char>);

/// True when no two entries share a key.
pub open spec fn unique_keys(s: Seq<EntryModel>) -> bool {
    forall|i: int, j: int| 0 <= i < j < s.len() ==> s[i].0 != s[j].0
}

/// True when the sequence holds an entry under the given key.
pub open spec fn spec_contains_key(s: Seq<EntryModel>, key: Seq<char>) -> bool {
    exists|i: int| 0 <= i < s.len() && s[i].0 == key
}

/// Adding an entry under a fresh key keeps the keys unique.
pub proof fn lemma_unique_push(s: Seq<EntryModel>, e: EntryModel)
    requires
        unique_keys(s),
        !spec_contains_key(s, e.0),
    ensures
        unique_keys(s.push(e)),
{
    assert forall|i: int, j: int| 0 <= i < j < s.push(e).len() implies s.push(e)[i].0
        != s.push(e)[j].0 by {
        if j < s.len() {
        } else {
            assert(s.push(e)[i] == s[i]);
        }
    }
}

/// The permanent ledger of stored messages: a keyed map kept in
/// insertion order, with no eviction and no update in place. The store
/// itself does not reject duplicate keys; the ingestion handler checks
/// uniqueness before it inserts.
#[derive(Clone, Debug, PartialEq, Eq)]
pub struct EventStore {
    pub entries: Vec<(String, XCDPSendMessage)>,
}

/// The view of a run of exec entries, key and message text in order.
pub open spec fn entries_view(s: Seq<(String, XCDPSendMessage)>) -> Seq<EntryModel> {
    Seq::new(s.len(), |i: int| (s[i].0@, s[i].1@))
}

impl View for EventStore {
    type V = Seq<EntryModel>;

    open spec fn view(&self) -> Seq<EntryModel> {
        entries_view(self.entries@)
    }
}

impl EventStore {
    /// A fresh, empty ledger.
    pub fn new() -> (s: Self)
        ensures
            s@ == Seq::<EntryModel>::empty(),
    {
        let s = EventStore { entries: Vec::new() };
        proof {
            assert(s@ =~= Seq::<EntryModel>::empty());
        }
        s
    }

    /// How many entries the ledger holds.
    pub fn len(&self) -> (n: usize)
        ensures
            n == self@.len(),
    {
        self.entries.len()
    }

    /// Whether an entry is recorded under the given key.
    pub fn contains(&self, key: &String) -> (r: bool)
        ensures
            r == spec_contains_key(self@, key@),
    {
        let n = self.entries.len();
        let mut i: usize = 0;
        while i < n
            invariant
                0 <= i <= n,
                n == self@.len(),
                forall|j: int| 0 <= j < i ==> self@[j].0 != key@,
            decreases n - i,
        {
            if self.entries[i].0.eq(key) {
                assert(self@[i as int].0 == key@);
                return true;
            }
            i += 1;
        }
        false
    }

    /// The message recorded under the given key, if any.
    pub fn get(&self, key: &String) -> (r: Option<&XCDPSendMessage>)
        ensures
            match r {
                Some(m) => exists|i: int|
                    0 <= i < self@.len() && self@[i] == (key@, m@),
                None => !spec_contains_key(self@, key@),
            },
    {
        let n = self.entries.len();
        let mut i: usize = 0;
        while i < n
            invariant
                0 <= i <= n,
                n == self@.len(),
                forall|j: int| 0 <= j < i ==> self@[j].0 != key@,
            decreases n - i,
        {
            if self.entries[i].0.eq(key) {
                assert(self@[i as int] == (key@, self.entries@[i as int].1@));
                return Some(&self.entries[i].1);
            }
            i += 1;
        }
        None
    }

    /// Record a message under a key: an unconditional append, by design.
    pub fn insert(&mut self, key: String, message: XCDPSendMessage)
        ensures
            final(self)@ == old(self)@.push((key@, message@)),
    {
        let ghost k = key@;
        let ghost m = message@;
        self.entries.push((key, message));
        proof {
            assert(self@ =~= old(self)@.push((k, m)));
        }
    }

    /// Whether two entries share a key.
    pub fn has_duplicate_key(&self) -> (r: bool)
        ensures
            r == !unique_keys(self@),
    {
        let n = self.entries.len();
        let mut i: usize = 0;
        while i < n
            invariant
                0 <= i <= n,
                n == self@.len(),
                forall|p: int, q: int| 0 <= p < q < n && p < i ==> self@[p].0 != self@[q].0,
            decreases n - i,
        {
            let mut j: usize = i + 1;
            while j < n
                invariant
                    0 <= i < j <= n,
                    n == self@.len(),
                    forall|q: int| i < q < j ==> self@[i as int].0 != self@[q].0,
                decreases n - j,
            {
                if self.entries[i].0.eq(&self.entries[j].0) {
                    assert(self@[i as int].0 == self@[j as int].0);
                    return true;
                }
                j += 1;
            }
            i += 1;
        }
        false
    }
}

} // verus!
