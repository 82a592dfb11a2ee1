//! The key-value store. Every operation is handed the current time, in
//! milliseconds on a clock of the caller's choosing; the store reads none.
//! An entry whose time to live has run out reads as absent and is removed
//! when it is next read.

use vstd::hash_map::*;
use vstd::prelude::*;

verus! {

/// What the store holds for a key.
#[derive(Debug, Clone)]
pub struct Value {
    value: String,
    expires_at: Option<u128>,
}

/// What a `Value` holds: the payload, and the instant at which it expires if
/// it ever does.
pub struct Entry {
    pub payload: Seq<char>,
    pub expires_at: Option<nat>,
}

impl View for Value {
    type V = Entry;

    closed spec fn view(&self) -> Entry {
        Entry {
            payload: self.value@,
            expires_at: match self.expires_at {
                Some(at) => Some(at as nat),
                None => None,
            },
        }
    }
}

/// The instant at which a value expires that is written at `now` with the
/// time to live `ttl`.
pub open spec fn deadline(now: u64, ttl: Option<u64>) -> Option<nat> {
    match ttl {
        Some(millis) => Some((now + millis) as nat),
        None => None,
    }
}

/// `entry` has expired at `now`: it has a deadline, and `now` has reached it.
pub open spec fn expired(entry: Entry, now: u64) -> bool {
    entry.expires_at matches Some(at) && at <= now
}

/// What a read of `key` at `now` returns: the payload of an entry that is
/// present and has not expired.
pub open spec fn lookup(entries: Map<Seq<char>, Entry>, key: Seq<char>, now: u64) -> Option<
    Seq<char>,
> {
    if entries.contains_key(key) && !expired(entries[key], now) {
        Some(entries[key].payload)
    } else {
        None
    }
}

/// What a read of `key` at `now` leaves behind: an expired entry is removed,
/// and nothing else changes.
pub open spec fn after_get(entries: Map<Seq<char>, Entry>, key: Seq<char>, now: u64) -> Map<
    Seq<char>,
    Entry,
> {
    if entries.contains_key(key) && expired(entries[key], now) {
        entries.remove(key)
    } else {
        entries
    }
}

/// What a write at `now` leaves behind: the entry of `key` is replaced.
pub open spec fn after_set(
    entries: Map<Seq<char>, Entry>,
    key: Seq<char>,
    value: Seq<char>,
    now: u64,
    ttl: Option<u64>,
) -> Map<Seq<char>, Entry> {
    entries.insert(key, Entry { payload: value, expires_at: deadline(now, ttl) })
}

impl Value {
    /// A value that never expires.
    pub fn new(value: String) -> (v: Value)
        ensures
            v@ == (Entry { payload: value@, expires_at: None }),
    {
        Value { value, expires_at: None }
    }

    /// A value written at `now` that expires `timeout` milliseconds later.
    pub fn with_timeout(value: String, timeout: u64, now: u64) -> (v: Value)
        ensures
            v@ == (Entry { payload: value@, expires_at: Some((now + timeout) as nat) }),
    {
        Value { value, expires_at: Some(now as u128 + timeout as u128) }
    }

    /// Tells whether the value has expired at `now`.
    pub fn is_expired(&self, now: u64) -> (r: bool)
        ensures
            r == expired(self@, now),
    {
        match self.expires_at {
            Some(at) => at <= now as u128,
            None => false,
        }
    }

    /// The payload.
    pub fn payload(&self) -> (text: &String)
        ensures
            text@ == self@.payload,
    {
        &self.value
    }
}

/// The mapping from keys to values.
pub struct Store {
    entries: StringHashMap<Value>,
}

impl View for Store {
    type V = Map<Seq<char>, Entry>;

    closed spec fn view(&self) -> Map<Seq<char>, Entry> {
        self.entries@.map_values(|v: Value| v@)
    }
}

impl Store {
    /// A store without entries.
    pub fn new() -> (store: Store)
        ensures
            store@ == Map::<Seq<char>, Entry>::empty(),
    {
        let store = Store { entries: StringHashMap::new() };
        assert(store@ =~= Map::<Seq<char>, Entry>::empty());
        store
    }

    /// Reads `key` at `now`. An entry that has expired is removed.
    pub fn get(&mut self, key: &str, now: u64) -> (r: Option<String>)
        ensures
            match r {
                Some(payload) => lookup(old(self)@, key@, now) == Some(payload@),
                None => lookup(old(self)@, key@, now) is None,
            },
            final(self)@ == after_get(old(self)@, key@, now),
    {
        let found: Option<Option<String>> = match self.entries.get(key) {
            Some(value) => if value.is_expired(now) {
                Some(None)
            } else {
                Some(Some(value.value.clone()))
            },
            None => None,
        };
        match found {
            Some(None) => {
                self.entries.remove(key);
                assert(self@ =~= old(self)@.remove(key@));
                None
            },
            Some(Some(payload)) => Some(payload),
            None => None,
        }
    }

    /// Writes `value` under `key` at `now`, in place of whatever was there.
    /// With a time to live the entry expires that many milliseconds later;
    /// without one it never does.
    pub fn set(&mut self, key: String, value: String, now: u64, ttl: Option<u64>)
        ensures
            final(self)@ == after_set(old(self)@, key@, value@, now, ttl),
    {
        let entry = match ttl {
            Some(millis) => Value::with_timeout(value, millis, now),
            None => Value::new(value),
        };
        self.entries.insert(key, entry);
        assert(self@ =~= after_set(old(self)@, key@, value@, now, ttl));
    }
}

} // verus!
