//! What the hub remembers about each dongle between runs.

use vstd::prelude::*;
use vstd::utf8::encode_utf8;
use crate::ble::clone_address;
use crate::bridge::BridgeStatus;
use crate::protocol::{DeviceIdentity, HealthStatus, RelayState};
use crate::text::{owned, str_eq};

verus! {

/// Last known facts about one dongle.
#[derive(Debug, PartialEq, Eq)]
pub struct PersistedDongleState {
    pub last_seen_ble_address: Option<String>,
    pub last_relay_state: Option<RelayState>,
    pub identity: Option<DeviceIdentity>,
    pub health: Option<HealthStatus>,
}

impl PersistedDongleState {
    /// Nothing known.
    pub open spec fn empty_spec() -> PersistedDongleState {
        PersistedDongleState {
            last_seen_ble_address: None,
            last_relay_state: None,
            identity: None,
            health: None,
        }
    }

    /// What the hub records of a bridge's status.
    pub open spec fn of_status(status: BridgeStatus) -> PersistedDongleState {
        PersistedDongleState {
            last_seen_ble_address: status.ble_address,
            last_relay_state: Some(status.relay_state),
            identity: status.identity,
            health: status.health,
        }
    }

    pub fn from_status(status: &BridgeStatus) -> (p: PersistedDongleState)
        ensures
            p == PersistedDongleState::of_status(*status),
    {
        PersistedDongleState {
            last_seen_ble_address: clone_address(&status.ble_address),
            last_relay_state: Some(status.relay_state),
            identity: status.identity,
            health: status.health,
        }
    }
}

impl Default for PersistedDongleState {
    fn default() -> (p: PersistedDongleState)
        ensures
            p == PersistedDongleState::empty_spec(),
    {
        PersistedDongleState {
            last_seen_ble_address: None,
            last_relay_state: None,
            identity: None,
            health: None,
        }
    }
}

impl Clone for PersistedDongleState {
    fn clone(&self) -> (p: PersistedDongleState)
        ensures
            p == *self,
    {
        PersistedDongleState {
            last_seen_ble_address: clone_address(&self.last_seen_ble_address),
            last_relay_state: self.last_relay_state,
            identity: self.identity,
            health: self.health,
        }
    }
}

/// The key and state of each entry, keys as text.
pub open spec fn entries_view(entries: Seq<(String, PersistedDongleState)>) -> Seq<
    (Seq<char>, PersistedDongleState),
> {
    entries.map_values(|e: (String, PersistedDongleState)| (e.0@, e.1))
}

/// Position of the last entry with this key, or -1 when there is none.
pub open spec fn key_index(v: Seq<(Seq<char>, PersistedDongleState)>, key: Seq<char>) -> int
    decreases v.len(),
{
    if v.len() == 0 {
        -1
    } else if v.last().0 == key {
        v.len() - 1
    } else {
        key_index(v.drop_last(), key)
    }
}

/// `key_index` finds an entry with the key exactly when there is one.
pub proof fn lemma_key_index(v: Seq<(Seq<char>, PersistedDongleState)>, key: Seq<char>)
    ensures
        -1 <= key_index(v, key) < v.len(),
        key_index(v, key) >= 0 ==> v[key_index(v, key)].0 == key,
        key_index(v, key) == -1 <==> forall|i: int| 0 <= i < v.len() ==> v[i].0 != key,
    decreases v.len(),
{
    if v.len() > 0 {
        lemma_key_index(v.drop_last(), key);
        if v.last().0 != key {
            assert forall|i: int| 0 <= i < v.len() - 1 implies v[i] == v.drop_last()[i] by {}
        }
    }
}

/// Byte strings in lexicographic order, the order in which `str` compares.
pub open spec fn bytes_less(a: Seq<u8>, b: Seq<u8>) -> bool
    decreases a.len(),
{
    if a.len() == 0 {
        b.len() > 0
    } else if b.len() == 0 {
        false
    } else if a[0] != b[0] {
        a[0] < b[0]
    } else {
        bytes_less(a.drop_first(), b.drop_first())
    }
}

/// Keys in the order `String` sorts them: by their UTF-8 bytes.
pub open spec fn key_less(a: Seq<char>, b: Seq<char>) -> bool {
    bytes_less(encode_utf8(a), encode_utf8(b))
}

/// Keys strictly ascending.
pub open spec fn keys_ascending(v: Seq<(Seq<char>, PersistedDongleState)>) -> bool {
    forall|i: int, j: int| 0 <= i < j < v.len() ==> key_less((#[trigger] v[i]).0, (#[trigger] v[j]).0)
}

/// Where a new key goes: just after the entries whose keys come before it.
pub open spec fn insert_position(v: Seq<(Seq<char>, PersistedDongleState)>, key: Seq<char>) -> int
    decreases v.len(),
{
    if v.len() == 0 {
        0
    } else if key_less(v.last().0, key) {
        v.len() as int
    } else {
        insert_position(v.drop_last(), key)
    }
}

/// The entries after `key` is set to `value`: replaced in place when present,
/// added in key order otherwise.
pub open spec fn with_entry(
    v: Seq<(Seq<char>, PersistedDongleState)>,
    key: Seq<char>,
    value: PersistedDongleState,
) -> Seq<(Seq<char>, PersistedDongleState)> {
    let i = key_index(v, key);
    if i >= 0 {
        v.update(i, (key, value))
    } else {
        v.insert(insert_position(v, key), (key, value))
    }
}

/// No byte string comes before itself.
proof fn lemma_bytes_less_irreflexive(a: Seq<u8>)
    ensures
        !bytes_less(a, a),
    decreases a.len(),
{
    if a.len() > 0 {
        lemma_bytes_less_irreflexive(a.drop_first());
    }
}

/// Of two different byte strings exactly one comes first.
proof fn lemma_bytes_less_total(a: Seq<u8>, b: Seq<u8>)
    ensures
        a != b ==> (bytes_less(a, b) || bytes_less(b, a)),
        !(bytes_less(a, b) && bytes_less(b, a)),
    decreases a.len(),
{
    if a.len() > 0 && b.len() > 0 && a[0] == b[0] {
        lemma_bytes_less_total(a.drop_first(), b.drop_first());
        if a.drop_first() == b.drop_first() {
            assert(a =~= seq![a[0]] + a.drop_first());
            assert(b =~= seq![b[0]] + b.drop_first());
        }
    } else if a.len() == 0 && b.len() == 0 {
        assert(a =~= b);
    }
}

/// The lexicographic order is transitive.
proof fn lemma_bytes_less_transitive(a: Seq<u8>, b: Seq<u8>, c: Seq<u8>)
    requires
        bytes_less(a, b),
        bytes_less(b, c),
    ensures
        bytes_less(a, c),
    decreases a.len(),
{
    if a.len() > 0 && b.len() > 0 && c.len() > 0 && a[0] == b[0] && b[0] == c[0] {
        lemma_bytes_less_transitive(a.drop_first(), b.drop_first(), c.drop_first());
    }
}

/// `key_less` orders keys strictly and totally.
proof fn lemma_key_order(a: Seq<char>, b: Seq<char>, c: Seq<char>)
    ensures
        !key_less(a, a),
        a != b ==> (key_less(a, b) || key_less(b, a)),
        !(key_less(a, b) && key_less(b, a)),
        key_less(a, b) && key_less(b, c) ==> key_less(a, c),
{
    lemma_bytes_less_irreflexive(encode_utf8(a));
    lemma_bytes_less_total(encode_utf8(a), encode_utf8(b));
    vstd::utf8::encode_utf8_decode_utf8(a);
    vstd::utf8::encode_utf8_decode_utf8(b);
    if key_less(a, b) && key_less(b, c) {
        lemma_bytes_less_transitive(encode_utf8(a), encode_utf8(b), encode_utf8(c));
    }
}

/// In ascending entries, the keys before the insert position come before the
/// new key and the others do not.
proof fn lemma_insert_position(v: Seq<(Seq<char>, PersistedDongleState)>, key: Seq<char>)
    requires
        keys_ascending(v),
    ensures
        0 <= insert_position(v, key) <= v.len(),
        forall|i: int| 0 <= i < insert_position(v, key) ==> key_less((#[trigger] v[i]).0, key),
        forall|i: int| insert_position(v, key) <= i < v.len() ==> !key_less((#[trigger] v[i]).0, key),
    decreases v.len(),
{
    if v.len() > 0 {
        let w = v.drop_last();
        assert(keys_ascending(w)) by {
            assert forall|i: int, j: int| 0 <= i < j < w.len() implies key_less((#[trigger] w[i]).0, (#[trigger] w[j]).0) by {
                assert(w[i] == v[i] && w[j] == v[j]);
            }
        }
        lemma_insert_position(w, key);
        let last = v.len() - 1;
        if key_less(v[last].0, key) {
            assert forall|i: int| 0 <= i < v.len() implies key_less((#[trigger] v[i]).0, key) by {
                if i < last {
                    lemma_key_order(v[i].0, v[last].0, key);
                }
            }
        } else {
            assert forall|i: int| insert_position(v, key) <= i < v.len() implies !key_less((#[trigger] v[i]).0, key) by {
                if i < last {
                    assert(v[i] == w[i]);
                }
            }
            assert forall|i: int| 0 <= i < insert_position(v, key) implies key_less((#[trigger] v[i]).0, key) by {
                assert(v[i] == w[i]);
            }
        }
    }
}

/// Ascending keys are distinct.
proof fn lemma_ascending_distinct(v: Seq<(Seq<char>, PersistedDongleState)>)
    requires
        keys_ascending(v),
    ensures
        keys_distinct(v),
{
    assert forall|i: int, j: int| 0 <= i < j < v.len() implies v[i].0 != v[j].0 by {
        assert(key_less(v[i].0, v[j].0));
        lemma_key_order(v[i].0, v[j].0, v[j].0);
    }
}

/// Setting a key keeps ascending entries ascending.
proof fn lemma_with_entry_ascending(
    v: Seq<(Seq<char>, PersistedDongleState)>,
    key: Seq<char>,
    value: PersistedDongleState,
)
    requires
        keys_ascending(v),
    ensures
        keys_ascending(with_entry(v, key, value)),
{
    lemma_key_index(v, key);
    let w = with_entry(v, key, value);
    if key_index(v, key) >= 0 {
        let k = key_index(v, key);
        assert forall|i: int, j: int| 0 <= i < j < w.len() implies key_less((#[trigger] w[i]).0, (#[trigger] w[j]).0) by {
            assert(w[i].0 == v[i].0 && w[j].0 == v[j].0);
        }
    } else {
        let p = insert_position(v, key);
        lemma_insert_position(v, key);
        assert forall|i: int| p <= i < v.len() implies key_less(key, (#[trigger] v[i]).0) by {
            lemma_key_order(key, v[i].0, key);
        }
        assert forall|i: int, j: int| 0 <= i < j < w.len() implies key_less((#[trigger] w[i]).0, (#[trigger] w[j]).0) by {
            if j < p {
                assert(w[i] == v[i] && w[j] == v[j]);
            } else if j == p {
                assert(w[i] == v[i]);
            } else if i < p {
                assert(w[i] == v[i] && w[j] == v[j - 1]);
                lemma_key_order(v[i].0, key, v[j - 1].0);
            } else if i == p {
                assert(w[j] == v[j - 1]);
            } else {
                assert(w[i] == v[i - 1] && w[j] == v[j - 1]);
            }
        }
    }
}

/// The state stored under `key`, if any.
pub open spec fn lookup(v: Seq<(Seq<char>, PersistedDongleState)>, key: Seq<char>) -> Option<
    PersistedDongleState,
> {
    let i = key_index(v, key);
    if i >= 0 {
        Some(v[i].1)
    } else {
        None
    }
}

/// No two entries share a key.
pub open spec fn keys_distinct(v: Seq<(Seq<char>, PersistedDongleState)>) -> bool {
    forall|i: int, j: int| 0 <= i < j < v.len() ==> v[i].0 != v[j].0
}

/// Whether `a` comes before `b` in lexicographic byte order.
fn bytes_before(a: &[u8], b: &[u8]) -> (r: bool)
    ensures
        r == bytes_less(a@, b@),
{
    let mut i: usize = 0;
    assert(a@.skip(0) =~= a@ && b@.skip(0) =~= b@);
    while i < a.len() && i < b.len()
        invariant
            i <= a@.len(),
            i <= b@.len(),
            bytes_less(a@, b@) == bytes_less(a@.skip(i as int), b@.skip(i as int)),
        decreases a@.len() - i,
    {
        if a[i] != b[i] {
            return a[i] < b[i];
        }
        assert(a@.skip(i as int).drop_first() =~= a@.skip(i + 1));
        assert(b@.skip(i as int).drop_first() =~= b@.skip(i + 1));
        i = i + 1;
    }
    i < b.len()
}

/// Whether key `a` sorts before key `b`.
fn key_before(a: &str, b: &str) -> (r: bool)
    ensures
        r == key_less(a@, b@),
{
    bytes_before(a.as_bytes(), b.as_bytes())
}

/// Per-dongle states keyed by device id text, each key held once, in key order.
pub struct DongleStates {
    entries: Vec<(String, PersistedDongleState)>,
}

impl View for DongleStates {
    type V = Seq<(Seq<char>, PersistedDongleState)>;

    closed spec fn view(&self) -> Seq<(Seq<char>, PersistedDongleState)> {
        entries_view(self.entries@)
    }
}

impl DongleStates {
    #[verifier::type_invariant]
    closed spec fn keys_in_order(self) -> bool {
        keys_ascending(entries_view(self.entries@))
    }

    pub fn new() -> (m: DongleStates)
        ensures
            m@ == Seq::<(Seq<char>, PersistedDongleState)>::empty(),
    {
        let m = DongleStates { entries: Vec::new() };
        assert(entries_view(m.entries@) =~= Seq::<(Seq<char>, PersistedDongleState)>::empty());
        m
    }

    pub fn len(&self) -> (n: usize)
        ensures
            n == self@.len(),
    {
        self.entries.len()
    }

    /// The entries in ascending key order.
    pub fn entries(&self) -> (e: &[(String, PersistedDongleState)])
        ensures
            entries_view(e@) == self@,
            keys_ascending(self@),
            keys_distinct(self@),
    {
        proof {
            use_type_invariant(self);
            lemma_ascending_distinct(self@);
        }
        self.entries.as_slice()
    }

    fn position(&self, key: &str) -> (r: Option<usize>)
        ensures
            match r {
                Some(i) => i == key_index(self@, key@) && i < self@.len(),
                None => key_index(self@, key@) == -1,
            },
    {
        proof {
            use_type_invariant(self);
            lemma_ascending_distinct(self@);
            lemma_key_index(self@, key@);
        }
        let mut i: usize = 0;
        while i < self.entries.len()
            invariant
                i <= self.entries@.len(),
                self@ == entries_view(self.entries@),
                keys_distinct(self@),
                -1 <= key_index(self@, key@) < self@.len(),
                key_index(self@, key@) >= 0 ==> self@[key_index(self@, key@)].0 == key@,
                key_index(self@, key@) == -1 <==> forall|k: int|
                    0 <= k < self@.len() ==> self@[k].0 != key@,
                forall|k: int| 0 <= k < i ==> self@[k].0 != key@,
            decreases self.entries@.len() - i,
        {
            if str_eq(self.entries[i].0.as_str(), key) {
                assert(self@[i as int].0 == key@);
                return Some(i);
            }
            i = i + 1;
        }
        None
    }

    /// The state stored under `key`.
    pub fn get(&self, key: &str) -> (r: Option<&PersistedDongleState>)
        ensures
            match r {
                Some(v) => lookup(self@, key@) == Some(*v),
                None => lookup(self@, key@) == None::<PersistedDongleState>,
            },
    {
        proof {
            lemma_key_index(self@, key@);
        }
        match self.position(key) {
            Some(i) => Some(&self.entries[i].1),
            None => None,
        }
    }

    /// Sets the state under `key`, returning the state it replaces.
    pub fn insert(&mut self, key: String, value: PersistedDongleState) -> (r: Option<
        PersistedDongleState,
    >)
        ensures
            final(self)@ == with_entry(old(self)@, key@, value),
            r == lookup(old(self)@, key@),
            keys_distinct(old(self)@),
    {
        proof {
            use_type_invariant(&*self);
            lemma_ascending_distinct(self@);
            lemma_key_index(self@, key@);
            lemma_with_entry_ascending(self@, key@, value);
        }
        let ghost before = self@;
        match self.position(key.as_str()) {
            Some(i) => {
                let ghost k = key@;
                let old_value = self.entries[i].1.clone();
                let mut entries: Vec<(String, PersistedDongleState)> = Vec::new();
                std::mem::swap(&mut entries, &mut self.entries);
                entries.set(i, (key, value));
                proof {
                    assert(entries_view(entries@) =~= before.update(i as int, (k, value)));
                    assert(keys_distinct(entries_view(entries@)));
                }
                self.entries = entries;
                Some(old_value)
            },
            None => {
                let ghost k = key@;
                proof {
                    lemma_insert_position(before, k);
                }
                let mut p: usize = 0;
                while p < self.entries.len() && key_before(self.entries[p].0.as_str(), key.as_str())
                    invariant
                        p <= self.entries@.len(),
                        before == entries_view(self.entries@),
                        k == key@,
                        keys_ascending(before),
                        0 <= insert_position(before, k) <= before.len(),
                        forall|i: int| 0 <= i < insert_position(before, k) ==> key_less((#[trigger] before[i]).0, k),
                        forall|i: int| insert_position(before, k) <= i < before.len() ==> !key_less((#[trigger] before[i]).0, k),
                        forall|i: int| 0 <= i < p ==> key_less((#[trigger] before[i]).0, k),
                    decreases self.entries@.len() - p,
                {
                    p = p + 1;
                }
                proof {
                    let q = insert_position(before, k);
                    if (p as int) < q {
                        assert(key_less(before[p as int].0, k));
                    }
                    if q < p {
                        assert(!key_less(before[q].0, k));
                    }
                }
                let mut entries: Vec<(String, PersistedDongleState)> = Vec::new();
                std::mem::swap(&mut entries, &mut self.entries);
                entries.insert(p, (key, value));
                proof {
                    assert(entries_view(entries@) =~= before.insert(p as int, (k, value)));
                }
                self.entries = entries;
                None
            },
        }
    }
}

/// The hub's persisted state: one entry per dongle, keyed by device id.
pub struct PersistedHubState {
    pub dongles: DongleStates,
}

impl PersistedHubState {
    pub fn new() -> (s: PersistedHubState)
        ensures
            s.dongles@ == Seq::<(Seq<char>, PersistedDongleState)>::empty(),
    {
        PersistedHubState { dongles: DongleStates::new() }
    }

    /// The state remembered for a device, or nothing known.
    pub fn state_for(&self, device_id: &str) -> (p: PersistedDongleState)
        ensures
            p == match lookup(self.dongles@, device_id@) {
                Some(v) => v,
                None => PersistedDongleState::empty_spec(),
            },
    {
        match self.dongles.get(device_id) {
            Some(v) => v.clone(),
            None => PersistedDongleState::default(),
        }
    }

    /// The state of each bridge in turn recorded under its device id; a later
    /// entry for the same id replaces an earlier one.
    pub fn from_statuses(statuses: &Vec<(String, BridgeStatus)>) -> (s: PersistedHubState)
        ensures
            s.dongles@ == recorded_statuses(statuses@),
    {
        let mut state = PersistedHubState::new();
        let mut i: usize = 0;
        while i < statuses.len()
            invariant
                i <= statuses@.len(),
                state.dongles@ == recorded_statuses(statuses@.take(i as int)),
            decreases statuses@.len() - i,
        {
            let key = owned(statuses[i].0.as_str());
            let entry = PersistedDongleState::from_status(&statuses[i].1);
            state.dongles.insert(key, entry);
            assert(statuses@.take(i + 1).drop_last() =~= statuses@.take(i as int));
            i = i + 1;
        }
        assert(statuses@.take(statuses@.len() as int) =~= statuses@);
        state
    }
}

impl Default for PersistedHubState {
    fn default() -> (s: PersistedHubState)
        ensures
            s.dongles@ == Seq::<(Seq<char>, PersistedDongleState)>::empty(),
    {
        PersistedHubState::new()
    }
}

/// The entries that recording each status in turn produces.
pub open spec fn recorded_statuses(statuses: Seq<(String, BridgeStatus)>) -> Seq<
    (Seq<char>, PersistedDongleState),
>
    decreases statuses.len(),
{
    if statuses.len() == 0 {
        Seq::empty()
    } else {
        with_entry(
            recorded_statuses(statuses.drop_last()),
            statuses.last().0@,
            PersistedDongleState::of_status(statuses.last().1),
        )
    }
}

/// A stored state is read back under its key, and other keys are unaffected.
pub proof fn lemma_lookup_after_insert(
    v: Seq<(Seq<char>, PersistedDongleState)>,
    key: Seq<char>,
    other: Seq<char>,
    value: PersistedDongleState,
)
    requires
        keys_distinct(v),
    ensures
        lookup(with_entry(v, key, value), key) == Some(value),
        other != key ==> lookup(with_entry(v, key, value), other) == lookup(v, other),
{
    lemma_key_index(v, key);
    lemma_key_index(v, other);
    let w = with_entry(v, key, value);
    lemma_key_index(w, key);
    lemma_key_index(w, other);
    if key_index(v, key) >= 0 {
        let k = key_index(v, key);
        assert(w[k].0 == key);
        assert forall|i: int| 0 <= i < w.len() && i != k implies (#[trigger] w[i]).0 != key by {
            assert(w[i] == v[i]);
            if i < k {
                assert(v[i].0 != v[k].0);
            } else {
                assert(v[k].0 != v[i].0);
            }
        }
        if other != key && key_index(v, other) >= 0 {
            let o = key_index(v, other);
            assert(w[o] == v[o]);
            assert(key_index(w, other) == o) by {
                let x = key_index(w, other);
                if x != o {
                    assert(w[x] == v[x]);
                    if x < o {
                        assert(v[x].0 != v[o].0);
                    } else {
                        assert(v[o].0 != v[x].0);
                    }
                }
            }
        } else if other != key {
            assert forall|i: int| 0 <= i < w.len() implies (#[trigger] w[i]).0 != other by {
                if i != k {
                    assert(w[i] == v[i]);
                }
            }
        }
    } else {
        let p = insert_position(v, key);
        assert(0 <= p <= v.len()) by {
            lemma_insert_position_range(v, key);
        }
        assert(w[p].0 == key);
        assert forall|i: int| 0 <= i < w.len() && i != p implies (#[trigger] w[i]).0 != key by {
            if i < p {
                assert(w[i] == v[i]);
            } else {
                assert(w[i] == v[i - 1]);
            }
        }
        if other != key && key_index(v, other) >= 0 {
            let o = key_index(v, other);
            let o2 = if o < p { o } else { o + 1 };
            assert(w[o2] == v[o]);
            assert(key_index(w, other) == o2) by {
                let x = key_index(w, other);
                if x != o2 {
                    assert(x != p);
                    let y = if x < p { x } else { x - 1 };
                    assert(w[x] == v[y]);
                    assert(y != o);
                    if y < o {
                        assert(v[y].0 != v[o].0);
                    } else {
                        assert(v[o].0 != v[y].0);
                    }
                }
            }
        } else if other != key {
            assert forall|i: int| 0 <= i < w.len() implies (#[trigger] w[i]).0 != other by {
                if i < p {
                    assert(w[i] == v[i]);
                } else if i > p {
                    assert(w[i] == v[i - 1]);
                }
            }
        }
    }
}

/// The insert position lies within the entries.
proof fn lemma_insert_position_range(v: Seq<(Seq<char>, PersistedDongleState)>, key: Seq<char>)
    ensures
        0 <= insert_position(v, key) <= v.len(),
    decreases v.len(),
{
    if v.len() > 0 {
        lemma_insert_position_range(v.drop_last(), key);
    }
}

/// Recording bridge statuses keeps the entries in key order and stores, under
/// each device id, what the last status recorded for it says: its address, its
/// relay state (whether or not the dongle was connected), its identity and its
/// health. An id that no status names has nothing stored.
pub proof fn lemma_recorded_statuses_lookup(statuses: Seq<(String, BridgeStatus)>, key: Seq<char>)
    ensures
        keys_ascending(recorded_statuses(statuses)),
        (forall|k: int| 0 <= k < statuses.len() ==> (#[trigger] statuses[k]).0@ != key) ==> lookup(
            recorded_statuses(statuses),
            key,
        ) == None::<PersistedDongleState>,
        forall|k: int|
            0 <= k < statuses.len() && (#[trigger] statuses[k]).0@ == key && (forall|j: int|
                k < j < statuses.len() ==> (#[trigger] statuses[j]).0@ != key) ==> lookup(
                recorded_statuses(statuses),
                key,
            ) == Some(
                PersistedDongleState {
                    last_seen_ble_address: statuses[k].1.ble_address,
                    last_relay_state: Some(statuses[k].1.relay_state),
                    identity: statuses[k].1.identity,
                    health: statuses[k].1.health,
                },
            ),
    decreases statuses.len(),
{
    if statuses.len() == 0 {
        lemma_key_index(recorded_statuses(statuses), key);
    } else {
        let prefix = statuses.drop_last();
        let last = statuses.len() - 1;
        lemma_recorded_statuses_lookup(prefix, key);
        let w = recorded_statuses(prefix);
        let (lk, ls) = statuses.last();
        lemma_with_entry_ascending(w, lk@, PersistedDongleState::of_status(ls));
        lemma_ascending_distinct(w);
        lemma_lookup_after_insert(w, lk@, key, PersistedDongleState::of_status(ls));
        assert forall|k: int|
            0 <= k < statuses.len() && (#[trigger] statuses[k]).0@ == key && (forall|j: int|
                k < j < statuses.len() ==> (#[trigger] statuses[j]).0@ != key) implies lookup(
            recorded_statuses(statuses),
            key,
        ) == Some(
            PersistedDongleState {
                last_seen_ble_address: statuses[k].1.ble_address,
                last_relay_state: Some(statuses[k].1.relay_state),
                identity: statuses[k].1.identity,
                health: statuses[k].1.health,
            },
        ) by {
            if k < last {
                assert(statuses[last].0@ != key);
                assert(prefix[k] == statuses[k]);
                assert forall|j: int| k < j < prefix.len() implies (#[trigger] prefix[j]).0@ != key by {
                    assert(prefix[j] == statuses[j]);
                }
            }
        }
        if forall|k: int| 0 <= k < statuses.len() ==> (#[trigger] statuses[k]).0@ != key {
            assert(statuses[last].0@ != key);
            assert forall|k: int| 0 <= k < prefix.len() implies (#[trigger] prefix[k]).0@ != key by {
                assert(prefix[k] == statuses[k]);
            }
        }
    }
}

} // verus!
