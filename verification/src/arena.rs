//! A keyed store of resource records, held in a `slotmap::SlotMap`.

use vstd::prelude::*;
use crate::key::Key;
use crate::key::lemma_bits_round_trip;
use crate::key::lemma_of_bits_round_trip;

verus! {

/// The payload of one arena slot: the native handle of a resource and the
/// keys of the resources it depends on. A parent that a resource kind does
/// not have is the null key.
#[derive(Clone, Copy, PartialEq, Eq, Structural, Debug)]
pub struct Record {
    pub handle: u64,
    pub first_parent: Key,
    pub second_parent: Key,
}

/// Most records that one arena can hold at a time.
pub const CAPACITY: usize = 0xFFFF_FFFE;

/// A `slotmap::SlotMap` of records under the crate's default key type.
/// The verifier sees it only through `slot_entries` and the functions below.
#[verifier::external_body]
pub struct Slots {
    inner: slotmap::SlotMap<slotmap::DefaultKey, Record>,
}

/// The live entries of a slot map, each filed under the 64-bit form
/// (`KeyData::as_ffi`) of its key.
pub uninterp spec fn slot_entries(slots: Slots) -> Map<u64, Record>;

/// The keys that a slot map has taken out of use, by their 64-bit forms:
/// those with an odd generation below the version that their slot has now.
/// A slot's version starts at 1, `remove` adds one to it with `wrapping_add`,
/// and an insert into a free slot makes it odd again, so this set grows by
/// the removed key with every `remove` but the one that wraps the version.
pub uninterp spec fn slot_spent(slots: Slots) -> Set<u64>;

/// `SlotMap::new`: a fresh slot map holds no entry and has taken no key out
/// of use.
#[verifier::external_body]
fn slots_new() -> (slots: Slots)
    ensures
        slot_entries(slots).dom() == Set::<u64>::empty(),
        slot_spent(slots) == Set::<u64>::empty(),
{
    Slots { inner: slotmap::SlotMap::new() }
}

/// `SlotMap::len`: the number of live entries.
#[verifier::external_body]
fn slots_len(slots: &Slots) -> (len: usize)
    ensures
        len == slot_entries(*slots).dom().len(),
{
    slots.inner.len()
}

/// `SlotMap::get` on the key that `KeyData::from_ffi` makes of `bits`: the
/// entry filed under `bits`, if there is one. The generation in `bits` must be
/// odd, since `from_ffi` makes it odd before the lookup.
#[verifier::external_body]
fn slots_get(slots: &Slots, bits: u64) -> (found: Option<&Record>)
    requires
        Key::of_bits(bits).generation % 2 == 1,
    ensures
        found == (if slot_entries(*slots).contains_key(bits) {
            Some(&slot_entries(*slots)[bits])
        } else {
            None
        }),
    no_unwind
{
    slots.inner.get(slotmap::DefaultKey::from(slotmap::KeyData::from_ffi(bits)))
}

/// `SlotMap::insert_with_key`: files what `construct` returns for the new key
/// and returns the 64-bit form of that key. The key has an odd generation and
/// an index below `u32::MAX`, and no live entry had it. Its generation is
/// the version of its slot made odd, so it is not below that version: the key
/// is none of those taken out of use, and these stay as they are. The call
/// panics when the map already holds `u32::MAX - 1` entries, so that is left
/// out; it calls `construct` once, before it changes anything, and does not
/// unwind unless `construct` does.
#[verifier::external_body]
fn slots_insert_with_key<F: FnOnce(Key) -> Record>(slots: &mut Slots, construct: F) -> (bits: u64)
    requires
        slot_entries(*old(slots)).dom().finite(),
        slot_entries(*old(slots)).dom().len() < CAPACITY,
        forall|key: Key| call_requires(construct, (key,)),
    ensures
        Key::of_bits(bits).issuable(),
        !slot_entries(*old(slots)).contains_key(bits),
        !slot_spent(*old(slots)).contains(bits),
        slot_spent(*final(slots)) == slot_spent(*old(slots)),
        slot_entries(*final(slots)).contains_key(bits),
        call_ensures(construct, (Key::of_bits(bits),), slot_entries(*final(slots))[bits]),
        slot_entries(*final(slots)) == slot_entries(*old(slots)).insert(
            bits,
            slot_entries(*final(slots))[bits],
        ),
    no_unwind
{
    let key = slots.inner.insert_with_key(
        |key| construct(Key::from_ffi(slotmap::Key::data(&key).as_ffi())),
    );
    slotmap::Key::data(&key).as_ffi()
}

/// `SlotMap::remove` on the key that `KeyData::from_ffi` makes of `bits`:
/// takes out and returns the entry filed under `bits`, if there is one, and
/// leaves every other entry as it was. The generation in `bits` must be odd.
/// Removing an entry adds one to the version of its slot, which takes the
/// key out of use unless the version wraps, as it does after the generation
/// `u32::MAX`; of that case nothing is said. Without such an entry nothing
/// changes.
#[verifier::external_body]
fn slots_remove(slots: &mut Slots, bits: u64) -> (removed: Option<Record>)
    requires
        Key::of_bits(bits).generation % 2 == 1,
    ensures
        removed == (if slot_entries(*old(slots)).contains_key(bits) {
            Some(slot_entries(*old(slots))[bits])
        } else {
            None
        }),
        slot_entries(*final(slots)) == slot_entries(*old(slots)).remove(bits),
        slot_entries(*old(slots)).contains_key(bits) && Key::of_bits(bits).generation < u32::MAX
            ==> slot_spent(*final(slots)) == slot_spent(*old(slots)).insert(bits),
        !slot_entries(*old(slots)).contains_key(bits) ==> slot_spent(*final(slots)) == slot_spent(
            *old(slots),
        ),
    no_unwind
{
    slots.inner.remove(slotmap::DefaultKey::from(slotmap::KeyData::from_ffi(bits)))
}


/// The view of an arena that holds nothing.
pub open spec fn no_records() -> Map<Key, Record> {
    Map::empty()
}

/// What filing `record` under `key` does to the contents of an arena: the key
/// was free before, and afterwards it holds the record; nothing else changes.
pub open spec fn filed(
    before: Map<Key, Record>,
    after: Map<Key, Record>,
    key: Key,
    record: Record,
) -> bool {
    !before.contains_key(key) && after == before.insert(key, record)
}

/// What filing `records` under the fresh keys `keys`, pairwise distinct, does
/// to the contents of an arena: what was there stays, each key holds its
/// record, and nothing else is added.
pub open spec fn filed_all(
    before: Map<Key, Record>,
    after: Map<Key, Record>,
    keys: Seq<Key>,
    records: Seq<Record>,
) -> bool {
    &&& keys.len() == records.len()
    &&& forall|i: int, j: int| 0 <= i < j < keys.len() ==> keys[i] != keys[j]
    &&& forall|i: int|
        0 <= i < keys.len() ==> !before.contains_key(#[trigger] keys[i]) && lookup(after, keys[i])
            == Some(records[i])
    &&& forall|key: Key|
        before.contains_key(key) ==> #[trigger] lookup(after, key) == Some(before[key])
    &&& forall|key: Key| #[trigger]
        after.contains_key(key) ==> before.contains_key(key) || keys.contains(key)
}

/// What an arena holds and what it has retired.
pub struct Ledger {
    /// The live records, by key.
    pub live: Map<Key, Record>,
    /// The keys that were handed out, were removed, and will not be handed
    /// out again.
    pub retired: Set<Key>,
}

/// One change to an arena.
pub enum Change {
    /// `record` was filed, and `key` came back for it.
    Filed { key: Key, record: Record },
    /// The removal of `key` was asked for.
    Removed { key: Key },
}

/// Whether `after` is what `change` makes of `before`. Filing takes a key
/// that is neither live nor retired. Removing a live key retires it, unless
/// the key is of the last generation: then its slot starts over, and what is
/// retired is left open.
pub open spec fn changed(before: Ledger, after: Ledger, change: Change) -> bool {
    match change {
        Change::Filed { key, record } => {
            &&& filed(before.live, after.live, key, record)
            &&& !before.retired.contains(key)
            &&& after.retired == before.retired
        },
        Change::Removed { key } => {
            &&& after.live == before.live.remove(key)
            &&& before.live.contains_key(key) && key.generation < u32::MAX ==> after.retired
                == before.retired.insert(key)
            &&& !before.live.contains_key(key) ==> after.retired == before.retired
        },
    }
}

/// Whether `change` removes a live key of the last generation.
pub open spec fn exhausts(before: Ledger, change: Change) -> bool {
    change matches Change::Removed { key } && before.live.contains_key(key) && key.generation
        == u32::MAX
}

/// Whether `ledgers` are the states of one arena before, between and after
/// the changes of `changes`, none of which removes a key of the last
/// generation.
pub open spec fn history(ledgers: Seq<Ledger>, changes: Seq<Change>) -> bool {
    &&& ledgers.len() == changes.len() + 1
    &&& forall|i: int|
        0 <= i < changes.len() ==> changed(ledgers[i], ledgers[i + 1], #[trigger] changes[i])
            && !exhausts(ledgers[i], changes[i])
}

/// What `lookup` finds under `key` in the contents of an arena.
pub open spec fn lookup(contents: Map<Key, Record>, key: Key) -> Option<Record> {
    if contents.contains_key(key) {
        Some(contents[key])
    } else {
        None
    }
}

/// A store of the records of one resource kind, each under a key of its own.
pub struct Arena {
    slots: Slots,
}

impl View for Arena {
    type V = Map<Key, Record>;

    /// The live records, by key.
    closed spec fn view(&self) -> Map<Key, Record> {
        Map::new(
            |key: Key| slot_entries(self.slots).contains_key(key.bits()),
            |key: Key| slot_entries(self.slots)[key.bits()],
        )
    }
}

impl Arena {
    /// The keys that the arena has retired: it handed them out, their
    /// records were removed, and it will not hand them out again.
    pub closed spec fn retired(&self) -> Set<Key> {
        Set::new(|key: Key| slot_spent(self.slots).contains(key.bits()))
    }

    /// What the arena holds and what it has retired.
    pub open spec fn ledger(&self) -> Ledger {
        Ledger { live: self@, retired: self.retired() }
    }

    /// What holds of every arena: it has finitely many records, each under
    /// a key that an arena hands out.
    #[verifier::type_invariant]
    pub closed spec fn well_formed(self) -> bool {
        &&& slot_entries(self.slots).dom().finite()
        &&& forall|bits: u64| #[trigger]
            slot_entries(self.slots).contains_key(bits) ==> Key::of_bits(bits).issuable()
    }

    /// A well-formed arena holds finitely many records, none under a null key.
    pub proof fn lemma_finite(self)
        requires
            self.well_formed(),
        ensures
            self@.dom().finite(),
            forall|key: Key| #[trigger] self@.contains_key(key) ==> key.issuable(),
    {
        self.lemma_view_domain();
    }

    /// The keys of the view are the decoded keys of the slot map, one for one.
    proof fn lemma_view_domain(self)
        requires
            self.well_formed(),
        ensures
            self@.dom().finite(),
            self@.dom().len() == slot_entries(self.slots).dom().len(),
            forall|key: Key| #[trigger] self@.contains_key(key) ==> key.issuable(),
    {
        let entries = slot_entries(self.slots);
        let decode = |bits: u64| Key::of_bits(bits);
        assert forall|key: Key| #[trigger] self@.contains_key(key) implies key.issuable() by {
            lemma_bits_round_trip(key);
            assert(entries.contains_key(key.bits()));
        }
        assert(entries.dom().map(decode) =~= self@.dom()) by {
            assert forall|key: Key| entries.dom().map(decode).contains(key) implies self@.dom().contains(
                key,
            ) by {
                let bits = choose|bits: u64| entries.dom().contains(bits) && key == decode(bits);
                lemma_of_bits_round_trip(bits);
            }
            assert forall|key: Key| self@.dom().contains(key) implies entries.dom().map(
                decode,
            ).contains(key) by {
                lemma_bits_round_trip(key);
                assert(entries.dom().contains(key.bits()) && key == decode(key.bits()));
            }
        }
        assert(vstd::relations::injective_on(decode, entries.dom())) by {
            assert forall|a: u64, b: u64| #[trigger] decode(a) == #[trigger] decode(b) implies a
                == b by {
                lemma_of_bits_round_trip(a);
                lemma_of_bits_round_trip(b);
            }
        }
        vstd::set_lib::lemma_map_size(entries.dom(), self@.dom(), decode);
    }

    /// An arena with no records.
    pub fn new() -> (arena: Arena)
        ensures
            arena@ == no_records(),
            arena.retired() == Set::<Key>::empty(),
    {
        let arena = Arena { slots: slots_new() };
        assert(arena@ =~= no_records());
        assert(arena.retired() =~= Set::<Key>::empty());
        arena
    }

    /// The number of live records.
    pub fn len(&self) -> (len: usize)
        ensures
            self@.dom().finite(),
            len == self@.dom().len(),
    {
        proof {
            use_type_invariant(self);
            self.lemma_view_domain();
        }
        slots_len(&self.slots)
    }

    /// Whether the arena holds no record.
    pub fn is_empty(&self) -> (empty: bool)
        ensures
            empty == (self@ == no_records()),
    {
        let len = self.len();
        proof {
            if len == 0 {
                assert(self@.dom() =~= Set::empty());
                assert(self@ =~= no_records());
            }
        }
        len == 0
    }

    /// The record under `key`, if the key is live. A null key and a key with
    /// an even generation are never live.
    pub fn get(&self, key: Key) -> (found: Option<&Record>)
        ensures
            found == (if self@.contains_key(key) {
                Some(&self@[key])
            } else {
                None
            }),
            found is Some ==> key.issuable(),
        no_unwind
    {
        proof {
            use_type_invariant(self);
            self.lemma_view_domain();
            lemma_bits_round_trip(key);
        }
        if key.generation % 2 == 0 {
            None
        } else {
            slots_get(&self.slots, key.as_ffi())
        }
    }

    /// Whether `key` is live.
    pub fn contains_key(&self, key: Key) -> (live: bool)
        ensures
            live == self@.contains_key(key),
    {
        self.get(key).is_some()
    }

    /// Takes a free slot, hands its key to `construct`, and files the record
    /// that `construct` returns under that key. The key is neither live nor
    /// retired.
    pub fn insert_with_key<F: FnOnce(Key) -> Record>(&mut self, construct: F) -> (key: Key)
        requires
            old(self)@.dom().len() < CAPACITY,
            forall|key: Key| call_requires(construct, (key,)),
        ensures
            key.issuable(),
            final(self)@.contains_key(key),
            call_ensures(construct, (key,), final(self)@[key]),
            changed(
                old(self).ledger(),
                final(self).ledger(),
                (Change::Filed { key, record: final(self)@[key] }),
            ),
    {
        proof {
            use_type_invariant(&*self);
            self.lemma_view_domain();
        }
        let ghost before = *self;
        let bits = slots_insert_with_key(&mut self.slots, construct);
        let key = Key::from_ffi(bits);
        proof {
            lemma_of_bits_round_trip(bits);
            let record = slot_entries(self.slots)[bits];
            assert(self@ =~= before@.insert(key, record)) by {
                assert forall|other: Key| other.bits() == bits implies other == key by {
                    lemma_bits_round_trip(other);
                }
            }
            assert(self.retired() =~= before.retired());
        }
        key
    }

    /// Files `record` under a key that is neither live nor retired, and
    /// returns the key.
    pub fn insert(&mut self, record: Record) -> (key: Key)
        requires
            old(self)@.dom().len() < CAPACITY,
        ensures
            key.issuable(),
            changed(old(self).ledger(), final(self).ledger(), (Change::Filed { key, record })),
    {
        let construct = |key: Key| -> (filed: Record)
            ensures
                filed == record,
            { record };
        self.insert_with_key(construct)
    }

    /// Takes the record under `key` out of the arena and returns it, and
    /// retires the key; an arena without that key is left as it was.
    pub fn remove(&mut self, key: Key) -> (removed: Option<Record>)
        ensures
            removed == lookup(old(self)@, key),
            changed(old(self).ledger(), final(self).ledger(), (Change::Removed { key })),
        no_unwind
    {
        proof {
            use_type_invariant(&*self);
            self.lemma_view_domain();
            lemma_bits_round_trip(key);
        }
        if key.generation % 2 == 0 {
            assert(self@ =~= self@.remove(key));
            None
        } else {
            let ghost before = *self;
            let removed = slots_remove(&mut self.slots, key.as_ffi());
            proof {
                assert forall|other: Key| other.bits() == key.bits() implies other == key by {
                    lemma_bits_round_trip(other);
                }
                assert(self@ =~= before@.remove(key));
                if before@.contains_key(key) {
                    if key.generation < u32::MAX {
                        assert(self.retired() =~= before.retired().insert(key));
                    }
                } else {
                    assert(self.retired() =~= before.retired());
                }
            }
            removed
        }
    }
}


/// The contents of an arena after the keys of `keys` were removed from
/// `contents`, one after the other.
pub open spec fn remove_all(contents: Map<Key, Record>, keys: Seq<Key>) -> Map<Key, Record>
    decreases keys.len(),
{
    if keys.len() == 0 {
        contents
    } else {
        remove_all(contents.remove(keys[0]), keys.subrange(1, keys.len() as int))
    }
}

/// Whether `states` are the contents of one arena before, between and after
/// filing each of `records` in turn, with `keys` the keys that came back.
pub open spec fn filed_in_turn(
    states: Seq<Map<Key, Record>>,
    keys: Seq<Key>,
    records: Seq<Record>,
) -> bool {
    &&& states.len() == keys.len() + 1
    &&& records.len() == keys.len()
    &&& forall|i: int|
        0 <= i < keys.len() ==> filed(states[i], states[i + 1], #[trigger] keys[i], records[i])
}

/// After filing, a state holds what the first state held and the records
/// filed so far, and nothing else.
proof fn lemma_filed_states(
    states: Seq<Map<Key, Record>>,
    keys: Seq<Key>,
    records: Seq<Record>,
    upto: int,
)
    requires
        filed_in_turn(states, keys, records),
        0 <= upto <= keys.len(),
    ensures
        forall|j: int|
            0 <= j < upto ==> !states[0].contains_key(#[trigger] keys[j]) && lookup(
                states[upto],
                keys[j],
            ) == Some(records[j]),
        forall|i: int, j: int| 0 <= i < j < upto ==> keys[i] != keys[j],
        forall|key: Key|
            states[0].contains_key(key) ==> #[trigger] lookup(states[upto], key) == Some(
                states[0][key],
            ),
        forall|key: Key| #[trigger]
            states[upto].contains_key(key) ==> states[0].contains_key(key) || exists|j: int|
                0 <= j < upto && keys[j] == key,
    decreases upto,
{
    if upto > 0 {
        lemma_filed_states(states, keys, records, upto - 1);
        let last = upto - 1;
        assert(filed(states[last], states[last + 1], keys[last], records[last]));
        assert forall|key: Key| #[trigger]
            states[upto].contains_key(key) implies states[0].contains_key(key) || exists|j: int|
            0 <= j < upto && keys[j] == key by {
            if key != keys[last] {
                assert(states[last].contains_key(key));
                if !states[0].contains_key(key) {
                    let j = choose|j: int| 0 <= j < last && keys[j] == key;
                    assert(0 <= j < upto && keys[j] == key);
                }
            } else {
                assert(0 <= last < upto && keys[last] == key);
            }
        }
        assert forall|i: int, j: int| 0 <= i < j < upto implies keys[i] != keys[j] by {
            if j == last {
                assert(lookup(states[last], keys[i]) == Some(records[i]));
            }
        }
        assert forall|key: Key| states[0].contains_key(key) implies #[trigger] lookup(
            states[upto],
            key,
        ) == Some(states[0][key]) by {
            assert(lookup(states[last], key) == Some(states[0][key]));
        }
        assert forall|j: int| 0 <= j < upto implies !states[0].contains_key(#[trigger] keys[j])
            && lookup(states[upto], keys[j]) == Some(records[j]) by {
            if j < last {
                assert(lookup(states[last], keys[j]) == Some(records[j]));
            } else {
                if states[0].contains_key(keys[last]) {
                    assert(lookup(states[last], keys[last]) == Some(states[0][keys[last]]));
                }
            }
        }
    }
}

/// The keys that successive inserts into one arena return are pairwise
/// distinct, and a lookup after the inserts finds under each key the record
/// that was filed under it.
pub proof fn lemma_inserted_keys_are_distinct(
    states: Seq<Map<Key, Record>>,
    keys: Seq<Key>,
    records: Seq<Record>,
)
    requires
        filed_in_turn(states, keys, records),
    ensures
        forall|i: int, j: int| 0 <= i < j < keys.len() ==> keys[i] != keys[j],
        forall|i: int|
            0 <= i < keys.len() ==> lookup(states.last(), #[trigger] keys[i]) == Some(records[i]),
        forall|i: int|
            0 <= i < keys.len() ==> lookup(states[i + 1], #[trigger] keys[i]) == Some(records[i]),
{
    lemma_filed_states(states, keys, records, keys.len() as int);
    assert forall|i: int| 0 <= i < keys.len() implies lookup(states[i + 1], #[trigger] keys[i])
        == Some(records[i]) by {
        assert(filed(states[i], states[i + 1], keys[i], records[i]));
    }
}

/// In a history, a key that is live or retired stays live or retired, and
/// a key that is retired and not live stays so.
proof fn lemma_history_keeps_keys(
    ledgers: Seq<Ledger>,
    changes: Seq<Change>,
    key: Key,
    from: int,
    to: int,
)
    requires
        history(ledgers, changes),
        0 <= from <= to <= changes.len(),
        ledgers[from].live.contains_key(key) || ledgers[from].retired.contains(key),
    ensures
        ledgers[to].live.contains_key(key) || ledgers[to].retired.contains(key),
        !ledgers[from].live.contains_key(key) ==> !ledgers[to].live.contains_key(key),
    decreases to - from,
{
    if from < to {
        lemma_history_keeps_keys(ledgers, changes, key, from, to - 1);
        let last = to - 1;
        assert(changed(ledgers[last], ledgers[last + 1], changes[last]) && !exhausts(
            ledgers[last],
            changes[last],
        ));
    }
}

/// An arena never hands out the same key twice: of two inserts into one
/// arena, the later returns another key than the earlier, whatever was
/// inserted and removed in between, as long as no key of the last generation
/// was removed.
pub proof fn lemma_keys_are_never_reissued(
    ledgers: Seq<Ledger>,
    changes: Seq<Change>,
    earlier: int,
    later: int,
)
    requires
        history(ledgers, changes),
        0 <= earlier < later < changes.len(),
        changes[earlier] is Filed,
        changes[later] is Filed,
    ensures
        changes[earlier]->Filed_key != changes[later]->Filed_key,
{
    let key = changes[earlier]->Filed_key;
    assert(changed(ledgers[earlier], ledgers[earlier + 1], changes[earlier]));
    lemma_history_keeps_keys(ledgers, changes, key, earlier + 1, later);
    assert(changed(ledgers[later], ledgers[later + 1], changes[later]));
}

/// A key that was removed is found by no later lookup, and no later insert
/// returns it, whatever else is inserted and removed, as long as no key of
/// the last generation is removed.
pub proof fn lemma_removed_key_is_gone_for_good(
    ledgers: Seq<Ledger>,
    changes: Seq<Change>,
    removal: int,
    later: int,
)
    requires
        history(ledgers, changes),
        0 <= removal < later <= changes.len(),
        changes[removal] is Removed,
        ledgers[removal].live.contains_key(changes[removal]->Removed_key),
    ensures
        lookup(ledgers[later].live, changes[removal]->Removed_key) is None,
        later < changes.len() && changes[later] is Filed ==> changes[later]->Filed_key
            != changes[removal]->Removed_key,
{
    let key = changes[removal]->Removed_key;
    assert(changed(ledgers[removal], ledgers[removal + 1], changes[removal]) && !exhausts(
        ledgers[removal],
        changes[removal],
    ));
    lemma_history_keeps_keys(ledgers, changes, key, removal + 1, later);
    if later < changes.len() {
        assert(changed(ledgers[later], ledgers[later + 1], changes[later]));
    }
}

/// A removal is felt at once, whatever the generation of the key: the key is
/// not found afterwards, and no other key is disturbed.
pub proof fn lemma_removed_key_is_not_found(contents: Map<Key, Record>, key: Key, other: Key)
    ensures
        lookup(contents.remove(key), key) is None,
        other != key ==> lookup(contents.remove(key), other) == lookup(contents, other),
{
}

/// What `remove_all` leaves: the keys that were not named, with their records.
proof fn lemma_remove_all(contents: Map<Key, Record>, keys: Seq<Key>)
    ensures
        forall|key: Key| #[trigger]
            remove_all(contents, keys).contains_key(key) <==> contents.contains_key(key)
                && !keys.contains(key),
        forall|key: Key|
            contents.contains_key(key) && !keys.contains(key) ==> #[trigger] remove_all(
                contents,
                keys,
            )[key] == contents[key],
    decreases keys.len(),
{
    if keys.len() > 0 {
        let rest = keys.subrange(1, keys.len() as int);
        let smaller = contents.remove(keys[0]);
        lemma_remove_all(smaller, rest);
        assert(remove_all(contents, keys) == remove_all(smaller, rest));
        assert forall|key: Key| keys.contains(key) <==> (key == keys[0] || rest.contains(
            key,
        )) by {
            if keys.contains(key) {
                let i = choose|i: int| 0 <= i < keys.len() && keys[i] == key;
                if i > 0 {
                    assert(rest[i - 1] == key);
                }
            }
            if rest.contains(key) {
                let i = choose|i: int| 0 <= i < rest.len() && rest[i] == key;
                assert(keys[i + 1] == key);
            }
        }
        assert forall|key: Key| #[trigger]
            remove_all(contents, keys).contains_key(key) <==> contents.contains_key(key)
                && !keys.contains(key) by {
            assert(remove_all(smaller, rest).contains_key(key) <==> smaller.contains_key(key)
                && !rest.contains(key));
        }
        assert forall|key: Key|
            contents.contains_key(key) && !keys.contains(key) implies #[trigger] remove_all(
            contents,
            keys,
        )[key] == contents[key] by {
            assert(smaller.contains_key(key) && !rest.contains(key));
            assert(remove_all(smaller, rest)[key] == smaller[key]);
        }
    } else {
        assert forall|key: Key| !keys.contains(key) by {}
    }
}

/// Filing a run of records and then removing their keys, in whatever order,
/// leaves the arena as it was before: an arena that was empty is empty again.
pub proof fn lemma_round_trip(
    states: Seq<Map<Key, Record>>,
    keys: Seq<Key>,
    records: Seq<Record>,
    removals: Seq<Key>,
)
    requires
        filed_in_turn(states, keys, records),
        forall|i: int| 0 <= i < keys.len() ==> removals.contains(#[trigger] keys[i]),
        forall|i: int| 0 <= i < removals.len() ==> keys.contains(#[trigger] removals[i]),
    ensures
        remove_all(states.last(), removals) == states[0],
{
    lemma_filed_states(states, keys, records, keys.len() as int);
    lemma_remove_all(states.last(), removals);
    let left = remove_all(states.last(), removals);
    assert forall|key: Key| #[trigger] left.contains_key(key) implies states[0].contains_key(
        key,
    ) by {
        if !states[0].contains_key(key) {
            let j = choose|j: int| 0 <= j < keys.len() && keys[j] == key;
            assert(removals.contains(keys[j]));
        }
    }
    assert forall|key: Key| #[trigger] states[0].contains_key(key) implies left.contains_key(key)
        && left[key] == states[0][key] by {
        assert(lookup(states.last(), key) == Some(states[0][key]));
        if removals.contains(key) {
            let i = choose|i: int| 0 <= i < removals.len() && removals[i] == key;
            assert(keys.contains(removals[i]));
            let j = choose|j: int| 0 <= j < keys.len() && keys[j] == key;
            assert(!states[0].contains_key(keys[j]));
        }
        assert(states.last().contains_key(key) && !removals.contains(key));
        assert(left[key] == states.last()[key]);
    }
    assert(left.dom() =~= states[0].dom());
    assert(left =~= states[0]);
}

} // verus!
