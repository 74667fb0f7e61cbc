//! The store of a component: keys and the values kept under them.

use vstd::prelude::*;
use vstd::string::StringExecFns;
use crate::bowtie::entity::EntityHandle;
use crate::general::direction::Direction;
use crate::general::value::Value;

verus! {

/// A key of a store: a name, or the identity of an entity for what a
/// component keeps of each entity it visits.
#[derive(Debug)]
pub enum StoreKey {
    Name(String),
    Entity(EntityHandle),
}

/// A key as a plain value.
pub enum KeyView {
    Name(Seq<char>),
    Entity(EntityHandle),
}

impl View for StoreKey {
    type V = KeyView;

    open spec fn view(&self) -> KeyView {
        match self {
            StoreKey::Name(name) => KeyView::Name(name@),
            StoreKey::Entity(handle) => KeyView::Entity(*handle),
        }
    }
}

impl StoreKey {
    /// The key with the name `name`.
    pub fn named(name: &str) -> (res: StoreKey)
        ensures
            res@ == KeyView::Name(name@),
    {
        StoreKey::Name(String::from_str(name))
    }

    /// Whether the two keys are the same key.
    pub fn same(&self, other: &StoreKey) -> (res: bool)
        ensures
            res == (self@ == other@),
    {
        match self {
            StoreKey::Name(a) => match other {
                StoreKey::Name(b) => *a == *b,
                StoreKey::Entity(_) => false,
            },
            StoreKey::Entity(a) => match other {
                StoreKey::Name(_) => false,
                StoreKey::Entity(b) => *a == *b,
            },
        }
    }
}

/// The contents of a store: keys with their values, in the order in which
/// the keys came in.
pub type StoreView = Seq<(KeyView, Value)>;

/// Whether `entries` holds a value under `key`.
pub open spec fn has_key(entries: StoreView, key: KeyView) -> bool {
    exists|i: int| 0 <= i < entries.len() && (#[trigger] entries[i]).0 == key
}

/// The place of the first entry under `key`.
pub open spec fn key_position(entries: StoreView, key: KeyView) -> int {
    choose|i: int|
        0 <= i < entries.len() && (#[trigger] entries[i]).0 == key && forall|j: int|
            0 <= j < i ==> (#[trigger] entries[j]).0 != key
}

/// The value kept under `key`, if there is one.
pub open spec fn lookup(entries: StoreView, key: KeyView) -> Option<Value> {
    if has_key(entries, key) {
        Some(entries[key_position(entries, key)].1)
    } else {
        None
    }
}

/// `entries` with `value` under `key`: in the place of the value that was
/// there, or behind all others where there was none.
pub open spec fn stored(entries: StoreView, key: KeyView, value: Value) -> StoreView {
    if has_key(entries, key) {
        entries.update(key_position(entries, key), (key, value))
    } else {
        entries.push((key, value))
    }
}

/// `entries` without the first entry under `key`.
pub open spec fn dropped(entries: StoreView, key: KeyView) -> StoreView {
    if has_key(entries, key) {
        entries.remove(key_position(entries, key))
    } else {
        entries
    }
}

/// The first entry under a key is where a scan from the front finds it.
pub proof fn lemma_key_position(entries: StoreView, key: KeyView, i: int)
    requires
        0 <= i < entries.len(),
        entries[i].0 == key,
        forall|j: int| 0 <= j < i ==> (#[trigger] entries[j]).0 != key,
    ensures
        has_key(entries, key),
        key_position(entries, key) == i,
{
    let p = key_position(entries, key);
    assert(0 <= p < entries.len() && entries[p].0 == key && forall|j: int|
        0 <= j < p ==> (#[trigger] entries[j]).0 != key);
    if p < i {
        assert(entries[p].0 != key);
    }
    if i < p {
        assert(entries[i].0 != key);
    }
}

/// Where a key is present, its place is that of an entry under it.
pub proof fn lemma_key_position_found(entries: StoreView, key: KeyView)
    requires
        has_key(entries, key),
    ensures
        0 <= key_position(entries, key) < entries.len(),
        entries[key_position(entries, key)].0 == key,
        forall|j: int| 0 <= j < key_position(entries, key) ==> (#[trigger] entries[j]).0 != key,
{
    let w = choose|i: int| 0 <= i < entries.len() && (#[trigger] entries[i]).0 == key;
    lemma_first_match(entries, key, w);
}

proof fn lemma_first_match(entries: StoreView, key: KeyView, w: int)
    requires
        0 <= w < entries.len(),
        entries[w].0 == key,
    ensures
        exists|i: int|
            0 <= i <= w && (#[trigger] entries[i]).0 == key && forall|j: int|
                0 <= j < i ==> (#[trigger] entries[j]).0 != key,
    decreases w,
{
    if exists|k: int| 0 <= k < w && (#[trigger] entries[k]).0 == key {
        let k = choose|k: int| 0 <= k < w && (#[trigger] entries[k]).0 == key;
        lemma_first_match(entries, key, k);
    } else {
        assert(forall|j: int| 0 <= j < w ==> (#[trigger] entries[j]).0 != key);
    }
}

/// What is stored under a key is found under it, and what is kept under
/// any other key stays as it was.
pub proof fn lemma_stored_lookup(entries: StoreView, key: KeyView, value: Value, other: KeyView)
    ensures
        lookup(stored(entries, key, value), key) == Some(value),
        other != key ==> lookup(stored(entries, key, value), other) == lookup(entries, other),
{
    let after = stored(entries, key, value);
    if has_key(entries, key) {
        lemma_key_position_found(entries, key);
        let p = key_position(entries, key);
        lemma_key_position(after, key, p);
        if other != key {
            if has_key(entries, other) {
                lemma_key_position_found(entries, other);
                lemma_key_position(after, other, key_position(entries, other));
            } else {
                if has_key(after, other) {
                    lemma_key_position_found(after, other);
                    assert(entries[key_position(after, other)].0 == other);
                }
            }
        }
    } else {
        assert forall|j: int| 0 <= j < entries.len() implies (#[trigger] after[j]).0 != key by {
            assert(entries[j].0 != key);
        }
        lemma_key_position(after, key, entries.len() as int);
        if other != key {
            if has_key(entries, other) {
                lemma_key_position_found(entries, other);
                lemma_key_position(after, other, key_position(entries, other));
            } else {
                if has_key(after, other) {
                    lemma_key_position_found(after, other);
                    assert(entries[key_position(after, other)].0 == other);
                }
            }
        }
    }
}

/// What a store holds under the keys of entities.
#[derive(Debug, Copy, Clone, PartialEq, Eq, Structural)]
pub enum Holding {
    /// Numbers that are codes of directions, as a collision detector
    /// publishes them.
    Directions,
    /// Pairs of a speed and a place, as gravity keeps them.
    Falls,
}

impl Holding {
    /// Whether `value` is of the kind that is held.
    pub open spec fn admits(self, value: Value) -> bool {
        match self {
            Holding::Directions => value matches Value::Number(code) && Direction::is_code(
                code as int,
            ),
            Holding::Falls => value is Vec2,
        }
    }

    /// Whether `value` is of the kind that is held.
    pub fn takes(&self, value: &Value) -> (res: bool)
        ensures
            res == self.admits(*value),
    {
        match self {
            Holding::Directions => match value {
                Value::Number(code) => 0 <= *code && *code <= 8,
                _ => false,
            },
            Holding::Falls => match value {
                Value::Vec2(_, _) => true,
                _ => false,
            },
        }
    }
}

/// Whether every value that `entries` holds under the key of an entity is
/// of the kind `holding`.
pub open spec fn holds(entries: StoreView, holding: Holding) -> bool {
    forall|i: int|
        0 <= i < entries.len() && (#[trigger] entries[i]).0 is Entity ==> holding.admits(
            entries[i].1,
        )
}

/// What is found under a key is the value of an entry under that key.
pub proof fn lemma_lookup_member(entries: StoreView, key: KeyView)
    requires
        lookup(entries, key) is Some,
    ensures
        0 <= key_position(entries, key) < entries.len(),
        entries[key_position(entries, key)] == (key, lookup(entries, key)->0),
{
    lemma_key_position_found(entries, key);
}

/// In a store that holds one kind of value under the keys of entities,
/// what is found under such a key is of that kind.
pub proof fn lemma_holds_found(entries: StoreView, holding: Holding, handle: EntityHandle)
    requires
        holds(entries, holding),
    ensures
        lookup(entries, KeyView::Entity(handle)) matches Some(value) ==> holding.admits(value),
{
    let key = KeyView::Entity(handle);
    if lookup(entries, key) is Some {
        lemma_lookup_member(entries, key);
    }
}

/// A store that holds one kind of value under the keys of entities still
/// does after a value of that kind was stored, after any value was stored
/// under a name, and after a value was dropped.
pub proof fn lemma_holds_kept(entries: StoreView, holding: Holding, key: KeyView, value: Value)
    requires
        holds(entries, holding),
    ensures
        holding.admits(value) || key is Name ==> holds(stored(entries, key, value), holding),
        holds(dropped(entries, key), holding),
{
    if has_key(entries, key) {
        lemma_key_position_found(entries, key);
        let p = key_position(entries, key);
        let less = dropped(entries, key);
        assert forall|i: int| 0 <= i < less.len() && (#[trigger] less[i]).0 is Entity implies holding.admits(
            less[i].1,
        ) by {
            if i < p {
                assert(less[i] == entries[i]);
            } else {
                assert(less[i] == entries[i + 1]);
            }
        }
    }
    if holding.admits(value) || key is Name {
        let more = stored(entries, key, value);
        assert forall|i: int| 0 <= i < more.len() && (#[trigger] more[i]).0 is Entity implies holding.admits(
            more[i].1,
        ) by {
            if i < entries.len() && more[i] != (key, value) {
                assert(more[i] == entries[i]);
            }
        }
    }
}

/// The state that one component keeps between visits, shared by all the
/// entities it is attached to.
#[derive(Debug)]
pub struct ComponentStore {
    entries: Vec<(StoreKey, Value)>,
}

impl View for ComponentStore {
    type V = StoreView;

    closed spec fn view(&self) -> StoreView {
        Seq::new(self.entries@.len(), |i: int| (self.entries@[i].0@, self.entries@[i].1))
    }
}

impl ComponentStore {
    /// A store that holds nothing.
    pub fn new() -> (res: ComponentStore)
        ensures
            res@ == Seq::<(KeyView, Value)>::empty(),
    {
        let res = ComponentStore { entries: Vec::new() };
        assert(res@ =~= Seq::<(KeyView, Value)>::empty());
        res
    }

    /// The number of keys in the store.
    pub fn len(&self) -> (res: usize)
        ensures
            res == self@.len(),
    {
        self.entries.len()
    }

    /// The place of the entry under `key`, or the length of the store.
    fn find(&self, key: &StoreKey) -> (res: usize)
        ensures
            has_key(self@, key@) <==> res < self@.len(),
            has_key(self@, key@) ==> res == key_position(self@, key@),
            res <= self@.len(),
    {
        let mut i: usize = 0;
        while i < self.entries.len()
            invariant
                0 <= i <= self.entries.len(),
                forall|j: int| 0 <= j < i ==> (#[trigger] self@[j]).0 != key@,
            decreases self.entries.len() - i,
        {
            if self.entries[i].0.same(key) {
                proof {
                    assert(self@[i as int].0 == key@);
                    lemma_key_position(self@, key@, i as int);
                }
                return i;
            }
            i = i + 1;
        }
        i
    }

    /// Whether every value that the store holds under the key of an
    /// entity is of the kind `holding`.
    pub fn holds_only(&self, holding: Holding) -> (res: bool)
        ensures
            res == holds(self@, holding),
    {
        let mut i: usize = 0;
        while i < self.entries.len()
            invariant
                0 <= i <= self.entries.len(),
                forall|j: int|
                    0 <= j < i && (#[trigger] self@[j]).0 is Entity ==> holding.admits(self@[j].1),
            decreases self.entries.len() - i,
        {
            let of_entity = match &self.entries[i].0 {
                StoreKey::Entity(_) => true,
                StoreKey::Name(_) => false,
            };
            assert(self@[i as int] == (self.entries@[i as int].0@, self.entries@[i as int].1));
            if of_entity && !holding.takes(&self.entries[i].1) {
                return false;
            }
            i = i + 1;
        }
        true
    }

    /// Whether the store holds a value under `key`.
    pub fn contains_key(&self, key: &StoreKey) -> (res: bool)
        ensures
            res == has_key(self@, key@),
    {
        self.find(key) < self.entries.len()
    }

    /// The value kept under `key`, if there is one.
    pub fn get(&self, key: &StoreKey) -> (res: Option<&Value>)
        ensures
            match res {
                Some(value) => lookup(self@, key@) == Some(*value),
                None => lookup(self@, key@) is None,
            },
    {
        let i = self.find(key);
        if i < self.entries.len() {
            assert(self@[i as int].1 == self.entries@[i as int].1);
            Some(&self.entries[i].1)
        } else {
            None
        }
    }

    /// Keeps `value` under `key`, in place of what was kept there.
    pub fn insert(&mut self, key: StoreKey, value: Value)
        ensures
            final(self)@ == stored(old(self)@, key@, value),
    {
        let i = self.find(&key);
        let ghost key_view = key@;
        if i < self.entries.len() {
            self.entries[i] = (key, value);
            assert(self.entries@ == old(self).entries@.update(i as int, (key, value)));
            assert(self@ =~= old(self)@.update(i as int, (key_view, value)));
        } else {
            self.entries.push((key, value));
            assert(self@ =~= old(self)@.push((key_view, value)));
        }
    }

    /// Takes out what is kept under `key` and returns it.
    pub fn remove(&mut self, key: &StoreKey) -> (res: Option<Value>)
        ensures
            res == lookup(old(self)@, key@),
            final(self)@ == dropped(old(self)@, key@),
    {
        let i = self.find(key);
        if i < self.entries.len() {
            assert(old(self)@[i as int].1 == self.entries@[i as int].1);
            let entry = self.entries.remove(i);
            assert(self@ =~= old(self)@.remove(i as int));
            Some(entry.1)
        } else {
            None
        }
    }
}

} // verus!
