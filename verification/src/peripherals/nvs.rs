//! NVS (non-volatile storage): a key-value store of typed values.
//!
//! The store itself lives here; writing it to and reading it from its JSON
//! file is done by the caller, which each mutating operation tells whether
//! the store must now be saved (auto-save).

use vstd::prelude::*;

verus! {

/// An NVS value.
#[derive(Debug, Clone)]
pub enum NvsValue {
    U8(u8),
    I8(i8),
    U16(u16),
    I16(i16),
    U32(u32),
    I32(i32),
    U64(u64),
    I64(i64),
    String(String),
    Blob(Vec<u8>),
}

/// The mathematical content of an NVS value.
pub enum NvsData {
    U8(u8),
    I8(i8),
    U16(u16),
    I16(i16),
    U32(u32),
    I32(i32),
    U64(u64),
    I64(i64),
    Str(Seq<char>),
    Blob(Seq<u8>),
}

impl View for NvsValue {
    type V = NvsData;

    open spec fn view(&self) -> NvsData {
        match self {
            NvsValue::U8(v) => NvsData::U8(*v),
            NvsValue::I8(v) => NvsData::I8(*v),
            NvsValue::U16(v) => NvsData::U16(*v),
            NvsValue::I16(v) => NvsData::I16(*v),
            NvsValue::U32(v) => NvsData::U32(*v),
            NvsValue::I32(v) => NvsData::I32(*v),
            NvsValue::U64(v) => NvsData::U64(*v),
            NvsValue::I64(v) => NvsData::I64(*v),
            NvsValue::String(s) => NvsData::Str(s@),
            NvsValue::Blob(b) => NvsData::Blob(b@),
        }
    }
}

impl NvsValue {
    /// A copy of this value.
    pub fn duplicate(&self) -> (r: NvsValue)
        ensures
            r@ == self@,
    {
        match self {
            NvsValue::U8(v) => NvsValue::U8(*v),
            NvsValue::I8(v) => NvsValue::I8(*v),
            NvsValue::U16(v) => NvsValue::U16(*v),
            NvsValue::I16(v) => NvsValue::I16(*v),
            NvsValue::U32(v) => NvsValue::U32(*v),
            NvsValue::I32(v) => NvsValue::I32(*v),
            NvsValue::U64(v) => NvsValue::U64(*v),
            NvsValue::I64(v) => NvsValue::I64(*v),
            NvsValue::String(s) => NvsValue::String(s.clone()),
            NvsValue::Blob(b) => {
                let c = b.clone();
                assert(c@ =~= b@);
                NvsValue::Blob(c)
            },
        }
    }
}

/// The keys of a sequence of entries, as character sequences.
pub open spec fn entry_keys(s: Seq<(String, NvsValue)>) -> Seq<Seq<char>> {
    s.map_values(|e: (String, NvsValue)| e.0@)
}

/// The map that a sequence of entries with distinct keys stands for.
pub open spec fn entries_map(s: Seq<(String, NvsValue)>) -> Map<Seq<char>, NvsData> {
    Map::new(
        |k: Seq<char>| entry_keys(s).contains(k),
        |k: Seq<char>| s[entry_keys(s).index_of(k)].1@,
    )
}

/// The map after inserting each pair of `s` in turn into `m` (a later pair
/// for the same key replaces an earlier one).
pub open spec fn insert_all(m: Map<Seq<char>, NvsData>, s: Seq<(String, NvsValue)>) -> Map<Seq<char>, NvsData>
    decreases s.len(),
{
    if s.len() == 0 {
        m
    } else {
        insert_all(m, s.drop_last()).insert(s.last().0@, s.last().1@)
    }
}

/// The `u32` stored under `k`, if the value there is a `U32`.
pub open spec fn u32_at(m: Map<Seq<char>, NvsData>, k: Seq<char>) -> Option<u32> {
    if m.contains_key(k) {
        match m[k] {
            NvsData::U32(v) => Some(v),
            _ => None,
        }
    } else {
        None
    }
}

/// The string stored under `k`, if the value there is a `String`.
pub open spec fn str_at(m: Map<Seq<char>, NvsData>, k: Seq<char>) -> Option<Seq<char>> {
    if m.contains_key(k) {
        match m[k] {
            NvsData::Str(v) => Some(v),
            _ => None,
        }
    } else {
        None
    }
}

/// The blob stored under `k`, if the value there is a `Blob`.
pub open spec fn blob_at(m: Map<Seq<char>, NvsData>, k: Seq<char>) -> Option<Seq<u8>> {
    if m.contains_key(k) {
        match m[k] {
            NvsData::Blob(v) => Some(v),
            _ => None,
        }
    } else {
        None
    }
}

/// NVS storage: a map from string keys to typed values, with an auto-save
/// setting.
pub struct NvsStorage {
    entries: Vec<(String, NvsValue)>,
    auto_save: bool,
}

proof fn lemma_index_of_unique(keys: Seq<Seq<char>>, i: int)
    requires
        keys.no_duplicates(),
        0 <= i < keys.len(),
    ensures
        keys.contains(keys[i]),
        keys.index_of(keys[i]) == i,
{
    assert(keys.contains(keys[i]));
}

impl NvsStorage {
    /// The stored map.
    pub closed spec fn view(&self) -> Map<Seq<char>, NvsData> {
        entries_map(self.entries@)
    }

    /// Whether each change is to be saved at once.
    pub closed spec fn auto_save_on(&self) -> bool {
        self.auto_save
    }

    /// The store is well formed: no key occurs twice.
    #[verifier::type_invariant]
    spec fn wf(&self) -> bool {
        entry_keys(self.entries@).no_duplicates()
    }

    proof fn lemma_lookup(&self, i: int)
        requires
            self.wf(),
            0 <= i < self.entries@.len(),
        ensures
            self@.contains_key(self.entries@[i].0@),
            self@[self.entries@[i].0@] == self.entries@[i].1@,
    {
        lemma_index_of_unique(entry_keys(self.entries@), i);
    }

    proof fn lemma_dom(&self)
        requires
            self.wf(),
        ensures
            self@.dom() == entry_keys(self.entries@).to_set(),
            self@.dom().finite(),
            self@.len() == self.entries@.len(),
    {
        let keys = entry_keys(self.entries@);
        assert(self@.dom() =~= keys.to_set());
        keys.unique_seq_to_set();
        vstd::seq_lib::seq_to_set_is_finite(keys);
    }

    /// An empty store with auto-save on.
    pub fn new() -> (s: Self)
        ensures
            s@ == Map::<Seq<char>, NvsData>::empty(),
            s.auto_save_on(),
    {
        let s = NvsStorage { entries: Vec::new(), auto_save: true };
        assert(s@ =~= Map::<Seq<char>, NvsData>::empty());
        s
    }

    /// The index of the entry for `key`, if there is one.
    fn find(&self, key: &str) -> (r: Option<usize>)
        ensures
            match r {
                Some(i) => i < self.entries@.len() && self.entries@[i as int].0@ == key@,
                None => !self@.contains_key(key@),
            },
    {
        let k = key.to_owned();
        let mut i: usize = 0;
        while i < self.entries.len()
            invariant
                i <= self.entries@.len(),
                k@ == key@,
                forall|j: int| 0 <= j < i ==> self.entries@[j].0@ != key@,
            decreases self.entries.len() - i,
        {
            if self.entries[i].0 == k {
                return Some(i);
            }
            i = i + 1;
        }
        assert(!entry_keys(self.entries@).contains(key@)) by {
            if entry_keys(self.entries@).contains(key@) {
                let j = entry_keys(self.entries@).index_of(key@);
                assert(self.entries@[j].0@ == key@);
            }
        }
        None
    }

    /// Stores `value` under `key`, replacing any earlier value. Returns
    /// whether the store must now be saved (auto-save is on).
    pub fn set(&mut self, key: &str, value: NvsValue) -> (save: bool)
        ensures
            final(self)@ == old(self)@.insert(key@, value@),
            final(self).auto_save_on() == old(self).auto_save_on(),
            save == old(self).auto_save_on(),
    {
        proof {
            use_type_invariant(&*self);
        }
        let ghost old_entries = self.entries@;
        let ghost vv = value@;
        let found = self.find(key);
        let mut entries: Vec<(String, NvsValue)> = Vec::new();
        std::mem::swap(&mut entries, &mut self.entries);
        match found {
            Some(i) => {
                let k = key.to_owned();
                entries.set(i, (k, value));
                proof {
                    let keys = entry_keys(entries@);
                    assert(keys =~= entry_keys(old_entries));
                    assert(keys[i as int] == key@);
                    let m = old(self)@.insert(key@, vv);
                    assert forall|q: Seq<char>| #[trigger] entries_map(entries@).contains_key(q) == m.contains_key(q) by {
                        if q == key@ {
                            assert(keys.contains(q));
                        }
                    }
                    assert forall|q: Seq<char>| m.contains_key(q) implies #[trigger] entries_map(entries@)[q] == m[q] by {
                        assert(keys.contains(q));
                        let j = keys.index_of(q);
                        lemma_index_of_unique(keys, j);
                        if q == key@ {
                            lemma_index_of_unique(keys, i as int);
                        } else {
                            assert(entry_keys(old_entries).index_of(q) == j);
                        }
                    }
                    assert(entries_map(entries@) =~= m);
                }
            },
            None => {
                let k = key.to_owned();
                entries.push((k, value));
                proof {
                    let keys = entry_keys(entries@);
                    assert(keys =~= entry_keys(old_entries).push(key@));
                    assert(keys.no_duplicates()) by {
                        assert forall|a: int, b: int|
                            0 <= a < keys.len() && 0 <= b < keys.len() && a != b implies keys[a] != keys[b] by {
                            if a == keys.len() - 1 {
                                assert(entry_keys(old_entries).contains(keys[b]) ==> old(self)@.contains_key(keys[b]));
                                assert(entry_keys(old_entries)[b] == keys[b]);
                            } else if b == keys.len() - 1 {
                                assert(entry_keys(old_entries)[a] == keys[a]);
                            }
                        }
                    }
                    let m = old(self)@.insert(key@, vv);
                    assert forall|q: Seq<char>| #[trigger] entries_map(entries@).contains_key(q) == m.contains_key(q) by {
                        if m.contains_key(q) && q != key@ {
                            let j = entry_keys(old_entries).index_of(q);
                            assert(keys[j] == q);
                        }
                        if q == key@ {
                            assert(keys[keys.len() - 1] == q);
                        }
                    }
                    assert forall|q: Seq<char>| m.contains_key(q) implies #[trigger] entries_map(entries@)[q] == m[q] by {
                        if q == key@ {
                            lemma_index_of_unique(keys, keys.len() - 1);
                        } else {
                            let j = entry_keys(old_entries).index_of(q);
                            lemma_index_of_unique(entry_keys(old_entries), j);
                            assert(keys[j] == q);
                            lemma_index_of_unique(keys, j);
                        }
                    }
                    assert(entries_map(entries@) =~= m);
                }
            },
        }
        self.entries = entries;
        self.auto_save
    }

    /// The value stored under `key`.
    pub fn get(&self, key: &str) -> (r: Option<NvsValue>)
        ensures
            match r {
                Some(v) => self@.contains_key(key@) && v@ == self@[key@],
                None => !self@.contains_key(key@),
            },
    {
        proof {
            use_type_invariant(self);
        }
        match self.find(key) {
            Some(i) => {
                proof {
                    self.lemma_lookup(i as int);
                }
                Some(self.entries[i].1.duplicate())
            },
            None => None,
        }
    }

    /// The value stored under `key` if it is a `U32`.
    pub fn get_u32(&self, key: &str) -> (r: Option<u32>)
        ensures
            r == u32_at(self@, key@),
    {
        match self.get(key) {
            Some(NvsValue::U32(v)) => Some(v),
            _ => None,
        }
    }

    /// The value stored under `key` if it is a `String`.
    pub fn get_string(&self, key: &str) -> (r: Option<String>)
        ensures
            match r {
                Some(v) => str_at(self@, key@) == Some(v@),
                None => str_at(self@, key@).is_none(),
            },
    {
        match self.get(key) {
            Some(NvsValue::String(v)) => Some(v),
            _ => None,
        }
    }

    /// The value stored under `key` if it is a `Blob`.
    pub fn get_blob(&self, key: &str) -> (r: Option<Vec<u8>>)
        ensures
            match r {
                Some(v) => blob_at(self@, key@) == Some(v@),
                None => blob_at(self@, key@).is_none(),
            },
    {
        match self.get(key) {
            Some(NvsValue::Blob(v)) => Some(v),
            _ => None,
        }
    }

    /// Removes `key`. Returns whether it was there, and whether the store
    /// must now be saved (it was there and auto-save is on).
    pub fn erase(&mut self, key: &str) -> (r: (bool, bool))
        ensures
            final(self)@ == old(self)@.remove(key@),
            final(self).auto_save_on() == old(self).auto_save_on(),
            r.0 == old(self)@.contains_key(key@),
            r.1 == (r.0 && old(self).auto_save_on()),
    {
        proof {
            use_type_invariant(&*self);
        }
        let ghost old_entries = self.entries@;
        let found = self.find(key);
        proof {
            if let Some(i) = found {
                self.lemma_lookup(i as int);
            }
        }
        let mut entries: Vec<(String, NvsValue)> = Vec::new();
        std::mem::swap(&mut entries, &mut self.entries);
        match found {
            Some(i) => {
                let _removed = entries.remove(i);
                proof {
                    let ok = entry_keys(old_entries);
                    let keys = entry_keys(entries@);
                    assert(keys =~= ok.remove(i as int));
                    assert(keys.no_duplicates()) by {
                        assert forall|a: int, b: int|
                            0 <= a < keys.len() && 0 <= b < keys.len() && a != b implies keys[a] != keys[b] by {
                            let a2 = if a < i { a } else { a + 1 };
                            let b2 = if b < i { b } else { b + 1 };
                            assert(keys[a] == ok[a2]);
                            assert(keys[b] == ok[b2]);
                        }
                    }
                    let m = old(self)@.remove(key@);
                    assert(ok[i as int] == key@);
                    assert forall|q: Seq<char>| #[trigger] entries_map(entries@).contains_key(q) == m.contains_key(q) by {
                        if keys.contains(q) {
                            let j = keys.index_of(q);
                            let j2 = if j < i { j } else { j + 1 };
                            assert(ok[j2] == q);
                            assert(j2 != i);
                            assert(q != key@);
                            assert(ok.contains(q));
                            assert(m.contains_key(q));
                        }
                        if m.contains_key(q) {
                            assert(ok.contains(q));
                            let j2 = ok.index_of(q);
                            assert(ok[j2] == q);
                            assert(j2 != i);
                            let j = if j2 < i { j2 } else { j2 - 1 };
                            assert(keys[j] == q);
                            assert(keys.contains(q));
                        }
                    }
                    assert forall|q: Seq<char>| m.contains_key(q) implies #[trigger] entries_map(entries@)[q] == m[q] by {
                        let j2 = ok.index_of(q);
                        lemma_index_of_unique(ok, j2);
                        assert(j2 != i);
                        let j = if j2 < i { j2 } else { j2 - 1 };
                        assert(keys[j] == q);
                        lemma_index_of_unique(keys, j);
                    }
                    assert(entries_map(entries@) =~= m);
                }
                self.entries = entries;
                (true, self.auto_save)
            },
            None => {
                assert(entries_map(entries@) =~= old(self)@.remove(key@));
                self.entries = entries;
                (false, false)
            },
        }
    }

    /// Whether `key` is stored.
    pub fn key_exists(&self, key: &str) -> (r: bool)
        ensures
            r == self@.contains_key(key@),
    {
        proof {
            use_type_invariant(self);
        }
        match self.find(key) {
            Some(i) => {
                proof {
                    self.lemma_lookup(i as int);
                }
                true
            },
            None => false,
        }
    }

    /// All stored keys, each once.
    pub fn keys(&self) -> (r: Vec<String>)
        ensures
            crate::text::string_views(r@).no_duplicates(),
            crate::text::string_views(r@).to_set() == self@.dom(),
            r@.len() == self@.len(),
    {
        proof {
            use_type_invariant(self);
        }
        let mut out: Vec<String> = Vec::new();
        let mut i: usize = 0;
        while i < self.entries.len()
            invariant
                i <= self.entries@.len(),
                self.wf(),
                crate::text::string_views(out@) == entry_keys(self.entries@).subrange(0, i as int),
            decreases self.entries.len() - i,
        {
            let k = self.entries[i].0.clone();
            let ghost before = out@;
            out.push(k);
            assert(crate::text::string_views(out@) =~= entry_keys(self.entries@).subrange(0, i + 1)) by {
                assert(crate::text::string_views(out@) =~= crate::text::string_views(before).push(k@));
            }
            i = i + 1;
        }
        proof {
            let keys = entry_keys(self.entries@);
            assert(crate::text::string_views(out@) =~= keys);
            self.lemma_dom();
        }
        out
    }

    /// Removes every key. Returns whether the store must now be saved
    /// (auto-save is on).
    pub fn clear(&mut self) -> (save: bool)
        ensures
            final(self)@ == Map::<Seq<char>, NvsData>::empty(),
            final(self).auto_save_on() == old(self).auto_save_on(),
            save == old(self).auto_save_on(),
    {
        self.entries = Vec::new();
        assert(self@ =~= Map::<Seq<char>, NvsData>::empty());
        self.auto_save
    }

    /// Turns auto-save on or off.
    pub fn set_auto_save(&mut self, enabled: bool)
        ensures
            final(self)@ == old(self)@,
            final(self).auto_save_on() == enabled,
    {
        proof {
            use_type_invariant(&*self);
        }
        self.auto_save = enabled;
    }

    /// Whether auto-save is on.
    pub fn auto_save(&self) -> (r: bool)
        ensures
            r == self.auto_save_on(),
    {
        self.auto_save
    }

    /// The number of stored keys.
    pub fn len(&self) -> (n: usize)
        ensures
            n == self@.len(),
    {
        proof {
            use_type_invariant(self);
        }
        proof {
            self.lemma_dom();
        }
        self.entries.len()
    }

    /// Whether no key is stored.
    pub fn is_empty(&self) -> (r: bool)
        ensures
            r == (self@.len() == 0),
    {
        proof {
            use_type_invariant(self);
        }
        proof {
            self.lemma_dom();
        }
        self.entries.len() == 0
    }

    /// A store holding the given pairs (a later pair for a key replaces an
    /// earlier one), with auto-save on.
    pub fn from_pairs(pairs: Vec<(String, NvsValue)>) -> (s: Self)
        ensures
            s@ == insert_all(Map::empty(), pairs@),
            s.auto_save_on(),
    {
        let mut s = NvsStorage::new();
        let mut i: usize = 0;
        while i < pairs.len()
            invariant
                i <= pairs@.len(),
                s.auto_save_on(),
                s@ == insert_all(Map::empty(), pairs@.subrange(0, i as int)),
            decreases pairs.len() - i,
        {
            let ghost before = s@;
            let v = pairs[i].1.duplicate();
            s.set(pairs[i].0.as_str(), v);
            proof {
                let p = pairs@.subrange(0, i + 1);
                assert(p.drop_last() =~= pairs@.subrange(0, i as int));
            }
            i = i + 1;
        }
        assert(pairs@.subrange(0, i as int) =~= pairs@);
        s
    }

    /// The stored pairs, each key once.
    pub fn pairs(&self) -> (r: Vec<(String, NvsValue)>)
        ensures
            entry_keys(r@).no_duplicates(),
            entries_map(r@) == self@,
    {
        proof {
            use_type_invariant(self);
        }
        let mut out: Vec<(String, NvsValue)> = Vec::new();
        let mut i: usize = 0;
        while i < self.entries.len()
            invariant
                i <= self.entries@.len(),
                out@.len() == i,
                forall|j: int| 0 <= j < i ==> (#[trigger] out@[j]).0@ == self.entries@[j].0@
                    && out@[j].1@ == self.entries@[j].1@,
            decreases self.entries.len() - i,
        {
            let k = self.entries[i].0.clone();
            let v = self.entries[i].1.duplicate();
            out.push((k, v));
            i = i + 1;
        }
        proof {
            assert(entry_keys(out@) =~= entry_keys(self.entries@));
            assert forall|q: Seq<char>| entries_map(out@).contains_key(q) implies
                #[trigger] entries_map(out@)[q] == self@[q] by {
                let j = entry_keys(out@).index_of(q);
                lemma_index_of_unique(entry_keys(out@), j);
            }
            assert(entries_map(out@) =~= self@);
        }
        out
    }
}

/// A read after a write gives back what was written, and a write to one
/// key leaves every other key as it was.
pub proof fn law_get_after_set(m: Map<Seq<char>, NvsData>, k: Seq<char>, v: NvsData, other: Seq<char>)
    requires
        other != k,
    ensures
        m.insert(k, v).contains_key(k),
        m.insert(k, v)[k] == v,
        m.insert(k, v).contains_key(other) == m.contains_key(other),
        m.contains_key(other) ==> m.insert(k, v)[other] == m[other],
{
}

/// An erased key is gone; other keys are untouched.
pub proof fn law_erase_removes(m: Map<Seq<char>, NvsData>, k: Seq<char>, other: Seq<char>)
    requires
        other != k,
    ensures
        !m.remove(k).contains_key(k),
        m.remove(k).contains_key(other) == m.contains_key(other),
        m.contains_key(other) ==> m.remove(k)[other] == m[other],
{
}

/// The number of entries counts distinct keys: storing under a new key adds
/// one, storing under an existing key adds none, erasing a stored key takes
/// one away.
pub proof fn law_len_counts_keys(m: Map<Seq<char>, NvsData>, k: Seq<char>, v: NvsData)
    requires
        m.dom().finite(),
    ensures
        m.contains_key(k) ==> m.insert(k, v).len() == m.len(),
        !m.contains_key(k) ==> m.insert(k, v).len() == m.len() + 1,
        m.contains_key(k) ==> m.remove(k).len() == m.len() - 1,
        !m.contains_key(k) ==> m.remove(k).len() == m.len(),
{
    if m.contains_key(k) {
        assert(m.insert(k, v).dom() =~= m.dom());
    } else {
        assert(m.remove(k).dom() =~= m.dom());
    }
}

/// The typed getters see a value only through its own type: a `U32` stored
/// under a key is read back by `get_u32` and by neither `get_string` nor
/// `get_blob`, and likewise for strings and blobs.
pub proof fn law_typed_getters(m: Map<Seq<char>, NvsData>, k: Seq<char>, n: u32, s: Seq<char>, b: Seq<u8>)
    ensures
        u32_at(m.insert(k, NvsData::U32(n)), k) == Some(n),
        str_at(m.insert(k, NvsData::U32(n)), k).is_none(),
        blob_at(m.insert(k, NvsData::U32(n)), k).is_none(),
        str_at(m.insert(k, NvsData::Str(s)), k) == Some(s),
        u32_at(m.insert(k, NvsData::Str(s)), k).is_none(),
        blob_at(m.insert(k, NvsData::Blob(b)), k) == Some(b),
        u32_at(m.insert(k, NvsData::Blob(b)), k).is_none(),
        !m.contains_key(k) ==> u32_at(m, k).is_none() && str_at(m, k).is_none() && blob_at(m, k).is_none(),
{
}

/// Each typed getter sees exactly the values of its own type: `get_u32`
/// gives `Some(n)` exactly when a `U32(n)` is stored under the key, and
/// nothing for a missing key or a value of any other type (an `I32` is not
/// read back as a `u32`); likewise `get_string` for strings and `get_blob`
/// for blobs.
pub proof fn law_typed_getter_exact(m: Map<Seq<char>, NvsData>, k: Seq<char>, d: NvsData)
    ensures
        u32_at(m, k).is_some() == (m.contains_key(k) && m[k] is U32),
        m.contains_key(k) && m[k] is U32 ==> u32_at(m, k) == Some(m[k]->U32_0),
        str_at(m, k).is_some() == (m.contains_key(k) && m[k] is Str),
        m.contains_key(k) && m[k] is Str ==> str_at(m, k) == Some(m[k]->Str_0),
        blob_at(m, k).is_some() == (m.contains_key(k) && m[k] is Blob),
        m.contains_key(k) && m[k] is Blob ==> blob_at(m, k) == Some(m[k]->Blob_0),
        !(d is U32) ==> u32_at(m.insert(k, d), k).is_none(),
        !(d is Str) ==> str_at(m.insert(k, d), k).is_none(),
        !(d is Blob) ==> blob_at(m.insert(k, d), k).is_none(),
{
}

/// A store loaded from pairs holds, for each key, the value of its last
/// pair.
pub proof fn law_load_last_pair_wins(s: Seq<(String, NvsValue)>, k: String, v: NvsValue)
    ensures
        insert_all(Map::empty(), s.push((k, v)))[k@] == v@,
        insert_all(Map::empty(), s.push((k, v))).contains_key(k@),
{
    assert(s.push((k, v)).drop_last() =~= s);
}

/// A store's pairs, loaded again, give back the same store.
pub proof fn law_pairs_reload(r: Seq<(String, NvsValue)>)
    requires
        entry_keys(r).no_duplicates(),
    ensures
        insert_all(Map::empty(), r) == entries_map(r),
    decreases r.len(),
{
    if r.len() == 0 {
        assert(entries_map(r) =~= Map::<Seq<char>, NvsData>::empty());
    } else {
        let p = r.drop_last();
        let kp = entry_keys(p);
        let kr = entry_keys(r);
        assert(kp =~= kr.drop_last());
        assert(kp.no_duplicates());
        law_pairs_reload(p);
        let last = r.last();
        let n = r.len() - 1;
        assert(kr[n] == last.0@);
        assert forall|q: Seq<char>| #[trigger] entries_map(r).contains_key(q) == entries_map(p).insert(
            last.0@,
            last.1@,
        ).contains_key(q) by {
            if kr.contains(q) && q != last.0@ {
                let j = kr.index_of(q);
                assert(j != n);
                assert(kp[j] == q);
            }
            if kp.contains(q) {
                let j = kp.index_of(q);
                assert(kr[j] == q);
            }
        }
        assert forall|q: Seq<char>| entries_map(r).contains_key(q) implies #[trigger] entries_map(r)[q]
            == entries_map(p).insert(last.0@, last.1@)[q] by {
            let j = kr.index_of(q);
            lemma_index_of_unique(kr, j);
            if q == last.0@ {
                lemma_index_of_unique(kr, n);
            } else {
                assert(j != n);
                assert(kp[j] == q);
                lemma_index_of_unique(kp, j);
            }
        }
        assert(entries_map(r) =~= entries_map(p).insert(last.0@, last.1@));
    }
}

} // verus!
