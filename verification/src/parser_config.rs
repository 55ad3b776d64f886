use crate::transform_sanitize_token::Transitizer;
use vstd::prelude::*;

verus! {

/// The types that a column's values can be given.
#[derive(Debug, Clone, Copy, PartialEq, Eq, Structural)]
pub enum ValueType {
    Char,
    String,
    Int8,
    Int16,
    Int32,
    Int64,
    Int128,
    UInt8,
    UInt16,
    UInt32,
    UInt64,
    UInt128,
    Float32,
    Float64,
    Bool,
    Decimal,
    NaiveDate,
    NaiveDateTime,
    DateTime,
}

/// How one column is typed: its header, where the configuration names one,
/// the type of its values, the pattern that the values are written in,
/// where the type needs one, and the texts that stand for "no value".
#[derive(Debug, Clone, PartialEq, Eq)]
pub struct TypeColumnEntry {
    pub header: Option<String>,
    pub target_type: ValueType,
    pub chrono_pattern: Option<String>,
    pub map_to_none: Option<Vec<String>>,
}

/// What a [`TypeColumnEntry`] says, with its texts as character sequences.
pub struct TypeColumnEntryView {
    pub header: Option<Seq<char>>,
    pub target_type: ValueType,
    pub chrono_pattern: Option<Seq<char>>,
    pub map_to_none: Option<Seq<Seq<char>>>,
}

/// The text of an optional string.
pub open spec fn opt_text(s: Option<String>) -> Option<Seq<char>> {
    match s {
        Some(t) => Some(t@),
        None => None,
    }
}

impl View for TypeColumnEntry {
    type V = TypeColumnEntryView;

    open spec fn view(&self) -> TypeColumnEntryView {
        TypeColumnEntryView {
            header: opt_text(self.header),
            target_type: self.target_type,
            chrono_pattern: opt_text(self.chrono_pattern),
            map_to_none: match self.map_to_none {
                Some(v) => Some(v@.map_values(|t: String| t@)),
                None => None,
            },
        }
    }
}

/// What a run of column typings says.
pub open spec fn typing_views(typings: Seq<TypeColumnEntry>) -> Seq<TypeColumnEntryView> {
    typings.map_values(|t: TypeColumnEntry| t@)
}

impl TypeColumnEntry {
    pub fn new(header: Option<String>, target_type: ValueType) -> (e: Self)
        ensures
            e@ == (TypeColumnEntryView {
                header: opt_text(header),
                target_type,
                chrono_pattern: None,
                map_to_none: None,
            }),
    {
        Self { header, target_type, chrono_pattern: None, map_to_none: None }
    }

    pub fn new_with_chrono_pattern(
        header: Option<String>,
        target_type: ValueType,
        chrono_pattern: &str,
    ) -> (e: Self)
        ensures
            e@ == (TypeColumnEntryView {
                header: opt_text(header),
                target_type,
                chrono_pattern: Some(chrono_pattern@),
                map_to_none: None,
            }),
    {
        Self {
            header,
            target_type,
            chrono_pattern: Some(String::from_str(chrono_pattern)),
            map_to_none: None,
        }
    }

    pub fn new_with_map_to_none(
        header: Option<String>,
        target_type: ValueType,
        map_to_none: Vec<String>,
    ) -> (e: Self)
        ensures
            e@ == (TypeColumnEntryView {
                header: opt_text(header),
                target_type,
                chrono_pattern: None,
                map_to_none: Some(map_to_none@.map_values(|t: String| t@)),
            }),
    {
        Self { header, target_type, chrono_pattern: None, map_to_none: Some(map_to_none) }
    }

    pub fn new_with_chrono_pattern_with_map_to_none(
        header: Option<String>,
        target_type: ValueType,
        chrono_pattern: &str,
        map_to_none: Vec<String>,
    ) -> (e: Self)
        ensures
            e@ == (TypeColumnEntryView {
                header: opt_text(header),
                target_type,
                chrono_pattern: Some(chrono_pattern@),
                map_to_none: Some(map_to_none@.map_values(|t: String| t@)),
            }),
    {
        Self {
            header,
            target_type,
            chrono_pattern: Some(String::from_str(chrono_pattern)),
            map_to_none: Some(map_to_none),
        }
    }
}

/// An ordered chain of token transforms.
pub type VecOfTokenTransitizers = Vec<Transitizer>;

/// The chain of one key of a [`TransitizerMap`].
#[derive(Debug)]
pub struct TransitizerEntry {
    pub key: Option<usize>,
    pub chain: Vec<Transitizer>,
}

/// The chains of token transforms by the column they apply to. The key
/// `None` holds the chain for every column, the key `Some(i)` the chain for
/// column `i` alone. No key occurs twice.
#[derive(Debug)]
pub struct TransitizerMap {
    entries: Vec<TransitizerEntry>,
}

/// Whether no two entries of `entries` have the same key.
pub open spec fn distinct_keys(entries: Seq<TransitizerEntry>) -> bool {
    forall|i: int, j: int|
        0 <= i < j < entries.len() ==> (#[trigger] entries[i]).key != (#[trigger] entries[j]).key
}

/// Whether `entries` has an entry for `key`.
pub open spec fn has_key(entries: Seq<TransitizerEntry>, key: Option<usize>) -> bool {
    exists|i: int| 0 <= i < entries.len() && (#[trigger] entries[i]).key == key
}

/// The index of an entry for `key`.
pub open spec fn key_index(entries: Seq<TransitizerEntry>, key: Option<usize>) -> int {
    choose|i: int| 0 <= i < entries.len() && (#[trigger] entries[i]).key == key
}

/// The chains of `entries` by their keys.
pub open spec fn chains_of(entries: Seq<TransitizerEntry>) -> Map<Option<usize>, Seq<Transitizer>> {
    Map::new(
        |k: Option<usize>| has_key(entries, k),
        |k: Option<usize>| entries[key_index(entries, k)].chain@,
    )
}

proof fn lemma_key_index(entries: Seq<TransitizerEntry>, i: int)
    requires
        distinct_keys(entries),
        0 <= i < entries.len(),
    ensures
        has_key(entries, entries[i].key),
        key_index(entries, entries[i].key) == i,
{
    let k = entries[i].key;
    let j = key_index(entries, k);
    assert(0 <= j < entries.len() && entries[j].key == k);
    if j < i {
        assert(entries[j].key != entries[i].key);
    }
    if i < j {
        assert(entries[i].key != entries[j].key);
    }
}

proof fn lemma_chains_push(entries: Seq<TransitizerEntry>, e: TransitizerEntry)
    requires
        distinct_keys(entries),
        !has_key(entries, e.key),
    ensures
        distinct_keys(entries.push(e)),
        chains_of(entries.push(e)) == chains_of(entries).insert(e.key, e.chain@),
{
    let after = entries.push(e);
    assert forall|i: int, j: int| 0 <= i < j < after.len() implies (#[trigger] after[i]).key != (
    #[trigger] after[j]).key by {
        if j == entries.len() {
            assert(after[i] == entries[i]);
            if after[i].key == e.key {
                assert(has_key(entries, e.key));
            }
        } else {
            assert(after[i] == entries[i] && after[j] == entries[j]);
        }
    }
    assert forall|k: Option<usize>| has_key(after, k) <==> (k == e.key || has_key(entries, k)) by {
        if has_key(after, k) {
            let i = key_index(after, k);
            if i < entries.len() {
                assert(entries[i].key == k);
            }
        }
        if k == e.key {
            assert(after[entries.len() as int].key == k);
        }
        if has_key(entries, k) {
            let i = key_index(entries, k);
            assert(after[i].key == k);
        }
    }
    assert forall|k: Option<usize>| has_key(after, k) implies #[trigger] chains_of(after)[k]
        == chains_of(entries).insert(e.key, e.chain@)[k] by {
        if k == e.key {
            lemma_key_index(after, entries.len() as int);
        } else {
            let i = key_index(entries, k);
            assert(after[i] == entries[i]);
            lemma_key_index(after, i);
        }
    }
    assert(chains_of(after) =~= chains_of(entries).insert(e.key, e.chain@));
}

proof fn lemma_chains_remove(entries: Seq<TransitizerEntry>, i: int)
    requires
        distinct_keys(entries),
        0 <= i < entries.len(),
    ensures
        distinct_keys(entries.remove(i)),
        !has_key(entries.remove(i), entries[i].key),
        chains_of(entries.remove(i)) == chains_of(entries).remove(entries[i].key),
        chains_of(entries).contains_key(entries[i].key),
        chains_of(entries)[entries[i].key] == entries[i].chain@,
{
    let after = entries.remove(i);
    let gone = entries[i].key;
    lemma_key_index(entries, i);
    assert forall|a: int| 0 <= a < after.len() implies #[trigger] after[a] == entries[if a < i {
        a
    } else {
        a + 1
    }] by {}
    assert forall|a: int, b: int| 0 <= a < b < after.len() implies (#[trigger] after[a]).key != (
    #[trigger] after[b]).key by {
        let a0 = if a < i {
            a
        } else {
            a + 1
        };
        let b0 = if b < i {
            b
        } else {
            b + 1
        };
        assert(after[a] == entries[a0] && after[b] == entries[b0]);
        assert(entries[a0].key != entries[b0].key);
    }
    if has_key(after, gone) {
        let a = key_index(after, gone);
        let a0 = if a < i {
            a
        } else {
            a + 1
        };
        assert(after[a] == entries[a0]);
        if a0 < i {
            assert(entries[a0].key != entries[i].key);
        } else {
            assert(entries[i].key != entries[a0].key);
        }
    }
    assert forall|k: Option<usize>| has_key(after, k) <==> (k != gone && has_key(entries, k)) by {
        if has_key(after, k) {
            let a = key_index(after, k);
            let a0 = if a < i {
                a
            } else {
                a + 1
            };
            assert(after[a] == entries[a0]);
            assert(entries[a0].key == k);
        }
        if k != gone && has_key(entries, k) {
            let a0 = key_index(entries, k);
            let a = if a0 < i {
                a0
            } else {
                a0 - 1
            };
            assert(after[a] == entries[a0]);
            assert(after[a].key == k);
        }
    }
    assert forall|k: Option<usize>| has_key(after, k) implies #[trigger] chains_of(after)[k]
        == chains_of(entries)[k] by {
        let a = key_index(after, k);
        let a0 = if a < i {
            a
        } else {
            a + 1
        };
        assert(after[a] == entries[a0]);
        lemma_key_index(entries, a0);
    }
    assert(chains_of(after) =~= chains_of(entries).remove(gone));
}

/// The keys of a list of entries are finitely many, and as many as the
/// entries where no key occurs twice.
proof fn lemma_keys_of_chains(entries: Seq<TransitizerEntry>)
    ensures
        chains_of(entries).dom().finite(),
        distinct_keys(entries) ==> chains_of(entries).dom().len() == entries.len(),
    decreases entries.len(),
{
    if entries.len() == 0 {
        assert(chains_of(entries).dom() =~= Set::<Option<usize>>::empty());
    } else {
        let before = entries.drop_last();
        let e = entries.last();
        lemma_keys_of_chains(before);
        assert forall|k: Option<usize>| has_key(entries, k) <==> (k == e.key || has_key(before, k)) by {
            if has_key(entries, k) {
                let i = key_index(entries, k);
                if i < before.len() {
                    assert(before[i].key == k);
                }
            }
            if k == e.key {
                assert(entries[entries.len() - 1].key == k);
            }
            if has_key(before, k) {
                let i = key_index(before, k);
                assert(entries[i].key == k);
            }
        }
        assert(chains_of(entries).dom() =~= chains_of(before).dom().insert(e.key));
        if distinct_keys(entries) {
            assert(distinct_keys(before)) by {
                assert forall|i: int, j: int| 0 <= i < j < before.len() implies (
                #[trigger] before[i]).key != (#[trigger] before[j]).key by {
                    assert(before[i] == entries[i] && before[j] == entries[j]);
                }
            }
            if has_key(before, e.key) {
                let i = key_index(before, e.key);
                assert(entries[i].key == entries[entries.len() - 1].key);
            }
            assert(!chains_of(before).dom().contains(e.key));
        }
    }
}

impl View for TransitizerMap {
    type V = Map<Option<usize>, Seq<Transitizer>>;

    closed spec fn view(&self) -> Map<Option<usize>, Seq<Transitizer>> {
        chains_of(self.entries@)
    }
}

impl TransitizerMap {
    #[verifier::type_invariant]
    spec fn well_formed(&self) -> bool {
        distinct_keys(self.entries@)
    }

    /// How many keys the map holds.
    pub open spec fn key_count(&self) -> nat {
        self@.dom().len()
    }

    /// A map holds finitely many keys.
    pub proof fn lemma_keys_finite(&self)
        ensures
            self@.dom().finite(),
    {
        lemma_keys_of_chains(self.entries@);
    }

    /// The map without keys.
    pub fn new() -> (m: Self)
        ensures
            m@ == Map::<Option<usize>, Seq<Transitizer>>::empty(),
            m.key_count() == 0,
    {
        let m = Self { entries: Vec::new() };
        assert(m@ =~= Map::<Option<usize>, Seq<Transitizer>>::empty());
        m
    }

    fn find(&self, key: &Option<usize>) -> (r: Option<usize>)
        ensures
            match r {
                Some(i) => i < self.entries@.len() && self.entries@[i as int].key == *key,
                None => !has_key(self.entries@, *key),
            },
    {
        let mut i: usize = 0;
        while i < self.entries.len()
            invariant
                i <= self.entries@.len(),
                forall|j: int| 0 <= j < i ==> (#[trigger] self.entries@[j]).key != *key,
            decreases self.entries.len() - i,
        {
            let same = match (&self.entries[i].key, key) {
                (Some(a), Some(b)) => *a == *b,
                (None, None) => true,
                _ => false,
            };
            if same {
                return Some(i);
            }
            i += 1;
        }
        None
    }

    /// A map that holds no key holds no chain.
    pub proof fn lemma_no_keys(&self)
        requires
            self.key_count() == 0,
        ensures
            self@ == Map::<Option<usize>, Seq<Transitizer>>::empty(),
    {
        lemma_keys_of_chains(self.entries@);
        assert(self@.dom() =~= Set::<Option<usize>>::empty());
        assert(self@ =~= Map::<Option<usize>, Seq<Transitizer>>::empty());
    }

    /// How many keys the map holds.
    pub fn len(&self) -> (n: usize)
        ensures
            n == self.key_count(),
    {
        proof {
            use_type_invariant(self);
            lemma_keys_of_chains(self.entries@);
        }
        self.entries.len()
    }

    /// Whether the map holds no key.
    pub fn is_empty(&self) -> (b: bool)
        ensures
            b == (self.key_count() == 0),
    {
        proof {
            use_type_invariant(self);
            lemma_keys_of_chains(self.entries@);
        }
        self.entries.len() == 0
    }

    /// Whether the map has a chain for `key`.
    pub fn contains_key(&self, key: &Option<usize>) -> (b: bool)
        ensures
            b == self@.contains_key(*key),
    {
        self.find(key).is_some()
    }

    /// The chain for `key`.
    pub fn get(&self, key: &Option<usize>) -> (r: Option<&Vec<Transitizer>>)
        ensures
            match r {
                Some(chain) => self@.contains_key(*key) && chain@ == self@[*key],
                None => !self@.contains_key(*key),
            },
    {
        proof {
            use_type_invariant(self);
        }
        match self.find(key) {
            Some(i) => {
                proof {
                    lemma_key_index(self.entries@, i as int);
                }
                Some(&self.entries[i].chain)
            },
            None => None,
        }
    }

    /// Sets the chain for `key` and returns the one that it had.
    pub fn insert(&mut self, key: Option<usize>, chain: Vec<Transitizer>) -> (r: Option<
        Vec<Transitizer>,
    >)
        ensures
            final(self)@ == old(self)@.insert(key, chain@),
            match r {
                Some(before) => old(self)@.contains_key(key) && before@ == old(self)@[key]
                    && final(self).key_count() == old(self).key_count(),
                None => !old(self)@.contains_key(key) && final(self).key_count() == old(
                    self,
                ).key_count() + 1,
            },
    {
        proof {
            use_type_invariant(&*self);
        }
        let found = self.find(&key);
        let mut entries: Vec<TransitizerEntry> = Vec::new();
        std::mem::swap(&mut entries, &mut self.entries);
        proof {
            lemma_keys_of_chains(entries@);
        }
        let r = match found {
            Some(i) => {
                proof {
                    lemma_chains_remove(entries@, i as int);
                }
                let before = entries.remove(i);
                proof {
                    lemma_chains_push(entries@, TransitizerEntry { key, chain });
                }
                entries.push(TransitizerEntry { key, chain });
                assert(chains_of(entries@) =~= chains_of(old(self).entries@).insert(key, chain@));
                Some(before.chain)
            },
            None => {
                proof {
                    lemma_chains_push(entries@, TransitizerEntry { key, chain });
                }
                entries.push(TransitizerEntry { key, chain });
                None
            },
        };
        proof {
            lemma_keys_of_chains(entries@);
        }
        self.entries = entries;
        r
    }

    /// Appends `more` to the chain for `key`, which becomes `more` where
    /// the key had no chain.
    pub fn extend_chain(&mut self, key: Option<usize>, more: Vec<Transitizer>)
        ensures
            final(self)@ == old(self)@.insert(
                key,
                if old(self)@.contains_key(key) {
                    old(self)@[key] + more@
                } else {
                    more@
                },
            ),
            final(self).key_count() == old(self).key_count() + (if old(self)@.contains_key(key) {
                0nat
            } else {
                1nat
            }),
    {
        proof {
            use_type_invariant(&*self);
        }
        let found = self.find(&key);
        let mut entries: Vec<TransitizerEntry> = Vec::new();
        std::mem::swap(&mut entries, &mut self.entries);
        proof {
            lemma_keys_of_chains(entries@);
        }
        let mut more = more;
        match found {
            Some(i) => {
                proof {
                    lemma_chains_remove(entries@, i as int);
                }
                let mut entry = entries.remove(i);
                entry.chain.append(&mut more);
                proof {
                    lemma_chains_push(entries@, entry);
                }
                entries.push(entry);
                assert(chains_of(entries@) =~= chains_of(old(self).entries@).insert(
                    key,
                    entry.chain@,
                ));
            },
            None => {
                proof {
                    lemma_chains_push(entries@, TransitizerEntry { key, chain: more });
                }
                entries.push(TransitizerEntry { key, chain: more });
            },
        }
        proof {
            lemma_keys_of_chains(entries@);
        }
        self.entries = entries;
    }
}

} // verus!
