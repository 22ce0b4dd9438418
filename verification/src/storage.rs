//! The secret store that holds the API tokens, and the token operations
//! on top of it.
//!
//! The store maps keys to stored values; a token is a value that is a
//! string. Loading the store from its file and saving it back is the
//! caller's part.

use vstd::prelude::*;
use crate::text::opt_chars;

verus! {

/// A value held in the secret store: a string, or any other JSON value,
/// kept as its JSON text.
#[derive(Clone, Debug)]
pub enum SecretValue {
    Text(String),
    Json(String),
}

/// The mathematical value of a [`SecretValue`].
pub enum SecretValueView {
    Text(Seq<char>),
    Json(Seq<char>),
}

impl View for SecretValue {
    type V = SecretValueView;

    open spec fn view(&self) -> SecretValueView {
        match self {
            SecretValue::Text(s) => SecretValueView::Text(s@),
            SecretValue::Json(s) => SecretValueView::Json(s@),
        }
    }
}

impl SecretValue {
    /// A copy of this value.
    pub fn duplicate(&self) -> (r: SecretValue)
        ensures
            r@ == self@,
    {
        match self {
            SecretValue::Text(s) => SecretValue::Text(s.clone()),
            SecretValue::Json(s) => SecretValue::Json(s.clone()),
        }
    }
}

/// One key of the secret store with its value.
#[derive(Clone, Debug)]
pub struct SecretEntry {
    pub key: String,
    pub value: SecretValue,
}

/// The entries of a store as pairs of a key and a value.
pub open spec fn entry_views(entries: Seq<SecretEntry>) -> Seq<(Seq<char>, SecretValueView)> {
    entries.map_values(|e: SecretEntry| (e.key@, e.value@))
}

/// No key occurs twice.
pub open spec fn keys_distinct(s: Seq<(Seq<char>, SecretValueView)>) -> bool {
    forall|i: int, j: int| 0 <= i < j < s.len() ==> s[i].0 != s[j].0
}

/// The map that a sequence of entries stands for; a later entry wins.
pub open spec fn entries_map(s: Seq<(Seq<char>, SecretValueView)>) -> Map<Seq<char>, SecretValueView>
    decreases s.len(),
{
    if s.len() == 0 {
        Map::empty()
    } else {
        entries_map(s.drop_last()).insert(s.last().0, s.last().1)
    }
}

/// With distinct keys, the map holds exactly the keys of the entries, each
/// with its entry's value.
pub proof fn lemma_entries_map(s: Seq<(Seq<char>, SecretValueView)>)
    requires
        keys_distinct(s),
    ensures
        forall|k: Seq<char>|
            entries_map(s).contains_key(k) <==> exists|i: int| 0 <= i < s.len() && s[i].0 == k,
        forall|i: int| 0 <= i < s.len() ==> #[trigger] entries_map(s)[s[i].0] == s[i].1,
    decreases s.len(),
{
    if s.len() > 0 {
        let t = s.drop_last();
        assert forall|i: int, j: int| 0 <= i < j < t.len() implies t[i].0 != t[j].0 by {
            assert(t[i] == s[i] && t[j] == s[j]);
        }
        lemma_entries_map(t);
        assert forall|k: Seq<char>|
            entries_map(s).contains_key(k) implies exists|i: int| 0 <= i < s.len() && s[i].0 == k by {
            if k != s.last().0 {
                assert(entries_map(t).contains_key(k));
                assert(exists|j: int| 0 <= j < t.len() && t[j].0 == k);
                let j = choose|j: int| 0 <= j < t.len() && t[j].0 == k;
                assert(t[j] == s[j]);
                assert(s[j].0 == k);
            } else {
                assert(s[s.len() - 1].0 == k);
            }
        }
        assert forall|i: int| 0 <= i < s.len() implies #[trigger] entries_map(s)[s[i].0] == s[i].1 by {
            if i < s.len() - 1 {
                assert(t[i] == s[i]);
                assert(s[i].0 != s[s.len() - 1].0);
                assert(entries_map(t)[t[i].0] == t[i].1);
            }
        }
        assert forall|k: Seq<char>|
            (exists|i: int| 0 <= i < s.len() && s[i].0 == k) implies entries_map(s).contains_key(k) by {
            let i = choose|i: int| 0 <= i < s.len() && s[i].0 == k;
            if i < s.len() - 1 {
                assert(t[i] == s[i]);
                assert(t[i].0 == k);
                assert(entries_map(t).contains_key(k));
            }
        }
    }
}

/// The secret store: keys, each with one stored value.
pub struct SecretStore {
    entries: Vec<SecretEntry>,
}

impl View for SecretStore {
    type V = Map<Seq<char>, SecretValueView>;

    closed spec fn view(&self) -> Map<Seq<char>, SecretValueView> {
        entries_map(entry_views(self.entries@))
    }
}

impl SecretStore {
    #[verifier::type_invariant]
    spec fn keys_are_distinct(self) -> bool {
        keys_distinct(entry_views(self.entries@))
    }

    /// An empty store.
    pub fn new() -> (r: SecretStore)
        ensures
            r@ == Map::<Seq<char>, SecretValueView>::empty(),
    {
        let r = SecretStore { entries: Vec::new() };
        assert(entry_views(r.entries@) =~= Seq::empty());
        r
    }

    /// The position of `key` among the entries, if it is there.
    fn position(&self, key: &String) -> (r: Option<usize>)
        ensures
            match r {
                Some(i) => i < self.entries.len() && self.entries@[i as int].key@ == key@,
                None => forall|i: int|
                    0 <= i < self.entries.len() ==> self.entries@[i].key@ != key@,
            },
    {
        let mut i: usize = 0;
        while i < self.entries.len()
            invariant
                i <= self.entries.len(),
                forall|j: int| 0 <= j < i ==> self.entries@[j].key@ != key@,
            decreases self.entries.len() - i,
        {
            if self.entries[i].key == *key {
                return Some(i);
            }
            i = i + 1;
        }
        None
    }

    /// The value stored under `key`, if any.
    pub fn get(&self, key: &str) -> (r: Option<SecretValue>)
        ensures
            match r {
                Some(v) => self@.contains_key(key@) && self@[key@] == v@,
                None => !self@.contains_key(key@),
            },
    {
        proof {
            use_type_invariant(self);
            lemma_entries_map(entry_views(self.entries@));
        }
        let k = key.to_owned();
        match self.position(&k) {
            Some(i) => {
                assert(entry_views(self.entries@)[i as int].0 == key@);
                Some(self.entries[i].value.duplicate())
            },
            None => {
                assert forall|j: int| 0 <= j < entry_views(self.entries@).len() implies entry_views(
                    self.entries@,
                )[j].0 != key@ by {
                    assert(self.entries@[j].key@ != key@);
                }
                None
            },
        }
    }

    /// Stores `value` under `key`, replacing what was there.
    pub fn insert(&mut self, key: String, value: SecretValue)
        ensures
            final(self)@ == old(self)@.insert(key@, value@),
    {
        proof {
            use_type_invariant(&*self);
        }
        let ghost old_views = entry_views(self.entries@);
        let ghost kv = key@;
        let ghost vv = value@;
        match self.position(&key) {
            Some(i) => {
                let entry = SecretEntry { key, value };
                let mut entries: Vec<SecretEntry> = Vec::new();
                std::mem::swap(&mut entries, &mut self.entries);
                entries.set(i, entry);
                proof {
                    let new_views = entry_views(entries@);
                    assert(new_views =~= old_views.update(i as int, (kv, vv)));
                    assert(old_views[i as int].0 == kv);
                    assert forall|a: int| 0 <= a < new_views.len() implies new_views[a].0
                        == old_views[a].0 by {}
                    assert(keys_distinct(new_views));
                    lemma_entries_map(old_views);
                    lemma_entries_map(new_views);
                    assert forall|k: Seq<char>| #![auto]
                        entries_map(new_views).contains_key(k) <==> entries_map(
                            old_views,
                        ).insert(kv, vv).contains_key(k) by {
                        if entries_map(old_views).contains_key(k) {
                            let j = choose|j: int| 0 <= j < old_views.len() && old_views[j].0 == k;
                            assert(new_views[j].0 == k);
                        }
                        if entries_map(new_views).contains_key(k) {
                            let j = choose|j: int| 0 <= j < new_views.len() && new_views[j].0 == k;
                            assert(old_views[j].0 == k);
                        }
                        assert(new_views[i as int].0 == kv);
                    }
                    assert forall|k: Seq<char>|
                        entries_map(new_views).contains_key(k) implies entries_map(new_views)[k]
                        == entries_map(old_views).insert(kv, vv)[k] by {
                        let j = choose|j: int| 0 <= j < new_views.len() && new_views[j].0 == k;
                        assert(entries_map(new_views)[new_views[j].0] == new_views[j].1);
                        if j != i {
                            assert(new_views[j] == old_views[j]);
                            assert(new_views[j].0 != new_views[i as int].0);
                            assert(entries_map(old_views)[old_views[j].0] == old_views[j].1);
                        }
                    }
                    assert(entries_map(new_views) =~= entries_map(old_views).insert(kv, vv));
                }
                self.entries = entries;
            },
            None => {
                let entry = SecretEntry { key, value };
                let mut entries: Vec<SecretEntry> = Vec::new();
                std::mem::swap(&mut entries, &mut self.entries);
                entries.push(entry);
                proof {
                    let new_views = entry_views(entries@);
                    assert(new_views =~= old_views.push((kv, vv)));
                    assert(new_views.drop_last() =~= old_views);
                    assert forall|a: int, b: int| 0 <= a < b < new_views.len() implies new_views[a].0
                        != new_views[b].0 by {
                        if b == new_views.len() - 1 {
                            assert(old(self).entries@[a].key@ != kv);
                        }
                    }
                }
                self.entries = entries;
            },
        }
    }

    /// Removes `key` and its value; says whether it was there.
    pub fn remove(&mut self, key: &str) -> (r: bool)
        ensures
            r == old(self)@.contains_key(key@),
            final(self)@ == old(self)@.remove(key@),
    {
        proof {
            use_type_invariant(&*self);
        }
        let ghost old_views = entry_views(self.entries@);
        proof {
            lemma_entries_map(old_views);
        }
        let k = key.to_owned();
        match self.position(&k) {
            Some(i) => {
                let mut entries: Vec<SecretEntry> = Vec::new();
                std::mem::swap(&mut entries, &mut self.entries);
                entries.remove(i);
                proof {
                    let new_views = entry_views(entries@);
                    assert(new_views =~= old_views.remove(i as int));
                    assert(old_views[i as int].0 == key@);
                    assert forall|a: int, b: int| 0 <= a < b < new_views.len() implies new_views[a].0
                        != new_views[b].0 by {
                        let a2 = if a < i { a } else { a + 1 };
                        let b2 = if b < i { b } else { b + 1 };
                        assert(new_views[a] == old_views[a2]);
                        assert(new_views[b] == old_views[b2]);
                    }
                    lemma_entries_map(new_views);
                    assert forall|k2: Seq<char>| #![auto]
                        entries_map(new_views).contains_key(k2) <==> entries_map(
                            old_views,
                        ).remove(key@).contains_key(k2) by {
                        if entries_map(new_views).contains_key(k2) {
                            let j = choose|j: int| 0 <= j < new_views.len() && new_views[j].0 == k2;
                            let j2 = if j < i { j } else { j + 1 };
                            assert(new_views[j] == old_views[j2]);
                        }
                        if entries_map(old_views).contains_key(k2) && k2 != key@ {
                            let j = choose|j: int| 0 <= j < old_views.len() && old_views[j].0 == k2;
                            assert(j != i);
                            let j2 = if j < i { j } else { j - 1 };
                            assert(new_views[j2] == old_views[j]);
                        }
                    }
                    assert forall|k2: Seq<char>|
                        entries_map(new_views).contains_key(k2) implies entries_map(new_views)[k2]
                        == entries_map(old_views)[k2] by {
                        let j = choose|j: int| 0 <= j < new_views.len() && new_views[j].0 == k2;
                        let j2 = if j < i { j } else { j + 1 };
                        assert(new_views[j] == old_views[j2]);
                        assert(entries_map(new_views)[new_views[j].0] == new_views[j].1);
                        assert(entries_map(old_views)[old_views[j2].0] == old_views[j2].1);
                    }
                    assert(entries_map(new_views) =~= entries_map(old_views).remove(key@));
                }
                self.entries = entries;
                true
            },
            None => {
                assert forall|j: int| 0 <= j < old_views.len() implies old_views[j].0 != key@ by {
                    assert(self.entries@[j].key@ != key@);
                }
                assert(entries_map(old_views) =~= entries_map(old_views).remove(key@));
                false
            },
        }
    }

    /// The entries of the store, each key once.
    pub fn entries(&self) -> (r: &Vec<SecretEntry>)
        ensures
            entries_map(entry_views(r@)) == self@,
            keys_distinct(entry_views(r@)),
    {
        proof {
            use_type_invariant(self);
        }
        &self.entries
    }
}


/// The token stored under `key`: the stored value where it is a string.
pub open spec fn token_in(m: Map<Seq<char>, SecretValueView>, key: Seq<char>) -> Option<Seq<char>> {
    if m.contains_key(key) {
        match m[key] {
            SecretValueView::Text(t) => Some(t),
            SecretValueView::Json(_) => None,
        }
    } else {
        None
    }
}

/// The token storage: the secret store once it has been loaded.
pub struct Storage {
    secrets: Option<SecretStore>,
}

impl View for Storage {
    type V = Option<Map<Seq<char>, SecretValueView>>;

    closed spec fn view(&self) -> Option<Map<Seq<char>, SecretValueView>> {
        match self.secrets {
            Some(s) => Some(s@),
            None => None,
        }
    }
}

impl Storage {
    /// Storage that has not been initialized yet.
    pub fn new() -> (r: Storage)
        ensures
            r@ is None,
    {
        Storage { secrets: None }
    }

    /// The loaded secret store, if storage has been initialized.
    pub fn secrets(&self) -> (r: Option<&SecretStore>)
        ensures
            match r {
                Some(s) => self@ == Some(s@),
                None => self@ is None,
            },
    {
        match &self.secrets {
            Some(s) => Some(s),
            None => None,
        }
    }
}

/// Initializes the storage with the loaded secret store; storage can be
/// initialized once.
pub fn init(storage: &mut Storage, secrets: SecretStore) -> (r: Result<(), String>)
    ensures
        match old(storage)@ {
            None => r is Ok && final(storage)@ == Some(secrets@),
            Some(_) => r matches Err(e) && e@ == "Storage already initialized"@
                && final(storage)@ == old(storage)@,
        },
{
    if storage.secrets.is_some() {
        return Err("Storage already initialized".to_owned());
    }
    storage.secrets = Some(secrets);
    Ok(())
}

/// The token stored under `key`, if there is one and it is a string.
pub fn get_token(storage: &Storage, key: &str) -> (r: Result<Option<String>, String>)
    ensures
        match storage@ {
            None => r matches Err(e) && e@ == "Storage not initialized"@,
            Some(m) => r matches Ok(t) && opt_chars(t) == token_in(m, key@),
        },
{
    match &storage.secrets {
        None => Err("Storage not initialized".to_owned()),
        Some(s) => match s.get(key) {
            Some(SecretValue::Text(t)) => Ok(Some(t)),
            _ => Ok(None),
        },
    }
}

/// Stores `token` under `key`.
pub fn set_token(storage: &mut Storage, key: &str, token: &str) -> (r: Result<(), String>)
    ensures
        match old(storage)@ {
            None => r matches Err(e) && e@ == "Storage not initialized"@
                && final(storage)@ == old(storage)@,
            Some(m) => r is Ok && final(storage)@ == Some(
                m.insert(key@, SecretValueView::Text(token@)),
            ),
        },
{
    match storage.secrets.as_mut() {
        None => Err("Storage not initialized".to_owned()),
        Some(s) => {
            s.insert(key.to_owned(), SecretValue::Text(token.to_owned()));
            Ok(())
        },
    }
}

/// Removes whatever is stored under `key`.
pub fn delete_token(storage: &mut Storage, key: &str) -> (r: Result<(), String>)
    ensures
        match old(storage)@ {
            None => r matches Err(e) && e@ == "Storage not initialized"@
                && final(storage)@ == old(storage)@,
            Some(m) => r is Ok && final(storage)@ == Some(m.remove(key@)),
        },
{
    match storage.secrets.as_mut() {
        None => Err("Storage not initialized".to_owned()),
        Some(s) => {
            s.remove(key);
            Ok(())
        },
    }
}

/// Whether a token is stored under `key`.
pub fn has_token(storage: &Storage, key: &str) -> (r: Result<bool, String>)
    ensures
        match storage@ {
            None => r matches Err(e) && e@ == "Storage not initialized"@,
            Some(m) => r == Ok::<bool, String>(token_in(m, key@) is Some),
        },
{
    match get_token(storage, key) {
        Ok(t) => Ok(t.is_some()),
        Err(e) => Err(e),
    }
}

/// A token read back after it was stored is the token that was stored.
pub proof fn lemma_token_read_after_set(m: Map<Seq<char>, SecretValueView>, key: Seq<char>, token: Seq<char>)
    ensures
        token_in(m.insert(key, SecretValueView::Text(token)), key) == Some(token),
{
}

/// No token is read back under a key after it was deleted.
pub proof fn lemma_token_read_after_delete(m: Map<Seq<char>, SecretValueView>, key: Seq<char>)
    ensures
        token_in(m.remove(key), key) is None,
{
}

/// Storing or deleting under one key leaves the token under every other
/// key as it was.
pub proof fn lemma_other_tokens_unchanged(
    m: Map<Seq<char>, SecretValueView>,
    key: Seq<char>,
    other: Seq<char>,
    value: SecretValueView,
)
    requires
        key != other,
    ensures
        token_in(m.insert(key, value), other) == token_in(m, other),
        token_in(m.remove(key), other) == token_in(m, other),
{
}

} // verus!
