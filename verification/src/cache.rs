//! Replies of the language model, remembered by the mode of the query and the
//! text of the prompt. Nothing is ever evicted.
//!
//! The replies of one mode can be written out as a JSON object from prompt
//! to reply, and read back from one.

use crate::text::same_text;
use std::collections::BTreeMap;
use vstd::prelude::*;

verus! {

/// One remembered reply.
#[derive(Clone, Debug, PartialEq, Eq)]
pub struct CacheEntry {
    /// What kind of query the prompt was sent as.
    pub mode: String,
    /// The prompt, as the user typed it.
    pub prompt: String,
    /// The reply that is handed out for it.
    pub response: String,
}

impl CacheEntry {
    /// The mode and the prompt under which the entry is found.
    pub open spec fn key(&self) -> (Seq<char>, Seq<char>) {
        (self.mode@, self.prompt@)
    }
}

/// No two of `entries` have the same mode and prompt.
pub open spec fn keys_distinct(entries: Seq<CacheEntry>) -> bool {
    forall|i: int, j: int|
        0 <= i < j < entries.len() ==> (#[trigger] entries[i]).key() != (
        #[trigger] entries[j]).key()
}

/// Some entry of `entries` stands under `key`.
pub open spec fn has_key(entries: Seq<CacheEntry>, key: (Seq<char>, Seq<char>)) -> bool {
    exists|i: int| 0 <= i < entries.len() && (#[trigger] entries[i]).key() == key
}

/// Where an entry under `key` stands in `entries`.
pub open spec fn index_of_key(entries: Seq<CacheEntry>, key: (Seq<char>, Seq<char>)) -> int {
    choose|i: int| 0 <= i < entries.len() && (#[trigger] entries[i]).key() == key
}

/// The map from mode and prompt to reply that `entries` hold.
pub open spec fn entries_map(entries: Seq<CacheEntry>) -> Map<(Seq<char>, Seq<char>), Seq<char>> {
    Map::new(
        |key: (Seq<char>, Seq<char>)| has_key(entries, key),
        |key: (Seq<char>, Seq<char>)| entries[index_of_key(entries, key)].response@,
    )
}

/// With distinct keys, the entry at `at` is the one its key leads to.
proof fn lemma_entry_found(entries: Seq<CacheEntry>, at: int)
    requires
        keys_distinct(entries),
        0 <= at < entries.len(),
    ensures
        has_key(entries, entries[at].key()),
        index_of_key(entries, entries[at].key()) == at,
        entries_map(entries)[entries[at].key()] == entries[at].response@,
{
    let chosen = index_of_key(entries, entries[at].key());
    assert(chosen == at);
}

/// An entry put in the place of one with its key changes the reply under
/// that key and nothing else.
proof fn lemma_replaced(before: Seq<CacheEntry>, at: int, entry: CacheEntry)
    requires
        keys_distinct(before),
        0 <= at < before.len(),
        before[at].key() == entry.key(),
    ensures
        keys_distinct(before.update(at, entry)),
        entries_map(before.update(at, entry)) == entries_map(before).insert(
            entry.key(),
            entry.response@,
        ),
{
    let after = before.update(at, entry);
    let expected = entries_map(before).insert(entry.key(), entry.response@);
    assert forall|i: int| 0 <= i < after.len() implies (#[trigger] after[i]).key()
        == before[i].key() by {}
    assert forall|key: (Seq<char>, Seq<char>)|
        has_key(after, key) <==> #[trigger] expected.dom().contains(key) by {
        if has_key(after, key) {
            assert(before[index_of_key(after, key)].key() == key);
        }
        if has_key(before, key) {
            assert(after[index_of_key(before, key)].key() == key);
        }
        if key == entry.key() {
            assert(after[at].key() == key);
        }
    }
    assert forall|key: (Seq<char>, Seq<char>)| has_key(after, key) implies #[trigger] entries_map(
        after,
    )[key] == expected[key] by {
        let i = index_of_key(after, key);
        lemma_entry_found(after, i);
        lemma_entry_found(before, i);
    }
    assert(entries_map(after) =~= expected);
}

/// An entry added under a key that no entry has adds the reply under that
/// key and changes nothing else.
proof fn lemma_added(before: Seq<CacheEntry>, entry: CacheEntry)
    requires
        keys_distinct(before),
        !has_key(before, entry.key()),
    ensures
        keys_distinct(before.push(entry)),
        entries_map(before.push(entry)) == entries_map(before).insert(
            entry.key(),
            entry.response@,
        ),
{
    let after = before.push(entry);
    let last = before.len() as int;
    let expected = entries_map(before).insert(entry.key(), entry.response@);
    assert forall|i: int| 0 <= i < before.len() implies (#[trigger] after[i]) == before[i] by {}
    assert forall|i: int, j: int| 0 <= i < j < after.len() implies (#[trigger] after[i]).key() != (
    #[trigger] after[j]).key() by {
        if j == last {
            assert(before[i].key() != entry.key());
        } else {
            assert(before[i].key() != before[j].key());
        }
    }
    assert forall|key: (Seq<char>, Seq<char>)|
        has_key(after, key) <==> #[trigger] expected.dom().contains(key) by {
        if has_key(after, key) {
            let i = index_of_key(after, key);
            if i < last {
                assert(before[i].key() == key);
            }
        }
        if has_key(before, key) {
            assert(after[index_of_key(before, key)].key() == key);
        }
        if key == entry.key() {
            assert(after[last].key() == key);
        }
    }
    assert forall|key: (Seq<char>, Seq<char>)| has_key(after, key) implies #[trigger] entries_map(
        after,
    )[key] == expected[key] by {
        let i = index_of_key(after, key);
        lemma_entry_found(after, i);
        if i < last {
            lemma_entry_found(before, i);
        }
    }
    assert(entries_map(after) =~= expected);
}

/// An entry taken out takes the reply under its key with it and changes
/// nothing else.
proof fn lemma_removed(before: Seq<CacheEntry>, at: int)
    requires
        keys_distinct(before),
        0 <= at < before.len(),
    ensures
        keys_distinct(before.remove(at)),
        entries_map(before.remove(at)) == entries_map(before).remove(before[at].key()),
{
    let after = before.remove(at);
    let expected = entries_map(before).remove(before[at].key());
    let origin = |i: int|
        if i < at {
            i
        } else {
            i + 1
        };
    assert forall|i: int| 0 <= i < after.len() implies (#[trigger] after[i]) == before[origin(
        i,
    )] by {}
    assert forall|i: int, j: int| 0 <= i < j < after.len() implies (#[trigger] after[i]).key() != (
    #[trigger] after[j]).key() by {
        assert(before[origin(i)].key() != before[origin(j)].key());
    }
    assert forall|key: (Seq<char>, Seq<char>)|
        has_key(after, key) <==> #[trigger] expected.dom().contains(key) by {
        if has_key(after, key) {
            let i = origin(index_of_key(after, key));
            assert(before[i].key() == key);
            if i < at {
                assert(before[i].key() != before[at].key());
            } else {
                assert(before[at].key() != before[i].key());
            }
        }
        if has_key(before, key) && key != before[at].key() {
            let i = index_of_key(before, key);
            assert(after[if i < at {
                i
            } else {
                i - 1
            }].key() == key);
        }
    }
    assert forall|key: (Seq<char>, Seq<char>)| has_key(after, key) implies #[trigger] entries_map(
        after,
    )[key] == expected[key] by {
        let i = index_of_key(after, key);
        lemma_entry_found(after, i);
        lemma_entry_found(before, origin(i));
    }
    assert(entries_map(after) =~= expected);
}

/// A memo of replies, keyed by mode and prompt.
#[derive(Debug)]
pub struct ResponseCache {
    entries: Vec<CacheEntry>,
}

impl View for ResponseCache {
    type V = Map<(Seq<char>, Seq<char>), Seq<char>>;

    closed spec fn view(&self) -> Map<(Seq<char>, Seq<char>), Seq<char>> {
        entries_map(self.entries@)
    }
}

/// A text and a text, as their views.
pub open spec fn pair_view(pair: (String, String)) -> (Seq<char>, Seq<char>) {
    (pair.0@, pair.1@)
}

/// The views of `pairs`, in order.
pub open spec fn pair_views(pairs: Seq<(String, String)>) -> Seq<(Seq<char>, Seq<char>)> {
    pairs.map_values(|pair: (String, String)| pair_view(pair))
}

/// No two of `pairs` begin with the same text.
pub open spec fn firsts_distinct(pairs: Seq<(Seq<char>, Seq<char>)>) -> bool {
    forall|i: int, j: int| 0 <= i < j < pairs.len() ==> (#[trigger] pairs[i]).0 != (
    #[trigger] pairs[j]).0
}

/// A JSON text that could not be read as a cache, or a cache that could not
/// be written as one, with what serde_json said of it.
#[derive(Debug)]
pub enum CacheFileError {
    Unreadable(serde_json::Error),
    Unwritable(serde_json::Error),
}

#[verifier::external_type_specification]
#[verifier::external_body]
pub struct ExJsonError(serde_json::Error);

// What `serde_json::from_str` reads out of `content` as a map from text to
// text: its entries in the order of their keys, or `None` for an error.
pub uninterp spec fn json_string_map(content: Seq<char>) -> Option<Seq<(Seq<char>, Seq<char>)>>;

// What `serde_json::to_string_pretty` writes for the map from text to text
// that holds `entries`, or `None` for an error.
pub uninterp spec fn json_text(entries: Seq<(Seq<char>, Seq<char>)>) -> Option<Seq<char>>;

/// `serde_json::from_str` at the type `BTreeMap<String, String>`: the
/// entries of the JSON object that `content` writes, keys and values both
/// texts, in the order of their keys. The grammar of JSON is not restated
/// here; the result is a function of `content` alone, named
/// `json_string_map`.
#[verifier::external_body]
pub(crate) fn read_string_map(content: &str) -> (read: Result<
    Vec<(String, String)>,
    serde_json::Error,
>)
    ensures
        match read {
            Ok(pairs) => json_string_map(content@) == Some(pair_views(pairs@)),
            Err(_) => json_string_map(content@) is None,
        },
{
    let map: BTreeMap<String, String> = serde_json::from_str(content)?;
    Ok(map.into_iter().collect())
}

/// `serde_json::to_string_pretty` of the `BTreeMap<String, String>` that
/// holds `entries`: a JSON object, indented, with the entries in the order
/// of their keys. The layout is not restated here; the result is a function
/// of `entries` alone, named `json_text`.
#[verifier::external_body]
pub(crate) fn write_string_map(entries: Vec<(String, String)>) -> (written: Result<
    String,
    serde_json::Error,
>)
    requires
        firsts_distinct(pair_views(entries@)),
    ensures
        match written {
            Ok(text) => json_text(pair_views(entries@)) == Some(text@),
            Err(_) => json_text(pair_views(entries@)) is None,
        },
{
    let map: BTreeMap<String, String> = entries.into_iter().collect();
    serde_json::to_string_pretty(&map)
}

/// The cache that remembers, under `mode`, each reply of `pairs` for its
/// prompt, a later pair in place of an earlier one for the same prompt.
pub open spec fn remembered(mode: Seq<char>, pairs: Seq<(Seq<char>, Seq<char>)>) -> Map<
    (Seq<char>, Seq<char>),
    Seq<char>,
>
    decreases pairs.len(),
{
    if pairs.len() == 0 {
        Map::empty()
    } else {
        remembered(mode, pairs.drop_last()).insert((mode, pairs.last().0), pairs.last().1)
    }
}

/// The prompts and replies that `entries` hold under `mode`, in their order.
pub open spec fn pairs_of_mode(mode: Seq<char>, entries: Seq<CacheEntry>) -> Seq<
    (Seq<char>, Seq<char>),
>
    decreases entries.len(),
{
    if entries.len() == 0 {
        Seq::empty()
    } else if entries.last().mode@ == mode {
        pairs_of_mode(mode, entries.drop_last()).push(
            (entries.last().prompt@, entries.last().response@),
        )
    } else {
        pairs_of_mode(mode, entries.drop_last())
    }
}

impl ResponseCache {
    #[verifier::type_invariant]
    spec fn no_key_twice(self) -> bool {
        keys_distinct(self.entries@)
    }

    /// The entries, in the order in which their keys were first remembered.
    pub closed spec fn listed(&self) -> Seq<CacheEntry> {
        self.entries@
    }


    /// An empty memo: it remembers no reply and lists no entry.
    pub fn new() -> (cache: ResponseCache)
        ensures
            cache@ == Map::<(Seq<char>, Seq<char>), Seq<char>>::empty(),
            cache.listed() == Seq::<CacheEntry>::empty(),
    {
        let cache = ResponseCache { entries: Vec::new() };
        assert(cache@ =~= Map::<(Seq<char>, Seq<char>), Seq<char>>::empty());
        cache
    }

    /// Where the entry for `mode` and `prompt` stands, if there is one.
    fn position(&self, mode: &str, prompt: &str) -> (found: Option<usize>)
        ensures
            match found {
                Some(at) => at < self.entries@.len() && self.entries@[at as int].key() == (
                    mode@,
                    prompt@,
                ),
                None => !has_key(self.entries@, (mode@, prompt@)),
            },
    {
        let mut at: usize = 0;
        while at < self.entries.len()
            invariant
                at <= self.entries@.len(),
                forall|i: int|
                    0 <= i < at ==> (#[trigger] self.entries@[i]).key() != (mode@, prompt@),
            decreases self.entries@.len() - at,
        {
            let entry = &self.entries[at];
            if same_text(entry.mode.as_str(), mode) && same_text(entry.prompt.as_str(), prompt) {
                return Some(at);
            }
            at += 1;
        }
        None
    }

    /// The reply remembered for `prompt` asked in `mode`.
    pub fn get(&self, mode: &str, prompt: &str) -> (reply: Option<String>)
        ensures
            match reply {
                Some(text) => self@.contains_key((mode@, prompt@)) && self@[(mode@, prompt@)]
                    == text@,
                None => !self@.contains_key((mode@, prompt@)),
            },
    {
        match self.position(mode, prompt) {
            Some(at) => {
                proof {
                    use_type_invariant(self);
                    lemma_entry_found(self.entries@, at as int);
                }
                Some(self.entries[at].response.clone())
            },
            None => None,
        }
    }

    /// Remembers `response` for `prompt` asked in `mode`, in place of what
    /// was remembered for them before. Every other entry stays.
    pub fn put(&mut self, mode: &str, prompt: &str, response: String)
        ensures
            final(self)@ == old(self)@.insert((mode@, prompt@), response@),
    {
        proof {
            use_type_invariant(&*self);
        }
        let entry = CacheEntry { mode: mode.to_owned(), prompt: prompt.to_owned(), response };
        let found = self.position(mode, prompt);
        let mut entries: Vec<CacheEntry> = Vec::new();
        std::mem::swap(&mut entries, &mut self.entries);
        match found {
            Some(at) => {
                proof {
                    lemma_replaced(entries@, at as int, entry);
                }
                entries[at] = entry;
            },
            None => {
                proof {
                    lemma_added(entries@, entry);
                }
                entries.push(entry);
            },
        }
        self.entries = entries;
    }

    /// Forgets what is remembered for `prompt` asked in `mode`, and hands it
    /// out. Every other entry stays.
    pub fn remove(&mut self, mode: &str, prompt: &str) -> (removed: Option<String>)
        ensures
            final(self)@ == old(self)@.remove((mode@, prompt@)),
            match removed {
                Some(text) => old(self)@.contains_key((mode@, prompt@)) && old(self)@[(
                    mode@,
                    prompt@,
                )] == text@,
                None => !old(self)@.contains_key((mode@, prompt@)),
            },
    {
        proof {
            use_type_invariant(&*self);
        }
        match self.position(mode, prompt) {
            Some(at) => {
                let mut entries: Vec<CacheEntry> = Vec::new();
                std::mem::swap(&mut entries, &mut self.entries);
                proof {
                    lemma_entry_found(entries@, at as int);
                    lemma_removed(entries@, at as int);
                }
                let entry = entries.remove(at);
                self.entries = entries;
                Some(entry.response)
            },
            None => {
                assert(self@ =~= self@.remove((mode@, prompt@)));
                None
            },
        }
    }

    /// Everything that is remembered, one entry for each mode and prompt.
    pub fn entries(&self) -> (all: &Vec<CacheEntry>)
        ensures
            all@ == self.listed(),
            keys_distinct(all@),
            entries_map(all@) == self@,
    {
        proof {
            use_type_invariant(self);
        }
        &self.entries
    }

    /// Reads a cache out of the text of a cache file: a JSON object from
    /// prompt to reply, all of them remembered under `mode`. A text that is
    /// no such object is refused.
    pub fn from_json(content: &str, mode: &str) -> (read: Result<ResponseCache, CacheFileError>)
        ensures
            match read {
                Ok(cache) => json_string_map(content@) is Some && cache@ == remembered(
                    mode@,
                    json_string_map(content@)->0,
                ),
                Err(error) => json_string_map(content@) is None && error is Unreadable,
            },
    {
        let pairs = match read_string_map(content) {
            Ok(pairs) => pairs,
            Err(error) => {
                return Err(CacheFileError::Unreadable(error));
            },
        };
        let ghost all = pair_views(pairs@);
        let mut cache = ResponseCache::new();
        let mut i: usize = 0;
        while i < pairs.len()
            invariant
                i <= pairs@.len(),
                all == pair_views(pairs@),
                cache@ == remembered(mode@, all.take(i as int)),
            decreases pairs@.len() - i,
        {
            let pair = &pairs[i];
            cache.put(mode, pair.0.as_str(), pair.1.clone());
            proof {
                assert(all[i as int] == pair_view(*pair));
                assert(all.take(i + 1).drop_last() =~= all.take(i as int));
            }
            i += 1;
        }
        assert(all.take(i as int) =~= all);
        Ok(cache)
    }

    /// Writes what is remembered under `mode` as the text of a cache file: a
    /// JSON object from prompt to reply.
    pub fn to_json(&self, mode: &str) -> (written: Result<String, CacheFileError>)
        ensures
            match written {
                Ok(text) => json_text(pairs_of_mode(mode@, self.listed())) == Some(text@),
                Err(error) => json_text(pairs_of_mode(mode@, self.listed())) is None
                    && error is Unwritable,
            },
    {
        proof {
            use_type_invariant(self);
        }
        let mut pairs: Vec<(String, String)> = Vec::new();
        let mut i: usize = 0;
        while i < self.entries.len()
            invariant
                i <= self.entries@.len(),
                keys_distinct(self.entries@),
                pair_views(pairs@) == pairs_of_mode(mode@, self.entries@.take(i as int)),
                firsts_distinct(pair_views(pairs@)),
                forall|k: int|
                    0 <= k < pairs@.len() ==> exists|e: int|
                        0 <= e < i && (#[trigger] self.entries@[e]).key() == (
                            mode@,
                            (#[trigger] pair_views(pairs@)[k]).0,
                        ),
            decreases self.entries@.len() - i,
        {
            let entry = &self.entries[i];
            let ghost before = pair_views(pairs@);
            proof {
                assert(self.entries@.take(i + 1).drop_last() =~= self.entries@.take(i as int));
            }
            if same_text(entry.mode.as_str(), mode) {
                pairs.push((entry.prompt.clone(), entry.response.clone()));
                proof {
                    let after = pair_views(pairs@);
                    let added = (entry.prompt@, entry.response@);
                    assert(after =~= before.push(added));
                    assert forall|a: int, b: int| 0 <= a < b < after.len() implies (
                    #[trigger] after[a]).0 != (#[trigger] after[b]).0 by {
                        if b == before.len() {
                            let e = choose|e: int|
                                0 <= e < i && (#[trigger] self.entries@[e]).key() == (
                                    mode@,
                                    before[a].0,
                                );
                            assert(self.entries@[e].key() != self.entries@[i as int].key());
                        } else {
                            assert(before[a].0 != before[b].0);
                        }
                    }
                    assert forall|k: int| 0 <= k < after.len() implies exists|e: int|
                        0 <= e < i + 1 && (#[trigger] self.entries@[e]).key() == (
                            mode@,
                            (#[trigger] after[k]).0,
                        ) by {
                        if k == before.len() {
                            assert(self.entries@[i as int].key() == (mode@, after[k].0));
                        } else {
                            let e = choose|e: int|
                                0 <= e < i && (#[trigger] self.entries@[e]).key() == (
                                    mode@,
                                    before[k].0,
                                );
                            assert(self.entries@[e].key() == (mode@, after[k].0));
                        }
                    }
                }
            }
            i += 1;
        }
        assert(self.entries@.take(i as int) =~= self.entries@);
        match write_string_map(pairs) {
            Ok(text) => Ok(text),
            Err(error) => Err(CacheFileError::Unwritable(error)),
        }
    }
}

} // verus!
