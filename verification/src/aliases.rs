//! User-chosen display names for input devices, kept as a JSON object that
//! maps device keys to aliases.

use vstd::prelude::*;

use crate::keyed::{
    has_key, keys_unique, lemma_pairs_map_push, lemma_pairs_map_remove, lemma_pairs_map_value,
    lemma_same_map, lemma_unique_len, pairs_map,
};
use crate::text::{trim_whitespace, trimmed};

verus! {

#[verifier::external_type_specification]
#[verifier::external_body]
pub struct ExJsonError(serde_json::Error);

/// What `serde_json` reads from `text` when it parses it as a JSON object of
/// string values: `None` when the text is not such an object.
pub uninterp spec fn json_string_map(text: Seq<char>) -> Option<Map<Seq<char>, Seq<char>>>;

fn find_key(v: &Vec<(String, String)>, key: &String) -> (res: Option<usize>)
    ensures
        match res {
            Some(i) => i < v.len() && v@[i as int].0@ == key@,
            None => !has_key(v@, key@),
        },
{
    let mut i: usize = 0;
    while i < v.len()
        invariant
            i <= v.len(),
            forall|j: int| 0 <= j < i ==> (#[trigger] v@[j]).0@ != key@,
        decreases v.len() - i,
    {
        if v[i].0 == *key {
            return Some(i);
        }
        i = i + 1;
    }
    None
}

/// Parses a device alias file: a JSON object whose values are strings.
///
/// Wraps `serde_json::from_str` into a `HashMap<String, String>`; the
/// contract says that it succeeds exactly when the text is such an object
/// and that the pairs it hands back, one per key, are the object's members.
#[verifier::external_body]
fn json_to_pairs(contents: &str) -> (res: Result<Vec<(String, String)>, serde_json::Error>)
    ensures
        res is Ok <==> json_string_map(contents@) is Some,
        res matches Ok(v) ==> keys_unique(v@) && pairs_map(v@) == json_string_map(
            contents@,
        ).unwrap(),
{
    serde_json::from_str::<std::collections::HashMap<String, String>>(contents).map(
        |m| m.into_iter().collect(),
    )
}

/// Writes key/value pairs as a pretty-printed JSON object.
///
/// Wraps `serde_json::to_string_pretty` on a `HashMap<String, String>`.
/// Its documentation names only two causes of failure, a failing `Serialize`
/// impl and a map with non-string keys, and neither applies, so the call
/// succeeds; the claim on the text is that `serde_json` reads the same
/// members back from it. The order of the members in the text follows the
/// hash map's iteration order and is not stated.
#[verifier::external_body]
fn pairs_to_json(pairs: &Vec<(String, String)>) -> (res: Result<String, serde_json::Error>)
    requires
        keys_unique(pairs@),
    ensures
        res is Ok,
        res matches Ok(text) ==> json_string_map(text@) == Some(pairs_map(pairs@)),
{
    let map: std::collections::HashMap<String, String> = pairs.iter().cloned().collect();
    serde_json::to_string_pretty(&map)
}

/// The aliases after renaming `key` to `alias`: the alias is stored without
/// surrounding whitespace, and an alias that is empty after trimming removes
/// the key's alias.
pub open spec fn renamed(m: Map<Seq<char>, Seq<char>>, key: Seq<char>, alias: Seq<char>) -> Map<
    Seq<char>,
    Seq<char>,
> {
    if trimmed(alias).len() == 0 {
        m.remove(key)
    } else {
        m.insert(key, trimmed(alias))
    }
}

/// The alias text is not a JSON object of strings.
#[derive(Debug, Clone, Copy, PartialEq, Eq)]
pub struct MalformedAliases;

/// The device aliases, keyed by the device key.
#[derive(Debug)]
pub struct AliasStore {
    aliases: Vec<(String, String)>,
}

impl View for AliasStore {
    type V = Map<Seq<char>, Seq<char>>;

    closed spec fn view(&self) -> Map<Seq<char>, Seq<char>> {
        pairs_map(self.aliases@)
    }
}

impl AliasStore {
    #[verifier::type_invariant]
    spec fn keys_are_unique(self) -> bool {
        keys_unique(self.aliases@)
    }

    /// A store without aliases.
    pub fn new() -> (res: Self)
        ensures
            res@ == Map::<Seq<char>, Seq<char>>::empty(),
    {
        let res = AliasStore { aliases: Vec::new() };
        assert(pairs_map(res.aliases@) =~= Map::<Seq<char>, Seq<char>>::empty());
        res
    }

    /// The store that an alias file holds: `contents` is the file's text,
    /// `None` when it could not be read; unreadable or malformed files give
    /// an empty store.
    pub fn load(contents: Option<&str>) -> (res: Self)
        ensures
            res@ == match contents {
                Some(text) => match json_string_map(text@) {
                    Some(m) => m,
                    None => Map::empty(),
                },
                None => Map::empty(),
            },
    {
        match contents {
            Some(text) => match parse(text) {
                Ok(store) => store,
                Err(_) => AliasStore::new(),
            },
            None => AliasStore::new(),
        }
    }

    /// The alias of a device, if it has one.
    pub fn get(&self, device_key: &str) -> (res: Option<&str>)
        ensures
            res is Some <==> self@.dom().contains(device_key@),
            res matches Some(alias) ==> alias@ == self@[device_key@],
    {
        proof {
            use_type_invariant(self);
        }
        let key = device_key.to_owned();
        match find_key(&self.aliases, &key) {
            Some(i) => {
                proof {
                    lemma_pairs_map_value(self.aliases@, i as int);
                }
                Some(self.aliases[i].1.as_str())
            },
            None => None,
        }
    }

    fn set_entry(&mut self, key: String, value: Option<String>)
        ensures
            final(self)@ == match value {
                Some(v) => old(self)@.insert(key@, v@),
                None => old(self)@.remove(key@),
            },
    {
        proof {
            use_type_invariant(&*self);
        }
        let mut pairs: Vec<(String, String)> = Vec::new();
        std::mem::swap(&mut pairs, &mut self.aliases);
        let ghost before = pairs@;
        match find_key(&pairs, &key) {
            Some(i) => {
                proof {
                    lemma_pairs_map_remove(pairs@, i as int);
                }
                pairs.remove(i);
            },
            None => {
                assert(pairs_map(pairs@) =~= pairs_map(before).remove(key@));
            },
        }
        assert(!has_key(pairs@, key@)) by {
            if has_key(pairs@, key@) {
                assert(pairs_map(pairs@).dom().contains(key@));
            }
        }
        match value {
            Some(v) => {
                proof {
                    lemma_pairs_map_push(pairs@, (key, v));
                    assert(pairs_map(before).remove(key@).insert(key@, v@) =~= pairs_map(
                        before,
                    ).insert(key@, v@));
                }
                pairs.push((key, v));
            },
            None => {},
        }
        self.aliases = pairs;
    }

    /// Sets the alias of a device to `alias` without surrounding whitespace;
    /// an alias that is empty after trimming removes the device's alias.
    pub fn rename(&mut self, device_key: &str, alias: &str)
        ensures
            final(self)@ == renamed(old(self)@, device_key@, alias@),
    {
        let alias = trim_whitespace(alias);
        let key = device_key.to_owned();
        if alias.as_str().is_empty() {
            self.set_entry(key, None);
        } else {
            self.set_entry(key, Some(alias));
        }
    }

    /// Puts a device's alias back exactly as it was: `Some` stores that
    /// alias as it is, `None` removes the device's alias.
    pub fn restore(&mut self, device_key: &str, alias: Option<&str>)
        ensures
            final(self)@ == match alias {
                Some(a) => old(self)@.insert(device_key@, a@),
                None => old(self)@.remove(device_key@),
            },
    {
        let key = device_key.to_owned();
        match alias {
            Some(a) => self.set_entry(key, Some(a.to_owned())),
            None => self.set_entry(key, None),
        }
    }

    /// The store holds the same aliases as `other`.
    pub fn same_aliases(&self, other: &AliasStore) -> (res: bool)
        ensures
            res == (self@ == other@),
    {
        proof {
            use_type_invariant(self);
            use_type_invariant(other);
        }
        if self.aliases.len() != other.aliases.len() {
            proof {
                lemma_unique_len(self.aliases@);
                lemma_unique_len(other.aliases@);
            }
            return false;
        }
        let mut i: usize = 0;
        while i < self.aliases.len()
            invariant
                keys_unique(self.aliases@),
                keys_unique(other.aliases@),
                self.aliases.len() == other.aliases.len(),
                i <= self.aliases.len(),
                forall|j: int|
                    #![trigger self.aliases@[j]]
                    0 <= j < i ==> pairs_map(other.aliases@).dom().contains(self.aliases@[j].0@)
                        && pairs_map(other.aliases@)[self.aliases@[j].0@] == self.aliases@[j].1@,
            decreases self.aliases.len() - i,
        {
            proof {
                lemma_pairs_map_value(self.aliases@, i as int);
            }
            match find_key(&other.aliases, &self.aliases[i].0) {
                Some(j) => {
                    proof {
                        lemma_pairs_map_value(other.aliases@, j as int);
                    }
                    if !(other.aliases[j].1 == self.aliases[i].1) {
                        return false;
                    }
                    assert(pairs_map(other.aliases@).dom().contains(self.aliases@[i as int].0@));
                    assert(pairs_map(other.aliases@)[self.aliases@[i as int].0@]
                        == self.aliases@[i as int].1@);

                },
                None => {
                    assert(!pairs_map(other.aliases@).dom().contains(self.aliases@[i as int].0@));
                    return false;
                },
            }
            i = i + 1;
        }
        proof {
            lemma_same_map(self.aliases@, other.aliases@);
        }
        true
    }
}

/// Reads the aliases from the text of an alias file.
pub fn parse(contents: &str) -> (res: Result<AliasStore, MalformedAliases>)
    ensures
        res is Ok <==> json_string_map(contents@) is Some,
        res matches Ok(store) ==> store@ == json_string_map(contents@).unwrap(),
{
    match json_to_pairs(contents) {
        Ok(pairs) => Ok(AliasStore { aliases: pairs }),
        Err(_) => Err(MalformedAliases),
    }
}

/// The text of an alias file that holds the store's aliases.
pub fn serialize(store: &AliasStore) -> (res: String)
    ensures
        json_string_map(res@) == Some(store@),
{
    proof {
        use_type_invariant(store);
    }
    match pairs_to_json(&store.aliases) {
        Ok(text) => text,
        Err(_) => String::new(),
    }
}

} // verus!
