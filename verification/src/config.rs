//! The configuration center: values in sections, one section per module id
//! (the module's `[id]` table of the configuration file).

use vstd::prelude::*;

use crate::strings::str_eq;

verus! {

/// A configuration value, as far as the framework reads values: strings,
/// integers and booleans; every other kind of value is `Other`.
#[derive(Debug, PartialEq, Eq)]
pub enum ConfigValue {
    String(String),
    Integer(i64),
    Boolean(bool),
    Other,
}

/// The plain data of a [`ConfigValue`].
pub enum ConfigValueView {
    String(Seq<char>),
    Integer(i64),
    Boolean(bool),
    Other,
}

impl View for ConfigValue {
    type V = ConfigValueView;

    open spec fn view(&self) -> ConfigValueView {
        match self {
            ConfigValue::String(s) => ConfigValueView::String(s@),
            ConfigValue::Integer(i) => ConfigValueView::Integer(*i),
            ConfigValue::Boolean(b) => ConfigValueView::Boolean(*b),
            ConfigValue::Other => ConfigValueView::Other,
        }
    }
}

impl Clone for ConfigValue {
    fn clone(&self) -> (r: Self)
        ensures
            r@ == self@,
    {
        match self {
            ConfigValue::String(s) => ConfigValue::String(s.clone()),
            ConfigValue::Integer(i) => ConfigValue::Integer(*i),
            ConfigValue::Boolean(b) => ConfigValue::Boolean(*b),
            ConfigValue::Other => ConfigValue::Other,
        }
    }
}

impl ConfigValue {
    /// The string, when the value is one.
    pub fn as_str(&self) -> (r: Option<&str>)
        ensures
            match self@ {
                ConfigValueView::String(s) => r matches Some(t) && t@ == s,
                _ => r is None,
            },
    {
        match self {
            ConfigValue::String(s) => Some(s.as_str()),
            _ => None,
        }
    }
}

/// The map of a list of `(key, value)` entries (a later entry for the same
/// key wins).
pub open spec fn str_entries_map<V: View>(s: Seq<(String, V)>) -> Map<Seq<char>, V::V>
    decreases s.len(),
{
    if s.len() == 0 {
        Map::empty()
    } else {
        str_entries_map(s.drop_last()).insert(s.last().0@, s.last().1@)
    }
}

/// No key occurs twice among the entries.
pub open spec fn str_keys_unique<V>(s: Seq<(String, V)>) -> bool {
    forall|i: int, j: int| 0 <= i < s.len() && 0 <= j < s.len() && i != j ==> s[i].0@ != s[j].0@
}

/// The map of entries with unique keys holds exactly their keys, each with
/// its value.
pub(crate) proof fn lemma_str_entries_map<V: View>(s: Seq<(String, V)>)
    requires
        str_keys_unique(s),
    ensures
        forall|k: Seq<char>| #[trigger] str_entries_map(s).dom().contains(k) <==> exists|j: int| 0 <= j < s.len() && s[j].0@ == k,
        forall|j: int| 0 <= j < s.len() ==> str_entries_map(s)[#[trigger] s[j].0@] == s[j].1@,
        str_entries_map(s).dom().finite(),
        str_entries_map(s).len() == s.len(),
    decreases s.len(),
{
    if s.len() > 0 {
        let t = s.drop_last();
        lemma_str_entries_map(t);
        assert forall|k: Seq<char>| #[trigger] str_entries_map(s).dom().contains(k) <==> exists|j: int| 0 <= j < s.len() && s[j].0@ == k by {
            if str_entries_map(s).dom().contains(k) && k != s.last().0@ {
                assert(str_entries_map(t).dom().contains(k));
                let j = choose|j: int| 0 <= j < t.len() && t[j].0@ == k;
                assert(s[j].0@ == k);
            }
            if exists|j: int| 0 <= j < s.len() && s[j].0@ == k {
                let j = choose|j: int| 0 <= j < s.len() && s[j].0@ == k;
                if j < s.len() - 1 {
                    assert(t[j].0@ == k);
                }
            }
        }
        assert forall|j: int| 0 <= j < s.len() implies str_entries_map(s)[#[trigger] s[j].0@] == s[j].1@ by {
            if j < s.len() - 1 {
                assert(t[j] == s[j]);
                assert(s[j].0@ != s.last().0@);
            }
        }
        assert(!str_entries_map(t).dom().contains(s.last().0@)) by {
            if str_entries_map(t).dom().contains(s.last().0@) {
                let j = choose|j: int| 0 <= j < t.len() && t[j].0@ == s.last().0@;
                assert(s[j].0@ == s[s.len() - 1].0@);
            }
        }
    }
}

/// Replacing the value of entry `k` replaces the value of its key.
proof fn lemma_str_entries_map_update<V: View>(s: Seq<(String, V)>, k: int, e: (String, V))
    requires
        0 <= k < s.len(),
        s[k].0@ == e.0@,
        str_keys_unique(s),
    ensures
        str_entries_map(s.update(k, e)) == str_entries_map(s).insert(e.0@, e.1@),
    decreases s.len(),
{
    let u = s.update(k, e);
    if k == s.len() - 1 {
        assert(u.drop_last() =~= s.drop_last());
        assert(str_entries_map(u) =~= str_entries_map(s).insert(e.0@, e.1@));
    } else {
        let t = s.drop_last();
        assert(u.drop_last() =~= t.update(k, e));
        lemma_str_entries_map_update(t, k, e);
        assert(s.last().0@ != e.0@);
        assert(str_entries_map(u) =~= str_entries_map(s).insert(e.0@, e.1@));
    }
}

/// A map with string keys, kept as a list of entries in insertion order.
pub struct StrMap<V> {
    entries: Vec<(String, V)>,
}

impl<V: View> View for StrMap<V> {
    type V = Map<Seq<char>, V::V>;

    closed spec fn view(&self) -> Map<Seq<char>, V::V> {
        str_entries_map(self.entries@)
    }
}

impl<V: View> StrMap<V> {
    /// No key occurs twice.
    pub closed spec fn wf(&self) -> bool {
        str_keys_unique(self.entries@)
    }

    /// An empty map.
    pub fn new() -> (r: Self)
        ensures
            r.wf(),
            r@ == Map::<Seq<char>, V::V>::empty(),
    {
        StrMap { entries: Vec::new() }
    }

    /// The position of `key` among the entries.
    fn find(&self, key: &str) -> (r: Option<usize>)
        requires
            self.wf(),
        ensures
            r is None ==> !self@.dom().contains(key@),
            r matches Some(k) ==> k < self.entries@.len() && self.entries@[k as int].0@ == key@,
    {
        proof {
            lemma_str_entries_map(self.entries@);
        }
        let mut k: usize = 0;
        while k < self.entries.len()
            invariant
                k <= self.entries@.len(),
                forall|j: int| 0 <= j < k ==> self.entries@[j].0@ != key@,
            decreases self.entries@.len() - k,
        {
            if str_eq(self.entries[k].0.as_str(), key) {
                return Some(k);
            }
            k = k + 1;
        }
        None
    }

    /// The value of `key`, if any.
    pub fn get(&self, key: &str) -> (r: Option<&V>)
        requires
            self.wf(),
        ensures
            r is None <==> !self@.dom().contains(key@),
            r matches Some(v) ==> v@ == self@[key@],
    {
        proof {
            lemma_str_entries_map(self.entries@);
        }
        match self.find(key) {
            Some(k) => Some(&self.entries[k].1),
            None => None,
        }
    }

    /// The entries, in insertion order: exactly the map's keys, once each,
    /// with their values.
    pub fn entries(&self) -> (r: &[(String, V)])
        requires
            self.wf(),
        ensures
            str_entries_map(r@) == self@,
            str_keys_unique(r@),
    {
        self.entries.as_slice()
    }

    /// Number of keys.
    pub fn len(&self) -> (r: usize)
        requires
            self.wf(),
        ensures
            r == self@.len(),
    {
        proof {
            lemma_str_entries_map(self.entries@);
        }
        self.entries.len()
    }

    /// Set `key` to `value` (replacing any value it had).
    pub fn insert(&mut self, key: &str, value: V)
        requires
            old(self).wf(),
        ensures
            final(self).wf(),
            final(self)@ == old(self)@.insert(key@, value@),
    {
        let ghost s = self.entries@;
        match self.find(key) {
            Some(k) => {
                let e = (String::from_str(key), value);
                proof {
                    lemma_str_entries_map_update(s, k as int, e);
                }
                self.entries[k] = e;
                proof {
                    assert(self.entries@ == s.update(k as int, e));
                }
            },
            None => {
                proof {
                    lemma_str_entries_map(s);
                }
                let e = (String::from_str(key), value);
                self.entries.push(e);
                proof {
                    assert(self.entries@.drop_last() =~= s);
                    assert forall|i: int| 0 <= i < s.len() implies s[i].0@ != key@ by {
                        assert(str_entries_map(s).dom().contains(s[i].0@));
                    }
                }
            },
        }
    }
}

/// A table of configuration values: one module's section.
pub type ConfigTable = StrMap<ConfigValue>;

/// Section-based configuration center, namespaced per module id.
pub struct ConfigCenter {
    sections: StrMap<StrMap<ConfigValue>>,
}

/// The value at `section.key` of a configuration view, if any.
pub open spec fn config_lookup(m: Map<Seq<char>, Map<Seq<char>, ConfigValueView>>, section: Seq<char>, key: Seq<char>) -> Option<ConfigValueView> {
    if m.dom().contains(section) && m[section].dom().contains(key) {
        Some(m[section][key])
    } else {
        None
    }
}

impl View for ConfigCenter {
    type V = Map<Seq<char>, Map<Seq<char>, ConfigValueView>>;

    closed spec fn view(&self) -> Map<Seq<char>, Map<Seq<char>, ConfigValueView>> {
        self.sections@
    }
}

impl ConfigCenter {
    /// No section or key occurs twice.
    pub closed spec fn wf(&self) -> bool {
        &&& self.sections.wf()
        &&& forall|j: int| 0 <= j < self.sections.entries@.len() ==> (#[trigger] self.sections.entries@[j]).1.wf()
    }

    /// An empty configuration.
    pub fn new() -> (r: Self)
        ensures
            r.wf(),
            r@ == Map::<Seq<char>, Map<Seq<char>, ConfigValueView>>::empty(),
    {
        ConfigCenter { sections: StrMap { entries: Vec::new() } }
    }

    /// The value at `[section].key`, if any.
    pub fn get(&self, section: &str, key: &str) -> (r: Option<ConfigValue>)
        requires
            self.wf(),
        ensures
            match r {
                Some(v) => config_lookup(self@, section@, key@) == Some(v@),
                None => config_lookup(self@, section@, key@) is None,
            },
    {
        proof {
            lemma_str_entries_map(self.sections.entries@);
        }
        match self.sections.find(section) {
            Some(k) => {
                let table = &self.sections.entries[k].1;
                match table.get(key) {
                    Some(v) => Some(v.clone()),
                    None => None,
                }
            },
            None => None,
        }
    }

    /// The whole `[section]` table, if any.
    pub fn get_section(&self, section: &str) -> (r: Option<&ConfigTable>)
        requires
            self.wf(),
        ensures
            r is None <==> !self@.dom().contains(section@),
            r matches Some(t) ==> t@ == self@[section@] && t.wf(),
    {
        proof {
            lemma_str_entries_map(self.sections.entries@);
        }
        match self.sections.find(section) {
            Some(k) => Some(&self.sections.entries[k].1),
            None => None,
        }
    }

    /// Set `[section].key` to `value`, creating the section when needed.
    pub fn set(&mut self, section: &str, key: &str, value: ConfigValue)
        requires
            old(self).wf(),
        ensures
            final(self).wf(),
            final(self)@ == old(self)@.insert(
                section@,
                (if old(self)@.dom().contains(section@) {
                    old(self)@[section@]
                } else {
                    Map::empty()
                }).insert(key@, value@),
            ),
    {
        let ghost s = self.sections.entries@;
        proof {
            lemma_str_entries_map(s);
        }
        match self.sections.find(section) {
            Some(k) => {
                let (name, mut table) = self.sections.entries.remove(k);
                proof {
                    assert(table == s[k as int].1);
                }
                table.insert(key, value);
                let e = (name, table);
                proof {
                    lemma_str_entries_map_update(s, k as int, e);
                }
                self.sections.entries.insert(k, e);
                proof {
                    assert(self.sections.entries@ =~= s.update(k as int, e));
                    assert forall|j: int| 0 <= j < self.sections.entries@.len() implies (#[trigger] self.sections.entries@[j]).1.wf() by {
                        if j != k {
                            assert(self.sections.entries@[j] == s[j]);
                        }
                    }
                }
            },
            None => {
                let mut table: StrMap<ConfigValue> = StrMap::new();
                table.insert(key, value);
                let e = (String::from_str(section), table);
                self.sections.entries.push(e);
                proof {
                    assert(self.sections.entries@.drop_last() =~= s);
                    assert forall|i: int| 0 <= i < s.len() implies s[i].0@ != section@ by {
                        assert(str_entries_map(s).dom().contains(s[i].0@));
                    }
                    assert forall|j: int| 0 <= j < self.sections.entries@.len() implies (#[trigger] self.sections.entries@[j]).1.wf() by {
                        if j < s.len() {
                            assert(self.sections.entries@[j] == s[j]);
                        }
                    }
                }
            },
        }
    }
}

impl Default for ConfigCenter {
    fn default() -> (r: Self)
        ensures
            r.wf(),
            r@ == Map::<Seq<char>, Map<Seq<char>, ConfigValueView>>::empty(),
    {
        ConfigCenter::new()
    }
}

/// Reading a key returns what was last set there; setting a key leaves every
/// other key as it was.
pub proof fn lemma_get_after_set(m: Map<Seq<char>, Map<Seq<char>, ConfigValueView>>, section: Seq<char>, key: Seq<char>, value: ConfigValueView, other_section: Seq<char>, other_key: Seq<char>)
    ensures
        ({
            let after = m.insert(
                section,
                (if m.dom().contains(section) {
                    m[section]
                } else {
                    Map::empty()
                }).insert(key, value),
            );
            &&& config_lookup(after, section, key) == Some(value)
            &&& (other_section != section || other_key != key) ==> config_lookup(after, other_section, other_key) == config_lookup(m, other_section, other_key)
        }),
{
}

} // verus!
