//! The global-hotkey action table: which configured action each registered
//! hotkey id triggers.

use std::collections::HashMap;

use vstd::prelude::*;

use crate::error::MyboxError;
use crate::config::{config_lookup, lemma_str_entries_map, ConfigCenter, ConfigValue, ConfigValueView};
use crate::event::{Event, EventPayload, FrameworkEvent};

verus! {

broadcast use vstd::std_specs::hash::group_hash_axioms;

#[verifier::external_type_specification]
#[verifier::external_body]
pub struct ExHotKey(global_hotkey::hotkey::HotKey);

/// The id global-hotkey gives the hotkey written as `s` (`None`: `s` is no
/// valid hotkey string). The id packs the modifier bits and the key code;
/// how `CmdOrCtrl` reads is fixed per build target (Super on macOS, Control
/// elsewhere).
pub uninterp spec fn hotkey_id_of(s: Seq<char>) -> Option<u32>;

/// Binding to global-hotkey's `HotKey::from_str` followed by `HotKey::id`:
/// the parsed hotkey with its id, or the parse error's text. Parsing is a
/// function of the string alone (for a given build target) and never panics.
#[verifier::external_body]
fn parse_hotkey(s: &str) -> (r: Result<(global_hotkey::hotkey::HotKey, u32), String>)
    ensures
        r matches Ok((_, id)) ==> hotkey_id_of(s@) == Some(id),
        r is Err ==> hotkey_id_of(s@) is None,
{
    match s.parse::<global_hotkey::hotkey::HotKey>() {
        Ok(h) => Ok((h, h.id())),
        Err(e) => Err(e.to_string()),
    }
}

/// Parse a hotkey string for registration: the hotkey and its id, or a
/// `HotkeyParse` error naming the string and saying why it is invalid.
pub fn prepare_hotkey(hotkey_str: &str) -> (r: Result<(global_hotkey::hotkey::HotKey, u32), MyboxError>)
    ensures
        match r {
            Ok((_, id)) => hotkey_id_of(hotkey_str@) == Some(id),
            Err(e) => {
                &&& hotkey_id_of(hotkey_str@) is None
                &&& e matches MyboxError::HotkeyParse(msg)
                &&& exists|reason: Seq<char>| msg@ == "invalid hotkey string '"@ + hotkey_str@ + "': "@ + reason
            },
        },
{
    match parse_hotkey(hotkey_str) {
        Ok(parsed) => Ok(parsed),
        Err(reason) => {
            let msg = String::from_str("invalid hotkey string '").concat(hotkey_str).concat("': ").concat(reason.as_str());
            proof {
                assert(msg@ == "invalid hotkey string '"@ + hotkey_str@ + "': "@ + reason@);
            }
            Err(MyboxError::HotkeyParse(msg))
        },
    }
}

/// The actions of the registered hotkeys, by hotkey id. A trigger with an
/// id the table does not hold is not dispatched.
pub struct HotkeyActions {
    map: HashMap<u32, String>,
}

impl View for HotkeyActions {
    type V = Map<u32, Seq<char>>;

    closed spec fn view(&self) -> Map<u32, Seq<char>> {
        self.map@.map_values(|s: String| s@)
    }
}

impl HotkeyActions {
    /// An empty table.
    pub fn new() -> (r: Self)
        ensures
            r@ == Map::<u32, Seq<char>>::empty(),
    {
        let r = HotkeyActions { map: HashMap::new() };
        proof {
            assert(r@ =~= Map::<u32, Seq<char>>::empty());
        }
        r
    }

    /// Record that hotkey `id` triggers `action` (replacing an earlier
    /// action of the same id).
    pub fn record(&mut self, id: u32, action: &str)
        ensures
            final(self)@ == old(self)@.insert(id, action@),
    {
        self.map.insert(id, action.to_string());
        proof {
            assert(self@ =~= old(self)@.insert(id, action@));
        }
    }

    /// The action hotkey `id` triggers, if it is registered.
    pub fn action_for_id(&self, id: u32) -> (r: Option<String>)
        ensures
            match r {
                Some(a) => self@.contains_key(id) && a@ == self@[id],
                None => !self@.contains_key(id),
            },
    {
        match self.map.get(&id) {
            Some(a) => Some(a.clone()),
            None => None,
        }
    }
}

impl Default for HotkeyActions {
    fn default() -> (r: Self)
        ensures
            r@ == Map::<u32, Seq<char>>::empty(),
    {
        Self::new()
    }
}

/// A lookup after a record gives the recorded action for that id and leaves
/// every other id as it was.
pub proof fn lemma_action_after_record(table: Map<u32, Seq<char>>, id: u32, action: Seq<char>, other: u32)
    ensures
        table.insert(id, action).contains_key(id),
        table.insert(id, action)[id] == action,
        other != id ==> (table.insert(id, action).contains_key(other) == table.contains_key(other)),
        other != id && table.contains_key(other) ==> table.insert(id, action)[other] == table[other],
{
}

/// The bus event for a hotkey report: a press of a registered hotkey
/// becomes `core/hotkey.triggered` with its id and action; a release, or an
/// id with no action, gives nothing to publish.
pub fn hotkey_triggered_event(table: &HotkeyActions, pressed: bool, id: u32) -> (r: Option<Event>)
    ensures
        match r {
            Some(e) => {
                &&& pressed
                &&& table@.contains_key(id)
                &&& e.from@ == "core"@
                &&& e.kind@ == "hotkey.triggered"@
                &&& e.payload matches EventPayload::Framework(FrameworkEvent::HotkeyTriggered { id: i, action })
                &&& i == id
                &&& action@ == table@[id]
            },
            None => !pressed || !table@.contains_key(id),
        },
{
    if !pressed {
        return None;
    }
    match table.action_for_id(id) {
        Some(action) => Some(Event {
            from: "core",
            kind: "hotkey.triggered",
            payload: EventPayload::Framework(FrameworkEvent::HotkeyTriggered { id, action }),
        }),
        None => None,
    }
}

/// The hotkey string a configuration value gives, when it is a string.
pub open spec fn hotkey_text(v: ConfigValueView) -> Option<Seq<char>> {
    match v {
        ConfigValueView::String(s) => Some(s),
        _ => None,
    }
}

/// The character sequence of an optional string.
pub open spec fn opt_text(s: Option<String>) -> Option<Seq<char>> {
    match s {
        Some(t) => Some(t@),
        None => None,
    }
}

/// The `[hotkeys]` section: every action of the section exactly once, with
/// its hotkey string, or `None` when its value is not a string (such an
/// entry is skipped).
pub fn configured_hotkeys(config: &ConfigCenter) -> (r: Vec<(String, Option<String>)>)
    requires
        config.wf(),
    ensures
        forall|i: int| 0 <= i < r@.len() ==>
            (config_lookup(config@, "hotkeys"@, (#[trigger] r@[i]).0@) matches Some(v) && hotkey_text(v) == opt_text(r@[i].1)),
        forall|k: Seq<char>| #[trigger] config_lookup(config@, "hotkeys"@, k) is Some ==>
            exists|i: int| 0 <= i < r@.len() && r@[i].0@ == k,
        forall|i: int, j: int| 0 <= i < j < r@.len() ==> (#[trigger] r@[i]).0@ != (#[trigger] r@[j]).0@,
{
    let mut out: Vec<(String, Option<String>)> = Vec::new();
    let table = match config.get_section("hotkeys") {
        Some(t) => t,
        None => {
            return out;
        },
    };
    let entries = table.entries();
    proof {
        lemma_str_entries_map(entries@);
    }
    let mut i: usize = 0;
    while i < entries.len()
        invariant
            i <= entries@.len(),
            out@.len() == i,
            forall|j: int| 0 <= j < i ==> (#[trigger] out@[j]).0@ == entries@[j].0@
                && opt_text(out@[j].1) == hotkey_text(entries@[j].1@),
        decreases entries@.len() - i,
    {
        let key = entries[i].0.clone();
        let value = match &entries[i].1 {
            ConfigValue::String(h) => Some(h.clone()),
            _ => None,
        };
        out.push((key, value));
        i = i + 1;
    }
    proof {
        assert forall|j: int| 0 <= j < out@.len() implies
            (config_lookup(config@, "hotkeys"@, (#[trigger] out@[j]).0@) matches Some(v) && hotkey_text(v) == opt_text(out@[j].1)) by {
            assert(table@[entries@[j].0@] == entries@[j].1@);
        }
        assert forall|k: Seq<char>| #[trigger] config_lookup(config@, "hotkeys"@, k) is Some implies
            exists|j: int| 0 <= j < out@.len() && out@[j].0@ == k by {
            assert(table@.dom().contains(k));
            let j = choose|j: int| 0 <= j < entries@.len() && entries@[j].0@ == k;
            assert(out@[j].0@ == k);
        }
    }
    out
}

} // verus!
