//! Adapter registry for multi-agent setups.
//!
//! Maps (channel type, agent ID) to adapters, allowing `RelayReply` mode to find
//! the correct bot token for posting. An adapter is known here by a handle, a
//! number that its owner chose for it.

use crate::text::{optional_text, same_text};
use crate::types::ChannelType;
use vstd::prelude::*;

verus! {

/// A channel type and an agent ID, in the form in which adapters are stored.
pub type AdapterKey = (Option<String>, String);

/// The stored adapters.
pub type AdapterTable = dashmap::DashMap<AdapterKey, u64, std::hash::RandomState>;

/// The model of a key: the channel (see [`ChannelType`]) and the agent.
pub open spec fn key_view(key: AdapterKey) -> (Option<Seq<char>>, Seq<char>) {
    (optional_text(key.0), key.1@)
}

/// `handles` are those of the adapters on a channel, in the order in which
/// `agents` names their agents; each agent with an adapter on the channel is
/// named once, and no other.
pub open spec fn lists_channel(
    adapters: Map<(Option<Seq<char>>, Seq<char>), u64>,
    channel: Option<Seq<char>>,
    agents: Seq<Seq<char>>,
    handles: Seq<u64>,
) -> bool {
    &&& agents.no_duplicates()
    &&& agents.len() == handles.len()
    &&& forall|agent: Seq<char>| #[trigger]
        agents.contains(agent) <==> adapters.dom().contains((channel, agent))
    &&& forall|i: int|
        0 <= i < agents.len() ==> #[trigger] handles[i] == adapters[(channel, agents[i])]
}

/// The table has `count` entries.
pub open spec fn has_entries(
    adapters: Map<(Option<Seq<char>>, Seq<char>), u64>,
    count: nat,
) -> bool {
    adapters.dom().finite() && adapters.dom().len() == count
}

/// Registry of channel adapters keyed by channel type and agent ID.
pub struct AdapterRegistry {
    adapters: AdapterTable,
}

impl View for AdapterRegistry {
    type V = Map<(Option<Seq<char>>, Seq<char>), u64>;

    /// The handle under each channel and agent.
    closed spec fn view(&self) -> Map<(Option<Seq<char>>, Seq<char>), u64> {
        registered(self.adapters)
    }
}

fn channel_key(channel_type: ChannelType) -> (key: Option<String>)
    ensures
        optional_text(key) == channel_type@,
{
    match channel_type {
        ChannelType::Discord => None,
        ChannelType::Custom(name) => Some(name),
    }
}

fn same_channel(a: &Option<String>, b: &Option<String>) -> (r: bool)
    ensures
        r == (optional_text(*a) == optional_text(*b)),
{
    match (a, b) {
        (Some(x), Some(y)) => same_text(x.as_str(), y.as_str()),
        (None, None) => true,
        _ => false,
    }
}

impl AdapterRegistry {
    /// Create a new empty registry.
    pub fn new() -> (registry: Self)
        ensures
            registry@ == Map::<(Option<Seq<char>>, Seq<char>), u64>::empty(),
    {
        let registry = AdapterRegistry { adapters: table_new() };
        assert(registry@ =~= Map::empty());
        registry
    }

    /// Register an adapter for a specific agent.
    pub fn register(&mut self, channel_type: ChannelType, agent_id: String, adapter: u64)
        ensures
            final(self)@ == old(self)@.insert((channel_type@, agent_id@), adapter),
    {
        table_insert(&mut self.adapters, (channel_key(channel_type), agent_id), adapter);
    }

    /// Retrieve an adapter for a given channel type and agent ID.
    pub fn get(&self, channel_type: ChannelType, agent_id: &str) -> (r: Option<u64>)
        ensures
            r == (if self@.dom().contains((channel_type@, agent_id@)) {
                Some(self@[(channel_type@, agent_id@)])
            } else {
                None
            }),
    {
        table_get(&self.adapters, &(channel_key(channel_type), agent_id.to_owned()))
    }

    /// Remove an adapter from the registry. Returns whether there was one.
    pub fn remove(&mut self, channel_type: ChannelType, agent_id: &str) -> (r: bool)
        ensures
            final(self)@ == old(self)@.remove((channel_type@, agent_id@)),
            r == old(self)@.dom().contains((channel_type@, agent_id@)),
    {
        table_remove(
            &mut self.adapters,
            &(channel_key(channel_type), agent_id.to_owned()),
        ).is_some()
    }

    /// Get all adapters for a given channel type, in no particular order.
    pub fn get_by_channel(&self, channel_type: ChannelType) -> (handles: Vec<u64>)
        ensures
            exists|agents: Seq<Seq<char>>| #[trigger]
                lists_channel(self@, channel_type@, agents, handles@),
    {
        let channel = channel_key(channel_type);
        let ghost wanted = channel_type@;
        let entries = table_entries(&self.adapters);
        let mut handles: Vec<u64> = Vec::new();
        let ghost mut agents: Seq<Seq<char>> = Seq::empty();
        let ghost mut from: Seq<int> = Seq::empty();
        for i in 0..entries.len()
            invariant
                optional_text(channel) == wanted,
                agents.len() == handles@.len(),
                agents.len() == from.len(),
                forall|m: int, n: int|
                    0 <= m < n < entries@.len() ==> key_view((#[trigger] entries@[m]).0)
                        != key_view((#[trigger] entries@[n]).0),
                forall|m: int|
                    0 <= m < entries@.len() ==> self@.dom().contains(
                        key_view((#[trigger] entries@[m]).0),
                    ) && self@[key_view(entries@[m].0)] == entries@[m].1,
                forall|j: int|
                    0 <= j < from.len() ==> {
                        &&& 0 <= #[trigger] from[j] < i
                        &&& key_view(entries@[from[j]].0) == (wanted, agents[j])
                        &&& entries@[from[j]].1 == handles@[j]
                    },
                forall|j: int, k: int| 0 <= j < k < from.len() ==> from[j] < from[k],
                forall|m: int|
                    0 <= m < i && key_view((#[trigger] entries@[m]).0).0 == wanted
                        ==> agents.contains(key_view(entries@[m].0).1),
        {
            if same_channel(&entries[i].0.0, &channel) {
                handles.push(entries[i].1);
                proof {
                    let before = agents;
                    agents = agents.push(key_view(entries@[i as int].0).1);
                    from = from.push(i as int);
                    assert(agents[before.len() as int] == key_view(entries@[i as int].0).1);
                    assert forall|m: int|
                        0 <= m < i + 1 && key_view((#[trigger] entries@[m]).0).0
                            == wanted implies agents.contains(key_view(entries@[m].0).1) by {
                        if m < i {
                            let j = choose|j: int|
                                0 <= j < before.len() && before[j] == key_view(entries@[m].0).1;
                            assert(agents[j] == before[j]);
                        }
                    }
                }
            }
        }
        proof {
            assert forall|a: int, b: int| 0 <= a < b < agents.len() implies agents[a]
                != agents[b] by {
                assert(from[a] < from[b]);
                assert(key_view(entries@[from[a]].0) != key_view(entries@[from[b]].0));
            }
            assert(agents.no_duplicates());
            assert forall|agent: Seq<char>| #[trigger]
                agents.contains(agent) <==> self@.dom().contains((wanted, agent)) by {
                if agents.contains(agent) {
                    let j = choose|j: int| 0 <= j < agents.len() && agents[j] == agent;
                    assert(0 <= from[j] < entries@.len());
                    assert(self@.dom().contains(key_view(entries@[from[j]].0)));
                }
                if self@.dom().contains((wanted, agent)) {
                    let m = choose|m: int|
                        0 <= m < entries@.len() && key_view((#[trigger] entries@[m]).0) == (
                            wanted,
                            agent,
                        );
                    assert(key_view(entries@[m].0).0 == wanted);
                }
            }
            assert forall|i: int| 0 <= i < agents.len() implies #[trigger] handles@[i] == self@[(
                wanted,
                agents[i],
            )] by {
                assert(0 <= from[i] < entries@.len());
                assert(self@[key_view(entries@[from[i]].0)] == entries@[from[i]].1);
            }
            assert(lists_channel(self@, channel_type@, agents, handles@));
        }
        handles
    }

    /// Get the number of registered adapters.
    pub fn len(&self) -> (r: usize)
        ensures
            has_entries(self@, r as nat),
    {
        table_len(&self.adapters)
    }

    /// Check if the registry is empty.
    pub fn is_empty(&self) -> (r: bool)
        ensures
            r == (self@.dom() =~= Set::empty()),
    {
        table_is_empty(&self.adapters)
    }
}

impl Default for AdapterRegistry {
    fn default() -> (registry: Self)
        ensures
            registry@ == Map::<(Option<Seq<char>>, Seq<char>), u64>::empty(),
    {
        AdapterRegistry::new()
    }
}

/// An adapter that was registered is found under its channel and agent, and no
/// other entry changes; one that was removed is not found any more.
pub proof fn law_registered_adapters_are_found(
    adapters: Map<(Option<Seq<char>>, Seq<char>), u64>,
    key: (Option<Seq<char>>, Seq<char>),
    adapter: u64,
    other: (Option<Seq<char>>, Seq<char>),
)
    requires
        other != key,
    ensures
        adapters.insert(key, adapter).dom().contains(key),
        adapters.insert(key, adapter)[key] == adapter,
        !adapters.remove(key).dom().contains(key),
        adapters.insert(key, adapter).dom().contains(other) == adapters.dom().contains(other),
        adapters.insert(key, adapter)[other] == adapters[other],
        adapters.remove(key).dom().contains(other) == adapters.dom().contains(other),
        adapters.dom().contains(other) ==> adapters.remove(key)[other] == adapters[other],
{
}

/// The listing of a channel leaves nobody out and adds nobody: there are as many
/// handles as agents with an adapter on the channel, each agent's handle is among
/// them, and each of them is some agent's.
pub proof fn law_listings_are_complete(
    adapters: Map<(Option<Seq<char>>, Seq<char>), u64>,
    channel: Option<Seq<char>>,
    agents: Seq<Seq<char>>,
    handles: Seq<u64>,
    agent: Seq<char>,
    i: int,
)
    requires
        lists_channel(adapters, channel, agents, handles),
    ensures
        agents.to_set().len() == handles.len(),
        agents.to_set().contains(agent) <==> adapters.dom().contains((channel, agent)),
        adapters.dom().contains((channel, agent)) ==> handles.contains(
            adapters[(channel, agent)],
        ),
        0 <= i < handles.len() ==> exists|owner: Seq<char>| #[trigger]
            adapters.dom().contains((channel, owner)) && adapters[(channel, owner)] == handles[i],
{
    agents.unique_seq_to_set();
    assert(agents.to_set().contains(agent) <==> agents.contains(agent));
    if adapters.dom().contains((channel, agent)) {
        assert(agents.contains(agent));
        let j = choose|j: int| 0 <= j < agents.len() && agents[j] == agent;
        assert(handles[j] == adapters[(channel, agent)]);
    }
    if 0 <= i < handles.len() {
        assert(agents.contains(agents[i]));
        assert(adapters.dom().contains((channel, agents[i])));
    }
}

/// `dashmap::DashMap`, opaque: what one holds is named by [`registered`].
#[verifier::external_type_specification]
#[verifier::external_body]
#[verifier::reject_recursive_types(K)]
#[verifier::reject_recursive_types(V)]
#[verifier::reject_recursive_types(S)]
pub struct ExDashMap<K, V, S>(dashmap::DashMap<K, V, S>);

/// The entries of a table of adapters.
pub uninterp spec fn registered(table: AdapterTable) -> Map<(Option<Seq<char>>, Seq<char>), u64>;

/// `dashmap::DashMap::new`: the new table has no entries.
#[verifier::external_body]
fn table_new() -> (r: AdapterTable)
    ensures
        registered(r).dom() =~= Set::empty(),
{
    dashmap::DashMap::new()
}

/// `dashmap::DashMap::insert`: the value then stands under the key, in place of
/// any that stood there, and all other entries stay.
#[verifier::external_body]
fn table_insert(table: &mut AdapterTable, key: AdapterKey, value: u64)
    ensures
        registered(*final(table)) == registered(*old(table)).insert(key_view(key), value),
{
    let _ = table.insert(key, value);
}

/// `dashmap::DashMap::get`: the value under the key, if there is one.
#[verifier::external_body]
fn table_get(table: &AdapterTable, key: &AdapterKey) -> (r: Option<u64>)
    ensures
        r == (if registered(*table).dom().contains(key_view(*key)) {
            Some(registered(*table)[key_view(*key)])
        } else {
            None
        }),
{
    table.get(key).map(|entry| *entry.value())
}

/// `dashmap::DashMap::remove`: takes out the entry with the key and gives its
/// value, if there is one; all other entries stay.
#[verifier::external_body]
fn table_remove(table: &mut AdapterTable, key: &AdapterKey) -> (r: Option<u64>)
    ensures
        registered(*final(table)) == registered(*old(table)).remove(key_view(*key)),
        r == (if registered(*old(table)).dom().contains(key_view(*key)) {
            Some(registered(*old(table))[key_view(*key)])
        } else {
            None
        }),
{
    table.remove(key).map(|entry| entry.1)
}

/// `dashmap::DashMap::iter`, gathered: every entry once, in an order that is left
/// open.
#[verifier::external_body]
fn table_entries(table: &AdapterTable) -> (entries: Vec<(AdapterKey, u64)>)
    ensures
        forall|m: int, n: int|
            0 <= m < n < entries@.len() ==> key_view((#[trigger] entries@[m]).0) != key_view(
                (#[trigger] entries@[n]).0,
            ),
        forall|m: int|
            0 <= m < entries@.len() ==> registered(*table).dom().contains(
                key_view((#[trigger] entries@[m]).0),
            ) && registered(*table)[key_view(entries@[m].0)] == entries@[m].1,
        forall|key: (Option<Seq<char>>, Seq<char>)| #[trigger]
            registered(*table).dom().contains(key) ==> exists|m: int|
                0 <= m < entries@.len() && key_view((#[trigger] entries@[m]).0) == key,
{
    table.iter().map(|entry| (entry.key().clone(), *entry.value())).collect()
}

/// `dashmap::DashMap::len`: the number of entries.
#[verifier::external_body]
fn table_len(table: &AdapterTable) -> (r: usize)
    ensures
        has_entries(registered(*table), r as nat),
{
    table.len()
}

/// `dashmap::DashMap::is_empty`: whether there are no entries.
#[verifier::external_body]
fn table_is_empty(table: &AdapterTable) -> (r: bool)
    ensures
        r == (registered(*table).dom() =~= Set::empty()),
{
    table.is_empty()
}

} // verus!
