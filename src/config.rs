use vstd::prelude::*;
use crate::timestamp::{later_than, Timestamp};

verus! {

/// One peer of the system.
#[derive(Clone, Debug)]
pub struct ProviderNode {
    pub name: String,
    pub ddns: String,
    pub ip: String,
    pub port: u32,
    /// 0: connect by `ddns`; else by `ip`.
    pub preference: u8,
    /// A higher value outranks a lower one.
    pub priority: u32,
    pub last_updated: Timestamp,
}

#[derive(Clone, Debug)]
pub struct ConfigMetadata {
    /// The local peer's own name.
    pub name: String,
    pub last_updated: Timestamp,
}

#[derive(Clone, Debug)]
pub struct ExecutionInstructions {
    /// The child's program and arguments, separated by spaces.
    pub instructions: String,
    pub last_updated: Timestamp,
}

#[derive(Clone, Debug)]
pub struct Config {
    pub nodes: Vec<ProviderNode>,
    pub config_metadata: ConfigMetadata,
    pub execution: ExecutionInstructions,
}

/// Whether some peer of the list carries the name.
pub open spec fn has_name(nodes: Seq<ProviderNode>, name: Seq<char>) -> bool {
    exists|i: int| 0 <= i < nodes.len() && (#[trigger] nodes[i]).name@ == name
}

/// The local list after the incoming peers are taken in order: each one is
/// appended unless it bears the local name or its name is already listed.
pub open spec fn merged_nodes(
    local: Seq<ProviderNode>,
    incoming: Seq<ProviderNode>,
    own: Seq<char>,
) -> Seq<ProviderNode>
    decreases incoming.len(),
{
    if incoming.len() == 0 {
        local
    } else {
        let prev = merged_nodes(local, incoming.drop_last(), own);
        let n = incoming.last();
        if n.name@ == own || has_name(prev, n.name@) {
            prev
        } else {
            prev.push(n)
        }
    }
}

/// Whether entry `k` is the first one that bears `name`.
pub open spec fn is_first_named(nodes: Seq<ProviderNode>, k: int, name: Seq<char>) -> bool {
    nodes[k].name@ == name && forall|m: int| 0 <= m < k ==> nodes[m].name@ != name
}

/// The two entries agree on everything but `last_updated`.
pub open spec fn same_peer(a: ProviderNode, b: ProviderNode) -> bool {
    a.name@ == b.name@ && a.ddns@ == b.ddns@ && a.ip@ == b.ip@ && a.port == b.port
        && a.preference == b.preference && a.priority == b.priority
}

/// `after` is `before` with the first entry named `name` stamped `now`.
pub open spec fn stamped(
    before: Seq<ProviderNode>,
    after: Seq<ProviderNode>,
    name: Seq<char>,
    now: Timestamp,
) -> bool {
    &&& after.len() == before.len()
    &&& forall|k: int|
        0 <= k < before.len() ==> same_peer(#[trigger] after[k], before[k])
            && after[k].last_updated == (if is_first_named(before, k, name) {
                now
            } else {
                before[k].last_updated
            })
}

/// Whether an incoming configuration is taken: unless the local one is newer.
pub open spec fn merge_accepts(local: Config, incoming: Config) -> bool {
    !later_than(local.config_metadata.last_updated, incoming.config_metadata.last_updated)
}

/// `new` is what merging `incoming` into `old` at the instant `now` gives:
/// `old` itself where it is newer; else `old` with the incoming
/// instructions and update time, the incoming peers merged in, and the local
/// peer's entry stamped `now`.
pub open spec fn merged_config(old: Config, incoming: Config, now: Timestamp, new: Config) -> bool {
    if merge_accepts(old, incoming) {
        &&& new.execution.instructions@ == incoming.execution.instructions@
        &&& new.execution.last_updated == old.execution.last_updated
        &&& new.config_metadata.name@ == old.config_metadata.name@
        &&& new.config_metadata.last_updated == incoming.config_metadata.last_updated
        &&& stamped(
            merged_nodes(old.nodes@, incoming.nodes@, old.config_metadata.name@),
            new.nodes@,
            old.config_metadata.name@,
            now,
        )
    } else {
        new == old
    }
}

/// Whether the list holds a peer of that name.
pub fn contains_name(nodes: &Vec<ProviderNode>, name: &String) -> (r: bool)
    ensures
        r == has_name(nodes@, name@),
{
    let mut i: usize = 0;
    while i < nodes.len()
        invariant
            i <= nodes@.len(),
            forall|k: int| 0 <= k < i ==> nodes@[k].name@ != name@,
        decreases nodes.len() - i,
    {
        if nodes[i].name == *name {
            return true;
        }
        i = i + 1;
    }
    false
}

/// Appends the incoming peers that are new, as `merged_nodes` says.
pub fn add_new_nodes(nodes: &mut Vec<ProviderNode>, incoming: Vec<ProviderNode>, own: &String)
    ensures
        final(nodes)@ == merged_nodes(old(nodes)@, incoming@, own@),
{
    let ghost start = nodes@;
    let ghost all = incoming@;
    let mut rest = incoming;
    let mut i: usize = 0;
    let total = rest.len();
    assert(all.subrange(0, 0) =~= Seq::<ProviderNode>::empty());
    assert(rest@ =~= all.subrange(0, all.len() as int));
    while rest.len() > 0
        invariant
            i + rest@.len() == all.len(),
            all.len() == total,
            rest@ == all.subrange(i as int, all.len() as int),
            nodes@ == merged_nodes(start, all.subrange(0, i as int), own@),
        decreases rest@.len(),
    {
        let n = rest.remove(0);
        assert(all.subrange(0, i + 1).drop_last() =~= all.subrange(0, i as int));
        assert(all.subrange(0, i + 1).last() == n);
        assert(rest@ =~= all.subrange(i + 1, all.len() as int));
        if !(n.name == *own) && !contains_name(nodes, &n.name) {
            nodes.push(n);
        }
        i = i + 1;
    }
    assert(all.subrange(0, i as int) =~= all);
}

/// Sets `last_updated` of the first peer named `name` to `now`; the list is
/// left alone where no peer bears the name.
pub fn stamp_node(nodes: &mut Vec<ProviderNode>, name: &String, now: Timestamp)
    ensures
        stamped(old(nodes)@, final(nodes)@, name@, now),
{
    let mut i: usize = 0;
    while i < nodes.len()
        invariant
            i <= nodes@.len(),
            nodes@ == old(nodes)@,
            forall|k: int| 0 <= k < i ==> nodes@[k].name@ != name@,
        decreases nodes.len() - i,
    {
        if nodes[i].name == *name {
            let ghost before = nodes@;
            let mut n = nodes.remove(i);
            n.last_updated = now;
            nodes.insert(i, n);
            assert forall|k: int| 0 <= k < before.len() implies same_peer(
                #[trigger] nodes@[k],
                before[k],
            ) && nodes@[k].last_updated == (if is_first_named(before, k, name@) {
                now
            } else {
                before[k].last_updated
            }) by {
                if k != i {
                    assert(nodes@[k] == before[k]);
                    if k > i {
                        assert(before[i as int].name@ == name@);
                    }
                }
            }
            return;
        }
        i = i + 1;
    }
}

proof fn lemma_merged_nodes_extend(local: Seq<ProviderNode>, incoming: Seq<ProviderNode>, own: Seq<char>)
    ensures
        merged_nodes(local, incoming, own).len() >= local.len(),
        forall|i: int| 0 <= i < local.len() ==> merged_nodes(local, incoming, own)[i] == local[i],
    decreases incoming.len(),
{
    if incoming.len() > 0 {
        lemma_merged_nodes_extend(local, incoming.drop_last(), own);
    }
}

/// A merge never moves the configuration's update time back: afterwards it
/// is at least the local one and at least the incoming one.
pub proof fn lemma_merge_time_not_earlier(old: Config, incoming: Config, now: Timestamp, new: Config)
    requires
        merged_config(old, incoming, now, new),
    ensures
        !later_than(old.config_metadata.last_updated, new.config_metadata.last_updated),
        !later_than(incoming.config_metadata.last_updated, new.config_metadata.last_updated),
{
}

/// A merge only adds peers: every name listed before it is listed after it.
pub proof fn lemma_merge_keeps_names(old: Config, incoming: Config, now: Timestamp, new: Config)
    requires
        merged_config(old, incoming, now, new),
    ensures
        forall|i: int| 0 <= i < old.nodes@.len() ==> has_name(new.nodes@, #[trigger] old.nodes@[i].name@),
{
    if merge_accepts(old, incoming) {
        let m = merged_nodes(old.nodes@, incoming.nodes@, old.config_metadata.name@);
        lemma_merged_nodes_extend(old.nodes@, incoming.nodes@, old.config_metadata.name@);
        assert forall|i: int| 0 <= i < old.nodes@.len() implies has_name(
            new.nodes@,
            #[trigger] old.nodes@[i].name@,
        ) by {
            assert(same_peer(new.nodes@[i], m[i]));
            assert(new.nodes@[i].name@ == old.nodes@[i].name@);
        }
    } else {
        assert forall|i: int| 0 <= i < old.nodes@.len() implies has_name(
            new.nodes@,
            #[trigger] old.nodes@[i].name@,
        ) by {
            assert(new.nodes@[i] == old.nodes@[i]);
        }
    }
}

/// The port of the first peer named `own`, if any.
pub open spec fn port_of(nodes: Seq<ProviderNode>, own: Seq<char>) -> Option<u32>
    decreases nodes.len(),
{
    if nodes.len() == 0 {
        None
    } else if nodes[0].name@ == own {
        Some(nodes[0].port)
    } else {
        port_of(nodes.drop_first(), own)
    }
}

impl Config {
    /// The port the local peer listens on: that of its own entry; `None`
    /// where its name is missing from the list.
    pub fn local_port(&self) -> (r: Option<u32>)
        ensures
            r == port_of(self.nodes@, self.config_metadata.name@),
    {
        let mut i: usize = 0;
        assert(self.nodes@.subrange(0, self.nodes@.len() as int) =~= self.nodes@);
        while i < self.nodes.len()
            invariant
                i <= self.nodes@.len(),
                port_of(self.nodes@, self.config_metadata.name@) == port_of(
                    self.nodes@.subrange(i as int, self.nodes@.len() as int),
                    self.config_metadata.name@,
                ),
            decreases self.nodes.len() - i,
        {
            let ghost rest = self.nodes@.subrange(i as int, self.nodes@.len() as int);
            assert(rest.drop_first() =~= self.nodes@.subrange(i + 1, self.nodes@.len() as int));
            if self.nodes[i].name == self.config_metadata.name {
                return Some(self.nodes[i].port);
            }
            i = i + 1;
        }
        None
    }

    /// Merges a configuration pulled from a peer, at the instant `now`.
    /// Returns whether it was taken (and so is to be persisted).
    pub fn merge_at(&mut self, incoming: Config, now: Timestamp) -> (taken: bool)
        ensures
            taken == merge_accepts(*old(self), incoming),
            merged_config(*old(self), incoming, now, *final(self)),
    {
        if self.config_metadata.last_updated.is_later_than(&incoming.config_metadata.last_updated) {
            return false;
        }
        let Config { nodes, config_metadata, execution } = incoming;
        self.execution.instructions = execution.instructions;
        add_new_nodes(&mut self.nodes, nodes, &self.config_metadata.name);
        self.config_metadata.last_updated = config_metadata.last_updated;
        stamp_node(&mut self.nodes, &self.config_metadata.name, now);
        true
    }

    /// Merges a configuration pulled from a peer now, as `merge_at` does at
    /// the current instant.
    pub fn merge_pulled(&mut self, incoming: Config) -> (taken: bool)
        ensures
            taken == merge_accepts(*old(self), incoming),
            exists|now: Timestamp| merged_config(*old(self), incoming, now, *final(self)),
    {
        let now = Timestamp::now();
        let taken = self.merge_at(incoming, now);
        assert(merged_config(*old(self), incoming, now, *self));
        taken
    }
}

} // verus!
