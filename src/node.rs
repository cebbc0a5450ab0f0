use vstd::prelude::*;
use crate::config::{Config, ProviderNode};

verus! {

/// The priority of the first peer named `own`, 0 where none is.
pub open spec fn local_priority(nodes: Seq<ProviderNode>, own: Seq<char>) -> u32
    decreases nodes.len(),
{
    if nodes.len() == 0 {
        0
    } else if nodes[0].name@ == own {
        nodes[0].priority
    } else {
        local_priority(nodes.drop_first(), own)
    }
}

/// Some peer seen alive outranks the priority `p`.
pub open spec fn live_superior(nodes: Seq<ProviderNode>, alives: Seq<bool>, p: u32) -> bool {
    exists|i: int| 0 <= i < nodes.len() && i < alives.len() && alives[i] && #[trigger] nodes[i].priority > p
}

/// Some configured peer outranks the priority `p`, alive or not.
pub open spec fn configured_superior(nodes: Seq<ProviderNode>, p: u32) -> bool {
    exists|i: int| 0 <= i < nodes.len() && #[trigger] nodes[i].priority > p
}

/// The number of `true` entries.
pub open spec fn count_true(s: Seq<bool>) -> nat
    decreases s.len(),
{
    if s.len() == 0 {
        0
    } else {
        count_true(s.drop_last()) + if s.last() { 1nat } else { 0nat }
    }
}

/// What a heartbeat does once its probes are in.
#[derive(Clone, Copy, Debug, PartialEq, Eq, Structural)]
pub enum Activation {
    /// Become the active peer and start the child.
    Activate,
    /// Stop the child and stand down.
    Deactivate,
    Stay,
}

/// The activation rule. An inactive peer takes over where nobody answered or
/// no peer seen alive outranks it; an active one stands down where any
/// configured peer outranks it; equal priorities never move either way.
pub open spec fn activation(alive: bool, alive_count: nat, config: Config, alives: Seq<bool>) -> Activation {
    let p = local_priority(config.nodes@, config.config_metadata.name@);
    if !alive && (alive_count == 0 || !live_superior(config.nodes@, alives, p)) {
        Activation::Activate
    } else if alive && configured_superior(config.nodes@, p) {
        Activation::Deactivate
    } else {
        Activation::Stay
    }
}

/// The address a peer is reached at: its `ddns` name under preference 0,
/// else its `ip`.
pub fn connect_target(node: &ProviderNode) -> (r: &String)
    ensures
        r@ == if node.preference == 0 { node.ddns@ } else { node.ip@ },
{
    if node.preference == 0 {
        &node.ddns
    } else {
        &node.ip
    }
}

/// The indices of the peers to probe, in order: all but the local one.
pub fn peers_to_probe(config: &Config) -> (r: Vec<usize>)
    ensures
        forall|a: int, b: int| 0 <= a < b < r@.len() ==> r@[a] < r@[b],
        forall|k: int| 0 <= k < r@.len() ==> r@[k] < config.nodes@.len(),
        forall|i: int|
            0 <= i < config.nodes@.len() ==> (r@.contains(i as usize) <==> config.nodes@[i].name@
                != config.config_metadata.name@),
{
    let mut r: Vec<usize> = Vec::new();
    let mut i: usize = 0;
    while i < config.nodes.len()
        invariant
            i <= config.nodes@.len(),
            forall|a: int, b: int| 0 <= a < b < r@.len() ==> r@[a] < r@[b],
            forall|k: int| 0 <= k < r@.len() ==> r@[k] < i,
            forall|j: int|
                0 <= j < i ==> (r@.contains(j as usize) <==> config.nodes@[j].name@
                    != config.config_metadata.name@),
        decreases config.nodes.len() - i,
    {
        let ghost before = r@;
        if !(config.nodes[i].name == config.config_metadata.name) {
            r.push(i);
            assert(r@[before.len() as int] == i);
        }
        assert forall|j: int| 0 <= j < i + 1 implies (r@.contains(j as usize) <==> config.nodes@[j].name@
            != config.config_metadata.name@) by {
            if j < i {
                if before.contains(j as usize) {
                    let k = choose|k: int| 0 <= k < before.len() && before[k] == j as usize;
                    assert(r@[k] == j as usize);
                }
                if r@.contains(j as usize) {
                    let k = choose|k: int| 0 <= k < r@.len() && r@[k] == j as usize;
                    assert(k < before.len());
                    assert(before[k] == j as usize);
                }
            } else {
                if r@.contains(j as usize) {
                    let k = choose|k: int| 0 <= k < r@.len() && r@[k] == j as usize;
                    assert(k == before.len());
                }
            }
        }
        i = i + 1;
    }
    r
}

/// The local priority, as `local_priority` gives it.
pub fn find_local_priority(config: &Config) -> (r: u32)
    ensures
        r == local_priority(config.nodes@, config.config_metadata.name@),
{
    let mut i: usize = 0;
    assert(config.nodes@.subrange(0, config.nodes@.len() as int) =~= config.nodes@);
    while i < config.nodes.len()
        invariant
            i <= config.nodes@.len(),
            local_priority(config.nodes@, config.config_metadata.name@) == local_priority(
                config.nodes@.subrange(i as int, config.nodes@.len() as int),
                config.config_metadata.name@,
            ),
        decreases config.nodes.len() - i,
    {
        let ghost rest = config.nodes@.subrange(i as int, config.nodes@.len() as int);
        assert(rest.drop_first() =~= config.nodes@.subrange(i + 1, config.nodes@.len() as int));
        if config.nodes[i].name == config.config_metadata.name {
            return config.nodes[i].priority;
        }
        i = i + 1;
    }
    0
}

/// The heartbeat engine's state: whether this peer is the active one, which
/// peers answered the last probes, and the child it runs while active.
pub struct Node<C> {
    alive: bool,
    alives: Vec<bool>,
    process: Option<C>,
}

impl<C> Node<C> {
    /// Well formed: a child is held exactly while active.
    pub closed spec fn wf(&self) -> bool {
        self.alive == self.process.is_some()
    }

    pub closed spec fn spec_alive(&self) -> bool {
        self.alive
    }

    pub closed spec fn spec_alives(&self) -> Seq<bool> {
        self.alives@
    }

    pub closed spec fn spec_child(&self) -> Option<C> {
        self.process
    }

    /// An inactive node with one slot per configured peer, none seen alive.
    pub fn new(config: &Config) -> (r: Node<C>)
        ensures
            r.wf(),
            !r.spec_alive(),
            r.spec_child().is_none(),
            r.spec_alives() == Seq::new(config.nodes@.len(), |i: int| false),
    {
        let alives = vec![false; config.nodes.len()];
        assert(alives@ =~= Seq::new(config.nodes@.len(), |i: int| false));
        Node { alive: false, alives, process: None }
    }

    pub fn is_alive(&self) -> (r: bool)
        ensures
            r == self.spec_alive(),
    {
        self.alive
    }

    pub fn alives(&self) -> (r: &Vec<bool>)
        ensures
            r@ == self.spec_alives(),
    {
        &self.alives
    }

    pub fn has_child(&self) -> (r: bool)
        ensures
            r == self.spec_child().is_some(),
    {
        self.process.is_some()
    }

    /// Takes in one tick's probe results, one per configured peer (the local
    /// peer's entry is not looked at). Afterwards the liveness vector has one
    /// slot per peer, the local one false; the count of live peers is returned.
    pub fn record_probe_results(&mut self, config: &Config, results: &Vec<bool>) -> (count: usize)
        requires
            old(self).wf(),
            results@.len() == config.nodes@.len(),
        ensures
            final(self).wf(),
            final(self).spec_alives().len() == config.nodes@.len(),
            forall|i: int|
                0 <= i < config.nodes@.len() ==> #[trigger] final(self).spec_alives()[i] == (results@[i]
                    && config.nodes@[i].name@ != config.config_metadata.name@),
            count == count_true(final(self).spec_alives()),
            final(self).spec_alive() == old(self).spec_alive(),
            final(self).spec_child() == old(self).spec_child(),
    {
        let mut fresh: Vec<bool> = Vec::new();
        let mut count: usize = 0;
        let mut i: usize = 0;
        while i < results.len()
            invariant
                results@.len() == config.nodes@.len(),
                i <= results@.len(),
                fresh@.len() == i,
                forall|k: int|
                    0 <= k < i ==> #[trigger] fresh@[k] == (results@[k] && config.nodes@[k].name@
                        != config.config_metadata.name@),
                count == count_true(fresh@),
                count <= i,
            decreases results.len() - i,
        {
            let seen = results[i] && !(config.nodes[i].name == config.config_metadata.name);
            let ghost before = fresh@;
            fresh.push(seen);
            assert(fresh@.drop_last() =~= before);
            if seen {
                count = count + 1;
            }
            i = i + 1;
        }
        self.alives = fresh;
        count
    }

    /// What the activation rule asks for after a tick with `alive_count`
    /// peers answering.
    pub fn decide(&self, config: &Config, alive_count: usize) -> (r: Activation)
        ensures
            r == activation(self.spec_alive(), alive_count as nat, *config, self.spec_alives()),
    {
        let p = find_local_priority(config);
        if !self.alive && (alive_count == 0 || !self.any_live_superior(config, p)) {
            Activation::Activate
        } else if self.alive && any_configured_superior(config, p) {
            Activation::Deactivate
        } else {
            Activation::Stay
        }
    }

    fn any_live_superior(&self, config: &Config, p: u32) -> (r: bool)
        ensures
            r == live_superior(config.nodes@, self.spec_alives(), p),
    {
        let mut i: usize = 0;
        while i < config.nodes.len() && i < self.alives.len()
            invariant
                forall|k: int| 0 <= k < i ==> !(self.alives@[k] && #[trigger] config.nodes@[k].priority > p),
                i <= config.nodes@.len(),
                i <= self.alives@.len(),
            decreases config.nodes.len() - i,
        {
            if self.alives[i] && config.nodes[i].priority > p {
                return true;
            }
            i = i + 1;
        }
        false
    }

    /// Becomes the active peer, holding the child just started.
    pub fn activate(&mut self, child: C)
        requires
            old(self).wf(),
            !old(self).spec_alive(),
        ensures
            final(self).wf(),
            final(self).spec_alive(),
            final(self).spec_child() == Some(child),
            final(self).spec_alives() == old(self).spec_alives(),
    {
        self.alive = true;
        self.process = Some(child);
    }

    /// Stands down and hands back the child to stop, if one was held.
    pub fn deactivate(&mut self) -> (r: Option<C>)
        ensures
            final(self).wf(),
            !final(self).spec_alive(),
            final(self).spec_child().is_none(),
            r == old(self).spec_child(),
            final(self).spec_alives() == old(self).spec_alives(),
    {
        let r = self.process.take();
        self.alive = false;
        r
    }
}

fn any_configured_superior(config: &Config, p: u32) -> (r: bool)
    ensures
        r == configured_superior(config.nodes@, p),
{
    let mut i: usize = 0;
    while i < config.nodes.len()
        invariant
            forall|k: int| 0 <= k < i ==> !(#[trigger] config.nodes@[k].priority > p),
            i <= config.nodes@.len(),
        decreases config.nodes.len() - i,
    {
        if config.nodes[i].priority > p {
            return true;
        }
        i = i + 1;
    }
    false
}

/// The active peer always holds a child, and an inactive one never does.
pub proof fn lemma_alive_iff_child<C>(node: &Node<C>)
    requires
        node.wf(),
    ensures
        node.spec_alive() <==> node.spec_child().is_some(),
{
}

} // verus!
