use vstd::prelude::*;
use crate::config::ProviderNode;

verus! {

/// The pool's record of one remote peer: its name, where it was reached, and
/// the stream to it while one is open.
pub struct NodeInfo<S> {
    pub target_name: String,
    pub target: String,
    pub port: u32,
    pub stream: Option<S>,
}

impl<S> NodeInfo<S> {
    pub fn new(target_name: String, target: String, port: u32, stream: Option<S>) -> (r: NodeInfo<S>)
        ensures
            r.target_name == target_name,
            r.target == target,
            r.port == port,
            r.stream == stream,
    {
        NodeInfo { target_name, target, port, stream }
    }

    pub fn stream(&self) -> (r: Option<&S>)
        ensures
            r == match self.stream {
                Some(s) => Some(&s),
                None => None::<&S>,
            },
    {
        match &self.stream {
            Some(s) => Some(s),
            None => None,
        }
    }
}

/// No two records share a name.
pub open spec fn names_unique<S>(c: Seq<NodeInfo<S>>) -> bool {
    forall|i: int, j: int|
        0 <= i < c.len() && 0 <= j < c.len() && i != j ==> c[i].target_name@ != c[j].target_name@
}

/// The records without the one named `name`.
pub open spec fn without_name<S>(c: Seq<NodeInfo<S>>, name: Seq<char>) -> Seq<NodeInfo<S>>
    decreases c.len(),
{
    if c.len() == 0 {
        c
    } else if c.last().target_name@ == name {
        without_name(c.drop_last(), name)
    } else {
        without_name(c.drop_last(), name).push(c.last())
    }
}

/// One record per connected remote peer, at most one per name.
pub struct NodeConnections<S> {
    connections: Vec<NodeInfo<S>>,
}

impl<S> NodeConnections<S> {
    pub closed spec fn spec_connections(&self) -> Seq<NodeInfo<S>> {
        self.connections@
    }

    pub open spec fn wf(&self) -> bool {
        names_unique(self.spec_connections())
    }

    pub fn new() -> (r: NodeConnections<S>)
        ensures
            r.wf(),
            r.spec_connections() == Seq::<NodeInfo<S>>::empty(),
    {
        NodeConnections { connections: Vec::new() }
    }

    /// The record of the peer named `node_name`, where it has an open stream.
    pub fn get_node_connection(&self, node_name: &String) -> (r: Option<&NodeInfo<S>>)
        requires
            self.wf(),
        ensures
            r.is_none() <==> !exists|i: int|
                0 <= i < self.spec_connections().len()
                    && #[trigger] self.spec_connections()[i].target_name@ == node_name@
                    && self.spec_connections()[i].stream.is_some(),
            r matches Some(c) ==> exists|i: int|
                0 <= i < self.spec_connections().len() && #[trigger] self.spec_connections()[i] == *c
                    && c.target_name@ == node_name@ && c.stream.is_some(),
    {
        let mut i: usize = 0;
        while i < self.connections.len()
            invariant
                i <= self.connections@.len(),
                forall|k: int|
                    0 <= k < i ==> !(#[trigger] self.connections@[k].target_name@ == node_name@
                        && self.connections@[k].stream.is_some()),
            decreases self.connections.len() - i,
        {
            let c = &self.connections[i];
            if c.target_name == *node_name && c.stream.is_some() {
                return Some(c);
            }
            i = i + 1;
        }
        None
    }

    /// Every record held.
    pub fn get_alive_connections(&self) -> (r: &Vec<NodeInfo<S>>)
        ensures
            r@ == self.spec_connections(),
    {
        &self.connections
    }

    /// Drops the record of `target_name`, if there is one.
    pub fn remove_node_connection(&mut self, target_name: &String)
        requires
            old(self).wf(),
        ensures
            final(self).wf(),
            final(self).spec_connections() == without_name(old(self).spec_connections(), target_name@),
    {
        let ghost c0 = self.connections@;
        let mut i: usize = 0;
        while i < self.connections.len()
            invariant
                self.connections@ == c0,
                c0 == old(self).spec_connections(),
                names_unique(c0),
                i <= c0.len(),
                forall|k: int| 0 <= k < i ==> #[trigger] c0[k].target_name@ != target_name@,
            decreases self.connections.len() - i,
        {
            if self.connections[i].target_name == *target_name {
                let _ = self.connections.remove(i);
                proof {
                    lemma_filter_drops_one(c0, i as int, target_name@);
                    assert(self.connections@ == c0.remove(i as int));
                    assert(self.spec_connections() == without_name(c0, target_name@));
                }
                return;
            }
            i = i + 1;
        }
        proof {
            lemma_filter_keeps_all(c0, target_name@);
        }
    }

    /// Records a freshly opened stream to `node`, in place of any record of
    /// the same name.
    pub fn create_node_connection(&mut self, node: &ProviderNode, stream: S)
        requires
            old(self).wf(),
        ensures
            final(self).wf(),
            final(self).spec_connections().drop_last() == without_name(old(self).spec_connections(), node.name@),
            final(self).spec_connections().len() > 0,
            final(self).spec_connections().last().target_name@ == node.name@,
            final(self).spec_connections().last().target@ == node.ip@,
            final(self).spec_connections().last().port == node.port,
            final(self).spec_connections().last().stream == Some(stream),
    {
        let ghost c_old = self.connections@;
        self.remove_node_connection(&node.name);
        let ghost c1 = self.connections@;
        let record = NodeInfo::new(node.name.clone(), node.ip.clone(), node.port, Some(stream));
        self.connections.push(record);
        proof {
            lemma_filter_lacks(c_old, node.name@);
            let c2 = self.connections@;
            assert(c2.drop_last() =~= c1);
            assert forall|i: int, j: int|
                0 <= i < c2.len() && 0 <= j < c2.len() && i != j implies c2[i].target_name@ != c2[j].target_name@ by {
                if i < c1.len() && j < c1.len() {
                    assert(c2[i] == c1[i] && c2[j] == c1[j]);
                } else if i < c1.len() {
                    assert(c2[i] == c1[i]);
                } else {
                    assert(c2[j] == c1[j]);
                }
            }
        }
    }
}

impl<S> Default for NodeConnections<S> {
    fn default() -> (r: NodeConnections<S>)
        ensures
            r.wf(),
            r.spec_connections() == Seq::<NodeInfo<S>>::empty(),
    {
        NodeConnections::new()
    }
}

proof fn lemma_filter_keeps_all<S>(c: Seq<NodeInfo<S>>, name: Seq<char>)
    requires
        forall|k: int| 0 <= k < c.len() ==> #[trigger] c[k].target_name@ != name,
    ensures
        without_name(c, name) == c,
    decreases c.len(),
{
    if c.len() > 0 {
        lemma_filter_keeps_all(c.drop_last(), name);
        assert(c.drop_last().push(c.last()) =~= c);
    }
}

proof fn lemma_filter_drops_one<S>(c: Seq<NodeInfo<S>>, i: int, name: Seq<char>)
    requires
        names_unique(c),
        0 <= i < c.len(),
        c[i].target_name@ == name,
    ensures
        without_name(c, name) == c.remove(i),
        names_unique(c.remove(i)),
    decreases c.len(),
{
    if i == c.len() - 1 {
        assert forall|k: int| 0 <= k < c.drop_last().len() implies #[trigger] c.drop_last()[k].target_name@ != name by {
            assert(c[k].target_name@ != c[i].target_name@);
        }
        lemma_filter_keeps_all(c.drop_last(), name);
        assert(c.remove(i) =~= c.drop_last());
    } else {
        let d = c.drop_last();
        assert(names_unique(d));
        lemma_filter_drops_one(d, i, name);
        assert(c.last().target_name@ != name) by {
            assert(c[c.len() - 1].target_name@ != c[i].target_name@);
        }
        assert(c.remove(i) =~= d.remove(i).push(c.last()));
    }
}

proof fn lemma_filter_lacks<S>(c: Seq<NodeInfo<S>>, name: Seq<char>)
    ensures
        forall|k: int| 0 <= k < without_name(c, name).len() ==> #[trigger] without_name(c, name)[k].target_name@ != name,
    decreases c.len(),
{
    if c.len() > 0 {
        lemma_filter_lacks(c.drop_last(), name);
    }
}

} // verus!
