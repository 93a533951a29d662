//! Load-balancing strategies: selection of the current host from the live
//! set.

use vstd::prelude::*;
use crate::def::IpAddress;
use crate::node::Node;

verus! {

/// A strategy selecting the current host from the live map. When the map
/// is non-empty the selection names one of its keys.
pub trait LoadBalancing {
    fn select_node(&mut self, nodes: &Vec<(IpAddress, Node)>) -> (r: Option<IpAddress>)
        ensures
            (r is Some <==> nodes@.len() > 0),
            (match r {
                Some(ip) => exists|i: int| 0 <= i < nodes@.len() && (#[trigger] nodes@[i]).0 == ip,
                None => true,
            }),
    ;
}

/// Rotating selection: each call moves one host forward, so the live set
/// is visited round by round.
pub struct RoundRobin {
    pub index: usize,
}

impl RoundRobin {
    /// Advance the rotation and name the host now under the index: the
    /// successor of the previous index, wrapping to the front at the end
    /// of the live set, so a stable set is visited host by host, each once
    /// per round.
    pub fn select_rotating(&mut self, nodes: &Vec<(IpAddress, Node)>) -> (r: Option<IpAddress>)
        ensures
            (r is Some <==> nodes@.len() > 0),
            nodes@.len() > 0 ==> {
                &&& final(self).index < nodes@.len()
                &&& (old(self).index + 1 < nodes@.len() ==> final(self).index == old(self).index
                    + 1)
                &&& (old(self).index + 1 >= nodes@.len() ==> final(self).index == 0)
                &&& r == Some(nodes@[final(self).index as int].0)
            },
            nodes@.len() == 0 ==> *final(self) == *old(self),
    {
        let n = nodes.len();
        if n == 0 {
            return None;
        }
        let next: usize = if self.index >= n - 1 {
            0
        } else {
            self.index + 1
        };
        self.index = next;
        Some(nodes[next].0)
    }
}

/// Selection by the lowest recent latency probe, ties broken by map order.
pub struct LatencyAware {
}

impl LatencyAware {
    /// Name the first host whose recorded latency is minimal.
    pub fn select_fastest(&self, nodes: &Vec<(IpAddress, Node)>) -> (r: Option<IpAddress>)
        ensures
            (r is Some <==> nodes@.len() > 0),
            (match r {
                Some(ip) => exists|m: int|
                    {
                        &&& 0 <= m < nodes@.len()
                        &&& (#[trigger] nodes@[m]).0 == ip
                        &&& forall|j: int|
                            0 <= j < nodes@.len() ==> (#[trigger] nodes@[j]).1.latency
                                >= nodes@[m].1.latency
                        &&& forall|j: int|
                            0 <= j < m ==> (#[trigger] nodes@[j]).1.latency > nodes@[m].1.latency
                    },
                None => true,
            }),
    {
        let n = nodes.len();
        if n == 0 {
            return None;
        }
        let mut best: usize = 0;
        let mut i: usize = 1;
        while i < n
            invariant
                1 <= i <= n,
                n == nodes@.len(),
                best < i,
                forall|j: int| 0 <= j < i ==> (#[trigger] nodes@[j]).1.latency >= nodes@[
                    best as int
                ].1.latency,
                forall|j: int| 0 <= j < best ==> (#[trigger] nodes@[j]).1.latency > nodes@[
                    best as int
                ].1.latency,
            decreases n - i,
        {
            if nodes[i].1.latency < nodes[best].1.latency {
                best = i;
            }
            i = i + 1;
        }
        Some(nodes[best].0)
    }
}

impl LoadBalancing for RoundRobin {
    fn select_node(&mut self, nodes: &Vec<(IpAddress, Node)>) -> (r: Option<IpAddress>)
        ensures
            nodes@.len() > 0 ==> {
                &&& final(self).index < nodes@.len()
                &&& (old(self).index + 1 < nodes@.len() ==> final(self).index == old(self).index
                    + 1)
                &&& (old(self).index + 1 >= nodes@.len() ==> final(self).index == 0)
                &&& r == Some(nodes@[final(self).index as int].0)
            },
            nodes@.len() == 0 ==> *final(self) == *old(self),
    {
        self.select_rotating(nodes)
    }
}

impl LoadBalancing for LatencyAware {
    fn select_node(&mut self, nodes: &Vec<(IpAddress, Node)>) -> (r: Option<IpAddress>)
        ensures
            (match r {
                Some(ip) => exists|m: int|
                    {
                        &&& 0 <= m < nodes@.len()
                        &&& (#[trigger] nodes@[m]).0 == ip
                        &&& (forall|j: int|
                            0 <= j < nodes@.len() ==> (#[trigger] nodes@[j]).1.latency
                                >= nodes@[m].1.latency)
                        &&& (forall|j: int|
                            0 <= j < m ==> (#[trigger] nodes@[j]).1.latency
                                > nodes@[m].1.latency)
                    },
                None => true,
            }),
            *final(self) == *old(self),
    {
        self.select_fastest(nodes)
    }
}

/// The built-in strategies, for choosing one at run time.
pub enum BalancerType {
    RoundRobin,
    LatencyAware,
}

} // verus!
