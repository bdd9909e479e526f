//! Cluster numbers.

use vstd::prelude::*;

verus! {

/// The number of a cluster. Clusters 0 and 1 are reserved: the data region
/// begins with cluster 2.
#[derive(Debug, Copy, Clone, PartialEq, Eq, Structural, Hash)]
pub struct Cluster(pub u32);

impl Cluster {
    /// The cluster of the given number.
    pub fn from(raw: u32) -> (r: Cluster)
        ensures
            r.0 == raw,
    {
        Cluster(raw)
    }

    /// The number of the cluster.
    pub fn get_index(&self) -> (r: u32)
        ensures
            r == self.0,
    {
        self.0
    }

    /// The place of the cluster in the data region, counted from zero, or
    /// `None` for a reserved cluster.
    pub fn data_index(&self) -> (r: Option<u32>)
        ensures
            r == if self.0 >= 2 { Some((self.0 - 2) as u32) } else { None },
    {
        if self.0 >= 2 {
            Some(self.0 - 2)
        } else {
            None
        }
    }
}

} // verus!
