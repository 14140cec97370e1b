//! Coverage feedback: keeps the accumulated global map and decides whether
//! one execution's map adds to it.

use crate::coverage::{
    covers, lemma_merged_absorbs, lemma_merged_changes_iff_novel, lemma_merged_covers, merged,
    novel, zeros, CoverageMap,
};
use vstd::prelude::*;

verus! {

/// The feedback of the engine. It owns the global coverage map, the
/// element-wise maximum of every local map it has been shown.
pub struct MaxMapFeedback {
    global: CoverageMap,
}

impl MaxMapFeedback {
    /// The accumulated global map.
    pub closed spec fn global(&self) -> Seq<u8> {
        self.global@
    }

    /// A feedback over maps of `len` counters that has seen no coverage yet.
    pub fn new(len: usize) -> (feedback: MaxMapFeedback)
        ensures
            feedback.global() == zeros(len as nat),
    {
        MaxMapFeedback { global: CoverageMap::new(len) }
    }

    /// The length of the maps this feedback compares.
    pub fn map_len(&self) -> (n: usize)
        ensures
            n == self.global().len(),
    {
        self.global.len()
    }

    /// Whether `local` shows coverage that the global map lacks. Where it
    /// does, the global map takes the element-wise maximum of the two;
    /// where it does not, the global map stays as it is. No counter of the
    /// global map ever goes down, and the same local map is not interesting
    /// a second time.
    pub fn is_interesting(&mut self, local: &Vec<u8>) -> (interesting: bool)
        requires
            local@.len() == old(self).global().len(),
        ensures
            interesting == novel(old(self).global(), local@),
            final(self).global() == merged(old(self).global(), local@),
            !interesting ==> final(self).global() == old(self).global(),
            covers(final(self).global(), old(self).global()),
            !novel(final(self).global(), local@),
    {
        proof {
            lemma_merged_covers(self.global@, local@);
            lemma_merged_changes_iff_novel(self.global@, local@);
            lemma_merged_absorbs(self.global@, local@);
        }
        if self.global.is_novel(local) {
            self.global.merge(local);
            true
        } else {
            false
        }
    }

    /// A copy of the global map.
    pub fn snapshot(&self) -> (copy: Vec<u8>)
        ensures
            copy@ == self.global(),
    {
        self.global.snapshot()
    }

    /// The global map itself, to read.
    pub fn map(&self) -> (map: &CoverageMap)
        ensures
            map@ == self.global(),
    {
        &self.global
    }
}

} // verus!
