use vstd::prelude::*;
use crate::merge::{merge_seq, merge_vec};
use crate::strings::views;

verus! {

/// Filesystem paths to allow: a read-only list and a read-write list.
pub struct Config {
    pub allow_read: Vec<String>,
    pub allow_write: Vec<String>,
}

impl Config {
    /// Merge another config on top (project overrides global): each list keeps its
    /// own entries and gains the overlay's entries it lacks, in order.
    pub fn merge(&self, overlay: &Config) -> (c: Config)
        ensures
            views(c.allow_read@) == merge_seq(views(self.allow_read@), views(overlay.allow_read@)),
            views(c.allow_write@) == merge_seq(views(self.allow_write@), views(overlay.allow_write@)),
    {
        let mut allow_read = self.allow_read.clone();
        let mut allow_write = self.allow_write.clone();
        assert(views(allow_read@) =~= views(self.allow_read@));
        assert(views(allow_write@) =~= views(self.allow_write@));
        merge_vec(&mut allow_read, overlay.allow_read.as_slice());
        merge_vec(&mut allow_write, overlay.allow_write.as_slice());
        Config { allow_read, allow_write }
    }
}

/// A built-in profile: its names (the first is the main one, the others aliases),
/// whether it is a toolchain, and the paths it allows.
pub struct ProfileDef {
    pub names: Vec<String>,
    pub toolchain: bool,
    pub config: Config,
}

impl Config {
    /// An empty config.
    pub fn empty() -> (c: Config)
        ensures
            c.allow_read@.len() == 0,
            c.allow_write@.len() == 0,
    {
        Config { allow_read: Vec::new(), allow_write: Vec::new() }
    }

    /// A copy of this config.
    pub fn copy(&self) -> (c: Config)
        ensures
            views(c.allow_read@) == views(self.allow_read@),
            views(c.allow_write@) == views(self.allow_write@),
    {
        let allow_read = self.allow_read.clone();
        let allow_write = self.allow_write.clone();
        assert(views(allow_read@) =~= views(self.allow_read@));
        assert(views(allow_write@) =~= views(self.allow_write@));
        Config { allow_read, allow_write }
    }
}

/// Merging keeps every path of the base config first, in order, adds every path
/// of the overlay, adds nothing else, and adds no duplicates to lists that had none.
pub proof fn lemma_merge_keeps_and_adds(base: Config, overlay: Config, merged: Config)
    requires
        views(merged.allow_read@) == merge_seq(views(base.allow_read@), views(overlay.allow_read@)),
        views(merged.allow_write@) == merge_seq(views(base.allow_write@), views(overlay.allow_write@)),
    ensures
        views(merged.allow_read@).subrange(0, base.allow_read@.len() as int) == views(base.allow_read@),
        views(merged.allow_write@).subrange(0, base.allow_write@.len() as int) == views(base.allow_write@),
        forall|p: Seq<char>| #[trigger] views(merged.allow_read@).contains(p) <==> (views(base.allow_read@).contains(p)
            || views(overlay.allow_read@).contains(p)),
        forall|p: Seq<char>| #[trigger] views(merged.allow_write@).contains(p) <==> (views(base.allow_write@).contains(p)
            || views(overlay.allow_write@).contains(p)),
        views(base.allow_read@).no_duplicates() ==> views(merged.allow_read@).no_duplicates(),
        views(base.allow_write@).no_duplicates() ==> views(merged.allow_write@).no_duplicates(),
{
    crate::merge::lemma_merge_seq_basics(views(base.allow_read@), views(overlay.allow_read@));
    crate::merge::lemma_merge_seq_basics(views(base.allow_write@), views(overlay.allow_write@));
    assert(views(base.allow_read@).len() == base.allow_read@.len());
    assert(views(base.allow_write@).len() == base.allow_write@.len());
}

/// Merging the same overlay twice gives what merging it once gives.
pub proof fn lemma_merge_idempotent(base: Config, overlay: Config, once: Config, twice: Config)
    requires
        views(once.allow_read@) == merge_seq(views(base.allow_read@), views(overlay.allow_read@)),
        views(once.allow_write@) == merge_seq(views(base.allow_write@), views(overlay.allow_write@)),
        views(twice.allow_read@) == merge_seq(views(once.allow_read@), views(overlay.allow_read@)),
        views(twice.allow_write@) == merge_seq(views(once.allow_write@), views(overlay.allow_write@)),
    ensures
        views(twice.allow_read@) == views(once.allow_read@),
        views(twice.allow_write@) == views(once.allow_write@),
{
    crate::merge::lemma_merge_seq_idempotent(views(base.allow_read@), views(overlay.allow_read@));
    crate::merge::lemma_merge_seq_idempotent(views(base.allow_write@), views(overlay.allow_write@));
}

/// Merging an empty overlay changes nothing.
pub proof fn lemma_merge_empty_overlay(base: Config, overlay: Config, merged: Config)
    requires
        overlay.allow_read@.len() == 0,
        overlay.allow_write@.len() == 0,
        views(merged.allow_read@) == merge_seq(views(base.allow_read@), views(overlay.allow_read@)),
        views(merged.allow_write@) == merge_seq(views(base.allow_write@), views(overlay.allow_write@)),
    ensures
        views(merged.allow_read@) == views(base.allow_read@),
        views(merged.allow_write@) == views(base.allow_write@),
{
}

} // verus!
