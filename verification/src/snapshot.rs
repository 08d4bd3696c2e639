//! The per-frame snapshot: a consistent copy of the current sorted container
//! list together with each listed container's history windows, handed to the
//! renderer so drawing never holds the store's lock.

use vstd::prelude::*;
use crate::history::{empty_hist, HistView, HistoryStore, ResourceHistory};
use crate::models::{same_container, Container};

verus! {

/// An immutable view for one frame: the containers to draw, and, aligned by
/// position, the windows to chart for each of them.
pub struct Snapshot {
    pub containers: Vec<Container>,
    pub histories: Vec<ResourceHistory>,
}

/// The windows a snapshot carries for one id: what the store holds for it,
/// or empty windows for an id the store does not know.
pub open spec fn snapshot_hist(m: Map<Seq<char>, HistView>, id: Seq<char>) -> HistView {
    if m.dom().contains(id) {
        m[id]
    } else {
        empty_hist()
    }
}

/// The ids of a container list, in order.
pub fn container_ids(containers: &Vec<Container>) -> (ids: Vec<String>)
    ensures
        ids@.len() == containers@.len(),
        forall|i: int| 0 <= i < containers@.len() ==> (#[trigger] ids@[i])@ == containers@[i].id@,
{
    let mut ids: Vec<String> = Vec::new();
    let mut i: usize = 0;
    while i < containers.len()
        invariant
            i <= containers@.len(),
            ids@.len() == i,
            forall|k: int| 0 <= k < i ==> (#[trigger] ids@[k])@ == containers@[k].id@,
        decreases containers@.len() - i,
    {
        ids.push(containers[i].id.clone());
        i += 1;
    }
    ids
}

/// Build the snapshot for one frame: a copy of the current sorted list and,
/// for each listed container, a copy of its windows from the store.
pub fn build_snapshot(containers: &Vec<Container>, store: &HistoryStore) -> (snap: Snapshot)
    requires
        store.wf(),
    ensures
        snap.containers@.len() == containers@.len(),
        forall|i: int|
            0 <= i < containers@.len() ==> same_container(
                #[trigger] snap.containers@[i],
                containers@[i],
            ),
        snap.histories@.len() == containers@.len(),
        forall|i: int|
            0 <= i < containers@.len() ==> (#[trigger] snap.histories@[i])@ == snapshot_hist(
                store@,
                containers@[i].id@,
            ),
{
    let mut cs: Vec<Container> = Vec::new();
    let mut hs: Vec<ResourceHistory> = Vec::new();
    let mut i: usize = 0;
    while i < containers.len()
        invariant
            i <= containers@.len(),
            store.wf(),
            cs@.len() == i,
            hs@.len() == i,
            forall|k: int|
                0 <= k < i ==> same_container(#[trigger] cs@[k], containers@[k]),
            forall|k: int|
                0 <= k < i ==> (#[trigger] hs@[k])@ == snapshot_hist(store@, containers@[k].id@),
        decreases containers@.len() - i,
    {
        let c = &containers[i];
        let h = match store.get(c.id.as_str()) {
            Some(found) => found.clone(),
            None => ResourceHistory::new(),
        };
        cs.push(c.clone());
        hs.push(h);
        i += 1;
    }
    Snapshot { containers: cs, histories: hs }
}

} // verus!
