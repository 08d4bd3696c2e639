//! Bounded per-container history of derived metrics, and the store that
//! keeps one set of windows per container id.

use vstd::prelude::*;
use crate::metrics::{derive_cpu_spec, derive_gpu_spec, derive_mem_spec};
use crate::models::ContainerStats;
use crate::text::str_eq;
use crate::view::ResourceView;

verus! {

/// How many samples a history window retains: one minute of history at
/// one-second sampling.
pub const HISTORY_SIZE: usize = 60;

/// One derived sample: when it was taken (unix milliseconds) and its value
/// in hundredths of a percent.
#[derive(Clone, Copy, PartialEq, Eq, Debug, Structural)]
pub struct DerivedMetric {
    pub timestamp_ms: u64,
    pub value_bp: u64,
}

/// A window's contents after one more sample: the sample goes on the end,
/// and the oldest entry leaves when the window is full.
pub open spec fn window_push(s: Seq<DerivedMetric>, m: DerivedMetric) -> Seq<DerivedMetric> {
    if s.len() < HISTORY_SIZE as int {
        s.push(m)
    } else {
        s.drop_first().push(m)
    }
}

/// Well-formed window contents: within capacity, timestamps strictly
/// increasing.
pub open spec fn window_wf(s: Seq<DerivedMetric>) -> bool {
    &&& s.len() <= HISTORY_SIZE as int
    &&& forall|i: int, j: int|
        0 <= i < j < s.len() ==> #[trigger] s[i].timestamp_ms < #[trigger] s[j].timestamp_ms
}

/// A bounded first-in-first-out sequence of derived samples.
#[derive(Debug)]
pub struct HistoryWindow {
    samples: Vec<DerivedMetric>,
}

impl View for HistoryWindow {
    type V = Seq<DerivedMetric>;

    closed spec fn view(&self) -> Seq<DerivedMetric> {
        self.samples@
    }
}

impl Clone for HistoryWindow {
    /// An exact copy.
    fn clone(&self) -> (res: Self)
        ensures
            res@ == self@,
    {
        let mut out: Vec<DerivedMetric> = Vec::new();
        let mut i: usize = 0;
        while i < self.samples.len()
            invariant
                i <= self.samples.len(),
                out@ =~= self.samples@.subrange(0, i as int),
            decreases self.samples.len() - i,
        {
            out.push(self.samples[i]);
            i += 1;
        }
        proof {
            assert(out@ =~= self.samples@);
        }
        HistoryWindow { samples: out }
    }
}

impl HistoryWindow {
    /// Well-formed: within capacity, timestamps strictly increasing.
    pub open spec fn wf(&self) -> bool {
        window_wf(self@)
    }

    /// An empty window.
    pub fn new() -> (w: Self)
        ensures
            w@ == Seq::<DerivedMetric>::empty(),
            w.wf(),
    {
        HistoryWindow { samples: Vec::new() }
    }

    /// How many samples the window holds.
    pub fn len(&self) -> (n: usize)
        ensures
            n == self@.len(),
    {
        self.samples.len()
    }

    /// The sample at position `i`, oldest first.
    pub fn get(&self, i: usize) -> (m: DerivedMetric)
        requires
            i < self@.len(),
        ensures
            m == self@[i as int],
    {
        self.samples[i]
    }

    /// Append one sample, dropping the oldest when the window is full.
    pub fn push(&mut self, m: DerivedMetric)
        requires
            old(self).wf(),
            old(self)@.len() > 0 ==> m.timestamp_ms > old(self)@.last().timestamp_ms,
        ensures
            final(self)@ == window_push(old(self)@, m),
            final(self).wf(),
    {
        self.samples.push(m);
        if self.samples.len() > HISTORY_SIZE {
            self.samples.remove(0);
            proof {
                assert(self.samples@ =~= old(self)@.drop_first().push(m));
            }
        }
    }

    /// Append the sample `(now_ms, value)` when a value was derived and the
    /// clock has moved past the newest retained sample; otherwise leave the
    /// window unchanged.
    pub fn push_fresh(&mut self, value: Option<u64>, now_ms: u64)
        requires
            old(self).wf(),
        ensures
            final(self)@ == fresh_push(old(self)@, value, now_ms),
            final(self).wf(),
    {
        match value {
            None => {},
            Some(value_bp) => {
                if self.samples.len() == 0 || self.samples[self.samples.len() - 1].timestamp_ms
                    < now_ms {
                    self.push(DerivedMetric { timestamp_ms: now_ms, value_bp });
                }
            },
        }
    }
}

/// A window's contents after one derivation outcome: pushed when a value was
/// derived and the timestamp is fresh, unchanged otherwise.
pub open spec fn fresh_push(s: Seq<DerivedMetric>, value: Option<u64>, now_ms: u64) -> Seq<
    DerivedMetric,
> {
    match value {
        None => s,
        Some(value_bp) => {
            if s.len() == 0 || s.last().timestamp_ms < now_ms {
                window_push(s, DerivedMetric { timestamp_ms: now_ms, value_bp })
            } else {
                s
            }
        },
    }
}

/// The most recent `HISTORY_SIZE` entries of a sequence (all of them when it
/// is short enough), in order.
pub open spec fn recent(s: Seq<DerivedMetric>) -> Seq<DerivedMetric> {
    if s.len() <= HISTORY_SIZE as int {
        s
    } else {
        s.skip(s.len() - HISTORY_SIZE as int)
    }
}

/// A window's contents after a whole series of samples has been appended.
pub open spec fn window_push_all(s: Seq<DerivedMetric>, ms: Seq<DerivedMetric>) -> Seq<
    DerivedMetric,
>
    decreases ms.len(),
{
    if ms.len() == 0 {
        s
    } else {
        window_push_all(window_push(s, ms[0]), ms.drop_first())
    }
}

proof fn lemma_window_push_all_general(s: Seq<DerivedMetric>, ms: Seq<DerivedMetric>)
    requires
        s.len() <= HISTORY_SIZE as int,
    ensures
        window_push_all(s, ms) == recent(s + ms),
    decreases ms.len(),
{
    if ms.len() == 0 {
        assert(s + ms =~= s);
    } else {
        let m = ms[0];
        let s2 = window_push(s, m);
        lemma_window_push_all_general(s2, ms.drop_first());
        if s.len() < HISTORY_SIZE as int {
            assert(s2 + ms.drop_first() =~= s + ms);
        } else {
            let t = s + ms;
            let l = t.len() as int;
            assert(s2 + ms.drop_first() =~= t.skip(1));
            if ms.len() == 1 {
                assert(t.skip(1) =~= recent(t));
            } else {
                assert(t.skip(1).skip(l - 1 - HISTORY_SIZE as int) =~= t.skip(
                    l - HISTORY_SIZE as int,
                ));
            }
        }
    }
}

/// Law: after appending a series of `N` samples to an empty window, the
/// window holds exactly the most recent `min(N, 60)` of them in arrival
/// order; the oldest are dropped first.
pub proof fn lemma_window_bounded_fifo(ms: Seq<DerivedMetric>)
    ensures
        window_push_all(Seq::empty(), ms).len() == if ms.len() <= HISTORY_SIZE as int {
            ms.len() as int
        } else {
            HISTORY_SIZE as int
        },
        window_push_all(Seq::empty(), ms) == recent(ms),
{
    lemma_window_push_all_general(Seq::empty(), ms);
    assert(Seq::<DerivedMetric>::empty() + ms =~= ms);
}


/// The mathematical contents of one container's three windows.
pub ghost struct HistView {
    pub cpu: Seq<DerivedMetric>,
    pub mem: Seq<DerivedMetric>,
    pub gpu: Seq<DerivedMetric>,
}

/// The contents of a freshly created window set.
pub open spec fn empty_hist() -> HistView {
    HistView { cpu: Seq::empty(), mem: Seq::empty(), gpu: Seq::empty() }
}

/// One container's three history windows, one per resource kind.
#[derive(Debug)]
pub struct ResourceHistory {
    pub cpu: HistoryWindow,
    pub mem: HistoryWindow,
    pub gpu: HistoryWindow,
}

impl View for ResourceHistory {
    type V = HistView;

    open spec fn view(&self) -> HistView {
        HistView { cpu: self.cpu@, mem: self.mem@, gpu: self.gpu@ }
    }
}

/// The window contents that one resource view charts.
pub open spec fn selected_window(h: HistView, view: ResourceView) -> Seq<DerivedMetric> {
    match view {
        ResourceView::Cpu => h.cpu,
        ResourceView::Memory => h.mem,
        ResourceView::Gpu => h.gpu,
    }
}

impl ResourceHistory {
    /// Well-formed: all three windows are.
    pub open spec fn wf(&self) -> bool {
        self.cpu.wf() && self.mem.wf() && self.gpu.wf()
    }

    /// The window that the given resource view charts.
    pub fn window_for(&self, view: ResourceView) -> (w: &HistoryWindow)
        ensures
            w@ == selected_window(self@, view),
    {
        match view {
            ResourceView::Cpu => &self.cpu,
            ResourceView::Memory => &self.mem,
            ResourceView::Gpu => &self.gpu,
        }
    }

    /// A fresh, empty window set.
    pub fn new() -> (h: Self)
        ensures
            h@ == empty_hist(),
            h.wf(),
    {
        ResourceHistory { cpu: HistoryWindow::new(), mem: HistoryWindow::new(), gpu: HistoryWindow::new() }
    }
}

impl Clone for ResourceHistory {
    /// An exact copy.
    fn clone(&self) -> (res: Self)
        ensures
            res@ == self@,
    {
        ResourceHistory { cpu: self.cpu.clone(), mem: self.mem.clone(), gpu: self.gpu.clone() }
    }
}

/// One store entry: a container id and its windows.
#[derive(Debug)]
struct StoreEntry {
    id: String,
    history: ResourceHistory,
}

/// No two entries share an id.
spec fn entry_ids_unique(s: Seq<StoreEntry>) -> bool {
    forall|i: int, j: int|
        0 <= i < j < s.len() ==> (#[trigger] s[i].id@) != (#[trigger] s[j].id@)
}

/// All entries are well-formed and ids are unique.
spec fn entries_wf(s: Seq<StoreEntry>) -> bool {
    &&& entry_ids_unique(s)
    &&& forall|i: int| 0 <= i < s.len() ==> (#[trigger] s[i].history).wf()
}

/// The id-to-windows map that a sequence of entries stands for.
spec fn entries_map(s: Seq<StoreEntry>) -> Map<Seq<char>, HistView>
    decreases s.len(),
{
    if s.len() == 0 {
        Map::empty()
    } else {
        entries_map(s.drop_last()).insert(s.last().id@, s.last().history@)
    }
}

proof fn lemma_entries_map_contains(s: Seq<StoreEntry>, id: Seq<char>)
    ensures
        entries_map(s).dom().contains(id) <==> exists|i: int|
            0 <= i < s.len() && (#[trigger] s[i].id@) == id,
    decreases s.len(),
{
    if s.len() > 0 {
        lemma_entries_map_contains(s.drop_last(), id);
        if s.last().id@ == id {
            assert(s[s.len() - 1].id@ == id);
        } else {
            if exists|i: int| 0 <= i < s.len() && (#[trigger] s[i].id@) == id {
                let i = choose|i: int| 0 <= i < s.len() && (#[trigger] s[i].id@) == id;
                assert(i < s.len() - 1);
                assert(s.drop_last()[i].id@ == id);
            }
            if exists|i: int| 0 <= i < s.drop_last().len() && (#[trigger] s.drop_last()[i].id@)
                == id {
                let i = choose|i: int|
                    0 <= i < s.drop_last().len() && (#[trigger] s.drop_last()[i].id@) == id;
                assert(s[i].id@ == id);
            }
        }
    }
}

proof fn lemma_entries_map_index(s: Seq<StoreEntry>, i: int)
    requires
        entry_ids_unique(s),
        0 <= i < s.len(),
    ensures
        entries_map(s).dom().contains(s[i].id@),
        entries_map(s)[s[i].id@] == s[i].history@,
    decreases s.len(),
{
    if i == s.len() - 1 {
    } else {
        assert(entry_ids_unique(s.drop_last())) by {
            assert(forall|a: int, b: int|
                0 <= a < b < s.len() - 1 ==> s.drop_last()[a] == s[a] && s.drop_last()[b]
                    == s[b]);
        }
        lemma_entries_map_index(s.drop_last(), i);
        assert(s.drop_last()[i] == s[i]);
        assert(s.last().id@ != s[i].id@);
    }
}

proof fn lemma_entries_map_update(s: Seq<StoreEntry>, i: int, e: StoreEntry)
    requires
        entry_ids_unique(s),
        0 <= i < s.len(),
        e.id@ == s[i].id@,
    ensures
        entries_map(s.update(i, e)) == entries_map(s).insert(e.id@, e.history@),
    decreases s.len(),
{
    let su = s.update(i, e);
    if i == s.len() - 1 {
        assert(su.drop_last() =~= s.drop_last());
        assert(su.last() == e);
        assert(entries_map(s.drop_last()).insert(s.last().id@, s.last().history@).insert(
            e.id@,
            e.history@,
        ) =~= entries_map(s.drop_last()).insert(e.id@, e.history@));
    } else {
        assert(entry_ids_unique(s.drop_last())) by {
            assert(forall|a: int, b: int|
                0 <= a < b < s.len() - 1 ==> s.drop_last()[a] == s[a] && s.drop_last()[b]
                    == s[b]);
        }
        assert(su.drop_last() =~= s.drop_last().update(i, e));
        assert(su.last() == s.last());
        lemma_entries_map_update(s.drop_last(), i, e);
        assert(s.last().id@ != e.id@);
        assert(entries_map(s.drop_last()).insert(e.id@, e.history@).insert(
            s.last().id@,
            s.last().history@,
        ) =~= entries_map(s.drop_last()).insert(s.last().id@, s.last().history@).insert(
            e.id@,
            e.history@,
        ));
    }
}

proof fn lemma_entries_map_push(s: Seq<StoreEntry>, e: StoreEntry)
    ensures
        entries_map(s.push(e)) == entries_map(s).insert(e.id@, e.history@),
{
    assert(s.push(e).drop_last() =~= s);
    assert(s.push(e).last() == e);
}

/// The first entry whose id matches, if any.
fn find_entry(entries: &Vec<StoreEntry>, id: &str) -> (r: Option<usize>)
    ensures
        match r {
            Some(j) => j < entries@.len() && entries@[j as int].id@ == id@,
            None => forall|i: int| 0 <= i < entries@.len() ==> (#[trigger] entries@[i].id@) != id@,
        },
{
    let mut j: usize = 0;
    while j < entries.len()
        invariant
            j <= entries@.len(),
            forall|i: int| 0 <= i < j ==> (#[trigger] entries@[i].id@) != id@,
        decreases entries@.len() - j,
    {
        if str_eq(entries[j].id.as_str(), id) {
            return Some(j);
        }
        j += 1;
    }
    None
}

/// The set of ids that a list of id strings holds.
pub open spec fn id_set_of(ids: Seq<String>) -> Set<Seq<char>> {
    Set::new(|id: Seq<char>| exists|i: int| 0 <= i < ids.len() && (#[trigger] ids[i]@) == id)
}

/// The store's map after reconciliation against a set of current ids:
/// exactly the current ids remain, survivors keep their windows, newcomers
/// start empty.
pub open spec fn reconciled_map(m: Map<Seq<char>, HistView>, ids: Set<Seq<char>>) -> Map<
    Seq<char>,
    HistView,
> {
    Map::new(
        |id: Seq<char>| ids.contains(id),
        |id: Seq<char>|
            if m.dom().contains(id) {
                m[id]
            } else {
                empty_hist()
            },
    )
}

/// The history store: one window set per known container id, keyed by id.
#[derive(Debug)]
pub struct HistoryStore {
    entries: Vec<StoreEntry>,
}

impl View for HistoryStore {
    type V = Map<Seq<char>, HistView>;

    closed spec fn view(&self) -> Map<Seq<char>, HistView> {
        entries_map(self.entries@)
    }
}

/// The windows of one container after one stats snapshot has been recorded
/// at time `now_ms`.
pub open spec fn updated_hist(h: HistView, s: ContainerStats, now_ms: u64) -> HistView {
    HistView {
        cpu: fresh_push(h.cpu, derive_cpu_spec(s), now_ms),
        mem: fresh_push(h.mem, derive_mem_spec(s), now_ms),
        gpu: fresh_push(h.gpu, derive_gpu_spec(s), now_ms),
    }
}

impl HistoryStore {
    /// Well-formed: ids unique, every window well-formed.
    pub closed spec fn wf(&self) -> bool {
        entries_wf(self.entries@)
    }

    /// An empty store.
    pub fn new() -> (s: Self)
        ensures
            s@ == Map::<Seq<char>, HistView>::empty(),
            s.wf(),
    {
        HistoryStore { entries: Vec::new() }
    }

    /// The windows recorded for `id`, if that id is known.
    pub fn get(&self, id: &str) -> (r: Option<&ResourceHistory>)
        requires
            self.wf(),
        ensures
            match r {
                Some(h) => self@.dom().contains(id@) && h@ == self@[id@] && h.wf(),
                None => !self@.dom().contains(id@),
            },
    {
        proof {
            lemma_entries_map_contains(self.entries@, id@);
        }
        match find_entry(&self.entries, id) {
            Some(j) => {
                proof {
                    lemma_entries_map_index(self.entries@, j as int);
                }
                Some(&self.entries[j].history)
            },
            None => None,
        }
    }

    /// Replace the known id set with `ids`: survivors keep their windows,
    /// newcomers get empty ones, ids no longer present are dropped.
    pub fn reconcile(&mut self, ids: &Vec<String>)
        requires
            old(self).wf(),
        ensures
            final(self).wf(),
            final(self)@ == reconciled_map(old(self)@, id_set_of(ids@)),
    {
        let ghost m0 = self@;
        let mut new_entries: Vec<StoreEntry> = Vec::new();
        let mut k: usize = 0;
        proof {
            assert(entries_map(new_entries@) =~= reconciled_map(m0, id_set_of(ids@.take(0))));
        }
        while k < ids.len()
            invariant
                k <= ids@.len(),
                *self == *old(self),
                old(self).wf(),
                entries_wf(new_entries@),
                entries_map(new_entries@) == reconciled_map(m0, id_set_of(ids@.take(k as int))),
                m0 == entries_map(old(self).entries@),
            decreases ids@.len() - k,
        {
            let id: &String = &ids[k];
            proof {
                lemma_entries_map_contains(new_entries@, id@);
            }
            match find_entry(&new_entries, id.as_str()) {
                Some(_) => {
                    proof {
                        assert(id_set_of(ids@.take(k as int)).contains(id@));
                        assert(id_set_of(ids@.take(k as int + 1)) =~= id_set_of(
                            ids@.take(k as int),
                        )) by {
                            assert(forall|i: int|
                                0 <= i < k + 1 ==> ids@.take(k as int + 1)[i] == ids@[i]);
                            assert(forall|i: int|
                                0 <= i < k ==> ids@.take(k as int)[i] == ids@[i]);
                        }
                    }
                },
                None => {
                    proof {
                        lemma_entries_map_contains(self.entries@, id@);
                    }
                    let history: ResourceHistory = match find_entry(&self.entries, id.as_str()) {
                        Some(j) => {
                            proof {
                                lemma_entries_map_index(self.entries@, j as int);
                            }
                            self.entries[j].history.clone()
                        },
                        None => ResourceHistory::new(),
                    };
                    let ghost before = new_entries@;
                    let entry = StoreEntry { id: id.clone(), history };
                    proof {
                        lemma_entries_map_push(before, entry);
                    }
                    new_entries.push(entry);
                    proof {
                        assert(id_set_of(ids@.take(k as int + 1)) =~= id_set_of(
                            ids@.take(k as int),
                        ).insert(id@)) by {
                            assert(forall|i: int|
                                0 <= i < k + 1 ==> ids@.take(k as int + 1)[i] == ids@[i]);
                            assert(forall|i: int|
                                0 <= i < k ==> ids@.take(k as int)[i] == ids@[i]);
                            assert(ids@.take(k as int + 1)[k as int] == ids@[k as int]);
                        }
                        assert(entries_map(new_entries@) =~= reconciled_map(
                            m0,
                            id_set_of(ids@.take(k as int + 1)),
                        ));
                    }
                },
            }
            k += 1;
        }
        self.entries = new_entries;
        proof {
            assert(ids@.take(ids@.len() as int) =~= ids@);
        }
    }

    /// The ids the store currently knows, one each.
    pub fn ids(&self) -> (ids: Vec<String>)
        requires
            self.wf(),
        ensures
            id_set_of(ids@) == self@.dom(),
            forall|i: int, j: int|
                0 <= i < j < ids@.len() ==> (#[trigger] ids@[i])@ != (#[trigger] ids@[j])@,
    {
        let mut ids: Vec<String> = Vec::new();
        let mut i: usize = 0;
        while i < self.entries.len()
            invariant
                i <= self.entries@.len(),
                ids@.len() == i,
                forall|k: int| 0 <= k < i ==> (#[trigger] ids@[k])@ == self.entries@[k].id@,
            decreases self.entries@.len() - i,
        {
            ids.push(self.entries[i].id.clone());
            i += 1;
        }
        proof {
            assert forall|id: Seq<char>| id_set_of(ids@).contains(id) implies self@.dom().contains(
                id,
            ) by {
                let k = choose|k: int| 0 <= k < ids@.len() && ids@[k]@ == id;
                lemma_entries_map_index(self.entries@, k);
            }
            assert forall|id: Seq<char>| self@.dom().contains(id) implies id_set_of(ids@).contains(
                id,
            ) by {
                lemma_entries_map_contains(self.entries@, id);
                let k = choose|k: int|
                    0 <= k < self.entries@.len() && (#[trigger] self.entries@[k].id@) == id;
                assert(ids@[k]@ == id);
            }
            assert(id_set_of(ids@) =~= self@.dom());
        }
        ids
    }

    /// Record one raw stats snapshot for `id`, taken at `now_ms`: each
    /// resource whose derivation yields a value gets one more sample.  A
    /// snapshot for an unknown id changes nothing.
    pub fn record_stats(&mut self, id: &str, stats: &ContainerStats, now_ms: u64)
        requires
            old(self).wf(),
        ensures
            final(self).wf(),
            !old(self)@.dom().contains(id@) ==> final(self)@ == old(self)@,
            old(self)@.dom().contains(id@) ==> final(self)@ == old(self)@.insert(
                id@,
                updated_hist(old(self)@[id@], *stats, now_ms),
            ),
    {
        proof {
            lemma_entries_map_contains(self.entries@, id@);
        }
        match find_entry(&self.entries, id) {
            None => {},
            Some(j) => {
                proof {
                    lemma_entries_map_index(self.entries@, j as int);
                }
                let ghost s0 = self.entries@;
                let cpu = stats.derive_cpu_bp();
                let mem = stats.derive_mem_bp();
                let gpu = stats.derive_gpu_bp();
                let mut e: StoreEntry = self.entries.remove(j);
                e.history.cpu.push_fresh(cpu, now_ms);
                e.history.mem.push_fresh(mem, now_ms);
                e.history.gpu.push_fresh(gpu, now_ms);
                self.entries.insert(j, e);
                proof {
                    assert(self.entries@ =~= s0.update(j as int, self.entries@[j as int]));
                    lemma_entries_map_update(s0, j as int, self.entries@[j as int]);
                    assert(entry_ids_unique(self.entries@)) by {
                        assert(forall|i: int|
                            0 <= i < s0.len() && i != j ==> self.entries@[i] == s0[i]);
                    }
                }
            },
        }
    }
}

/// Law: reconciliation is idempotent, and survivors keep their window data.
/// Reconciling a second time with the same id set changes nothing, and any
/// id that was already known keeps exactly the windows it had.
pub proof fn lemma_reconcile_idempotent(m: Map<Seq<char>, HistView>, ids: Set<Seq<char>>)
    ensures
        reconciled_map(reconciled_map(m, ids), ids) == reconciled_map(m, ids),
        forall|id: Seq<char>|
            ids.contains(id) && m.dom().contains(id) ==> #[trigger] reconciled_map(m, ids)[id]
                == m[id],
{
    assert(reconciled_map(reconciled_map(m, ids), ids) =~= reconciled_map(m, ids));
}

/// Law: an id absent from the current id set has no windows after
/// reconciliation.
pub proof fn lemma_reconcile_drops_absent(
    m: Map<Seq<char>, HistView>,
    ids: Set<Seq<char>>,
    id: Seq<char>,
)
    requires
        !ids.contains(id),
    ensures
        !reconciled_map(m, ids).dom().contains(id),
{
}

} // verus!
