//! The path resolver: from raw input entries to a plan for each.
//!
//! Every run is either in replace mode, where files are mutated where they
//! stand, or in safe-copy mode, where each input is first duplicated under
//! an `__optimized` sibling name and only the duplicate is touched. The
//! resolver turns each user-supplied entry into one of three plans: walk a
//! directory (after mirroring it, in safe-copy mode), process a single file
//! (after copying it, in safe-copy mode), or skip it with a diagnostic.
//! Directories are never skipped; missing paths and unsupported extensions
//! are.
//!
//! The scanner half of this module filters a directory walk down to the
//! ordered work list of supported files.

use vstd::prelude::*;

use crate::paths::{
    optimized_dir_spec, optimized_file_spec, supported_file_spec, optimized_dir_path,
    optimized_file_path, is_supported_file, copy_bytes, lemma_optimized_names_differ,
};

verus! {

/// The staging policy of a run: mutate originals in place, or work on a
/// fresh copy and never touch the originals.
#[derive(Clone, Copy, PartialEq, Eq, Structural, Debug)]
pub enum RunMode {
    Replace,
    SafeCopy,
}

/// Why the resolver left an entry out of the run.
#[derive(Clone, Copy, PartialEq, Eq, Structural, Debug)]
pub enum SkipReason {
    NotFound,
    UnsupportedExtension,
}

/// One unit of work: the file the pipeline reads and mutates, and the path
/// from which derived-format sibling names are computed.
pub struct WorkItem {
    pub processing: Vec<u8>,
    pub naming_base: Vec<u8>,
}

/// Mathematical value of a [`WorkItem`].
pub struct WorkItemV {
    pub processing: Seq<u8>,
    pub naming_base: Seq<u8>,
}

impl View for WorkItem {
    type V = WorkItemV;

    open spec fn view(&self) -> WorkItemV {
        WorkItemV { processing: self.processing@, naming_base: self.naming_base@ }
    }
}

/// What the caller knows of one user-supplied entry: its path and what the
/// filesystem says of it.
pub struct EntryInfo {
    pub path: Vec<u8>,
    pub exists: bool,
    pub is_dir: bool,
}

/// Mathematical value of an [`EntryInfo`].
pub struct EntryInfoV {
    pub path: Seq<u8>,
    pub exists: bool,
    pub is_dir: bool,
}

impl View for EntryInfo {
    type V = EntryInfoV;

    open spec fn view(&self) -> EntryInfoV {
        EntryInfoV { path: self.path@, exists: self.exists, is_dir: self.is_dir }
    }
}

/// The resolver's decision for one entry.
pub enum EntryPlan {
    /// Walk this directory root for work items; mirror the input first when
    /// `needs_copy` holds.
    Directory { root: Vec<u8>, needs_copy: bool },
    /// Process this single file; copy the input to the processing path
    /// first when `needs_copy` holds.
    File { item: WorkItem, needs_copy: bool },
    /// Leave the entry out and report why.
    Skip { reason: SkipReason },
}

/// Mathematical value of an [`EntryPlan`].
pub enum PlanV {
    Directory { root: Seq<u8>, needs_copy: bool },
    File { item: WorkItemV, needs_copy: bool },
    Skip { reason: SkipReason },
}

impl View for EntryPlan {
    type V = PlanV;

    open spec fn view(&self) -> PlanV {
        match self {
            EntryPlan::Directory { root, needs_copy } => PlanV::Directory {
                root: root@,
                needs_copy: *needs_copy,
            },
            EntryPlan::File { item, needs_copy } => PlanV::File {
                item: item@,
                needs_copy: *needs_copy,
            },
            EntryPlan::Skip { reason } => PlanV::Skip { reason: *reason },
        }
    }
}

/// The resolver's rule, stated once: missing entries are skipped, then
/// directories are always walked (in place, or as their `__optimized`
/// mirror), files with unsupported extensions are skipped, and supported
/// files are processed in place or as an `__optimized` sibling copy whose
/// derived outputs are named after the original input.
pub open spec fn plan_spec(e: EntryInfoV, mode: RunMode) -> PlanV {
    if !e.exists {
        PlanV::Skip { reason: SkipReason::NotFound }
    } else if e.is_dir {
        if mode is Replace {
            PlanV::Directory { root: e.path, needs_copy: false }
        } else {
            PlanV::Directory { root: optimized_dir_spec(e.path), needs_copy: true }
        }
    } else if !supported_file_spec(e.path) {
        PlanV::Skip { reason: SkipReason::UnsupportedExtension }
    } else if mode is Replace {
        PlanV::File {
            item: WorkItemV { processing: e.path, naming_base: e.path },
            needs_copy: false,
        }
    } else {
        PlanV::File {
            item: WorkItemV { processing: optimized_file_spec(e.path), naming_base: e.path },
            needs_copy: true,
        }
    }
}

/// Whether the resolver leaves this entry out of the run.
pub open spec fn entry_skipped(e: EntryInfoV) -> bool {
    !e.exists || (!e.is_dir && !supported_file_spec(e.path))
}

/// How many of the entries the resolver skips.
pub open spec fn skipped_count(s: Seq<EntryInfo>) -> int
    decreases s.len(),
{
    if s.len() == 0 {
        0
    } else {
        skipped_count(s.drop_last()) + if entry_skipped(s.last()@) {
            1int
        } else {
            0int
        }
    }
}

/// Decide one entry.
pub fn plan_entry(e: &EntryInfo, mode: RunMode) -> (r: EntryPlan)
    ensures
        r@ == plan_spec(e@, mode),
{
    if !e.exists {
        EntryPlan::Skip { reason: SkipReason::NotFound }
    } else if e.is_dir {
        match mode {
            RunMode::Replace => EntryPlan::Directory {
                root: copy_bytes(&e.path),
                needs_copy: false,
            },
            RunMode::SafeCopy => EntryPlan::Directory {
                root: optimized_dir_path(&e.path),
                needs_copy: true,
            },
        }
    } else if !is_supported_file(&e.path) {
        EntryPlan::Skip { reason: SkipReason::UnsupportedExtension }
    } else {
        match mode {
            RunMode::Replace => EntryPlan::File {
                item: WorkItem {
                    processing: copy_bytes(&e.path),
                    naming_base: copy_bytes(&e.path),
                },
                needs_copy: false,
            },
            RunMode::SafeCopy => EntryPlan::File {
                item: WorkItem {
                    processing: optimized_file_path(&e.path),
                    naming_base: copy_bytes(&e.path),
                },
                needs_copy: true,
            },
        }
    }
}

/// Decide every entry, in order, and count the skipped ones.
pub fn resolve_entries(entries: &Vec<EntryInfo>, mode: RunMode) -> (r: (Vec<EntryPlan>, usize))
    ensures
        r.0@.len() == entries@.len(),
        forall|i: int| 0 <= i < entries@.len() ==> r.0@[i]@ == plan_spec(entries@[i]@, mode),
        r.1 == skipped_count(entries@),
{
    let mut plans: Vec<EntryPlan> = Vec::new();
    let mut skipped: usize = 0;
    let mut i: usize = 0;
    while i < entries.len()
        invariant
            i <= entries@.len(),
            plans@.len() == i,
            forall|j: int| 0 <= j < i ==> plans@[j]@ == plan_spec(entries@[j]@, mode),
            skipped == skipped_count(entries@.take(i as int)),
            skipped <= i,
        decreases entries@.len() - i,
    {
        let plan = plan_entry(&entries[i], mode);
        match &plan {
            EntryPlan::Skip { .. } => {
                skipped = skipped + 1;
            },
            _ => {},
        }
        plans.push(plan);
        proof {
            assert(entries@.take(i as int + 1).drop_last() =~= entries@.take(i as int));
            assert(entries@.take(i as int + 1).last() == entries@[i as int]);
        }
        i = i + 1;
    }
    proof {
        assert(entries@.take(entries@.len() as int) =~= entries@);
    }
    (plans, skipped)
}

/// In safe-copy mode no plan ever points processing at the input path:
/// whatever the entry, the originals stay untouched. The sibling copy that
/// is processed instead still carries a supported extension.
pub proof fn lemma_safe_copy_leaves_input(e: EntryInfoV)
    ensures
        plan_spec(e, RunMode::SafeCopy) matches PlanV::Directory { root, needs_copy } ==> root
            != e.path && needs_copy,
        plan_spec(e, RunMode::SafeCopy) matches PlanV::File { item, needs_copy } ==> item.processing
            != e.path && item.naming_base == e.path && needs_copy && supported_file_spec(
            item.processing,
        ),
{
    lemma_optimized_names_differ(e.path);
    if e.exists && !e.is_dir && supported_file_spec(e.path) {
        crate::paths::lemma_optimized_file_stays_supported(e.path);
    }
}

/// In replace mode processing happens exactly where the input stands: no
/// copy is requested and no `__optimized` name is ever produced.
pub proof fn lemma_replace_in_place(e: EntryInfoV)
    ensures
        plan_spec(e, RunMode::Replace) matches PlanV::Directory { root, needs_copy } ==> root
            == e.path && !needs_copy,
        plan_spec(e, RunMode::Replace) matches PlanV::File { item, needs_copy } ==> item.processing
            == e.path && item.naming_base == e.path && !needs_copy,
{
}

/// Work items for the supported files among the walked paths, in walk
/// order; a scanned file is its own naming base.
pub open spec fn scan_views(s: Seq<Seq<u8>>) -> Seq<WorkItemV>
    decreases s.len(),
{
    if s.len() == 0 {
        Seq::empty()
    } else {
        scan_views(s.drop_last()) + if supported_file_spec(s.last()) {
            seq![WorkItemV { processing: s.last(), naming_base: s.last() }]
        } else {
            Seq::empty()
        }
    }
}

/// The paths of a walk, as mathematical values.
pub open spec fn path_views(s: Seq<Vec<u8>>) -> Seq<Seq<u8>> {
    s.map_values(|p: Vec<u8>| p@)
}

/// The work items of a list, as mathematical values.
pub open spec fn item_views(s: Seq<WorkItem>) -> Seq<WorkItemV> {
    s.map_values(|w: WorkItem| w@)
}

/// The scanner's filter: keep exactly the walked paths with a supported
/// extension, in walk order, each as its own naming base.
pub fn scan_work_items(paths: &Vec<Vec<u8>>) -> (v: Vec<WorkItem>)
    ensures
        item_views(v@) == scan_views(path_views(paths@)),
{
    let mut v: Vec<WorkItem> = Vec::new();
    let mut i: usize = 0;
    proof {
        assert(item_views(v@) =~= scan_views(path_views(paths@.take(0))));
    }
    while i < paths.len()
        invariant
            i <= paths@.len(),
            item_views(v@) == scan_views(path_views(paths@.take(i as int))),
        decreases paths@.len() - i,
    {
        let p = &paths[i];
        if is_supported_file(p) {
            let item = WorkItem { processing: copy_bytes(p), naming_base: copy_bytes(p) };
            v.push(item);
        }
        proof {
            assert(path_views(paths@.take(i as int + 1)).drop_last() =~= path_views(
                paths@.take(i as int),
            ));
            assert(path_views(paths@.take(i as int + 1)).last() == paths@[i as int]@);
            assert(item_views(v@) =~= scan_views(path_views(paths@.take(i as int + 1))));
        }
        i = i + 1;
    }
    proof {
        assert(paths@.take(paths@.len() as int) =~= paths@);
    }
    v
}

/// Every scanned work item processes a path that was walked.
pub proof fn lemma_scan_items_from_walk(s: Seq<Seq<u8>>)
    ensures
        forall|k: int| 0 <= k < scan_views(s).len() ==> s.contains(
            (#[trigger] scan_views(s)[k]).processing,
        ),
    decreases s.len(),
{
    if s.len() > 0 {
        lemma_scan_items_from_walk(s.drop_last());
        let prefix = scan_views(s.drop_last());
        assert forall|k: int| 0 <= k < scan_views(s).len() implies s.contains(
            (#[trigger] scan_views(s)[k]).processing,
        ) by {
            if k < prefix.len() {
                assert(scan_views(s)[k] == prefix[k]);
                let j = choose|j: int|
                    0 <= j < s.drop_last().len() && s.drop_last()[j] == prefix[k].processing;
                assert(s[j] == prefix[k].processing);
            } else {
                assert(s[s.len() - 1] == scan_views(s)[k].processing);
            }
        }
    }
}

/// No two work items share a processing path when the walked paths are
/// pairwise distinct: every worker owns its file alone, so no two workers
/// ever write the same output.
pub proof fn lemma_scan_items_disjoint(s: Seq<Seq<u8>>)
    requires
        forall|i: int, j: int| 0 <= i < j < s.len() ==> s[i] != s[j],
    ensures
        forall|i: int, j: int|
            0 <= i < j < scan_views(s).len() ==> (#[trigger] scan_views(s)[i]).processing != (
            #[trigger] scan_views(s)[j]).processing,
    decreases s.len(),
{
    if s.len() > 0 {
        assert forall|i: int, j: int| 0 <= i < j < s.drop_last().len() implies s.drop_last()[i]
            != s.drop_last()[j] by {
            assert(s.drop_last()[i] == s[i]);
            assert(s.drop_last()[j] == s[j]);
        }
        lemma_scan_items_disjoint(s.drop_last());
        lemma_scan_items_from_walk(s.drop_last());
        let prefix = scan_views(s.drop_last());
        assert forall|i: int, j: int|
            0 <= i < j < scan_views(s).len() implies (#[trigger] scan_views(s)[i]).processing != (
        #[trigger] scan_views(s)[j]).processing by {
            if j < prefix.len() {
                assert(scan_views(s)[i] == prefix[i]);
                assert(scan_views(s)[j] == prefix[j]);
            } else {
                // The appended item is the walked list's last path, which
                // the distinctness of the walk keeps out of the prefix.
                assert(scan_views(s)[i] == prefix[i]);
                assert(scan_views(s)[j].processing == s[s.len() - 1]);
                assert(s.drop_last().contains(prefix[i].processing));
                let m = choose|m: int|
                    0 <= m < s.drop_last().len() && s.drop_last()[m] == prefix[i].processing;
                assert(s[m] == prefix[i].processing);
            }
        }
    }
}

/// Every scanned work item is a supported file, and it is its own naming
/// base: disjoint inputs give disjoint outputs.
pub proof fn lemma_scan_items_supported(s: Seq<Seq<u8>>)
    ensures
        forall|k: int| 0 <= k < scan_views(s).len() ==> (#[trigger] scan_views(s)[k]).processing
            == scan_views(s)[k].naming_base && supported_file_spec(scan_views(s)[k].processing),
    decreases s.len(),
{
    if s.len() > 0 {
        lemma_scan_items_supported(s.drop_last());
        let prefix = scan_views(s.drop_last());
        assert forall|k: int|
            0 <= k < scan_views(s).len() implies (#[trigger] scan_views(s)[k]).processing
            == scan_views(s)[k].naming_base && supported_file_spec(
            scan_views(s)[k].processing,
        ) by {
            if k < prefix.len() {
                assert(scan_views(s)[k] == prefix[k]);
            } else {
                assert(supported_file_spec(s.last()));
            }
        }
    }
}

} // verus!
