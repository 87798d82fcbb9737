//! Per-file codec planning and the fold of per-file results into the run's
//! counters.
//!
//! Each work item is processed independently, exactly once: derived
//! formats first (only if the image decoded), then the original-format
//! codec chosen by extension. The worker pool applies this to every item
//! in some order; the fold here is the order-insensitive accounting that
//! the counters perform, and the lemmas state the run-level guarantees:
//! savings never exceed the input total, and the original-format category
//! is untouched by derived-format work.

use vstd::prelude::*;

use crate::exts::ImageKind;
use crate::policy::CodecOutcome;
use crate::stats::{CounterSet, sat_add, sat_add_spec, lemma_sat_add_monotone};

verus! {

/// Which codecs run on one file.
#[derive(Clone, Copy, PartialEq, Eq, Structural, Debug)]
pub struct FilePlan {
    pub run_webp: bool,
    pub run_avif: bool,
    pub codec: ImageKind,
}

/// Whether the file must be decoded before the codecs run: only derived
/// formats need the decoded image.
pub fn needs_decode(want_webp: bool, want_avif: bool) -> (b: bool)
    ensures
        b == (want_webp || want_avif),
{
    want_webp || want_avif
}

/// The plan for one file: a derived format runs only when it was requested
/// and the image decoded; the original-format codec is chosen by extension
/// and runs whatever happened to the decode.
pub fn plan_file(kind: ImageKind, want_webp: bool, want_avif: bool, decode_ok: bool) -> (p:
    FilePlan)
    ensures
        p.run_webp == (want_webp && decode_ok),
        p.run_avif == (want_avif && decode_ok),
        p.codec == kind,
{
    FilePlan { run_webp: want_webp && decode_ok, run_avif: want_avif && decode_ok, codec: kind }
}

/// What one file contributed to the run: its input size, the codec that
/// handled its original format, and bytes saved and time spent per
/// category.
#[derive(Clone, Copy, PartialEq, Eq, Structural, Debug)]
pub struct FileReport {
    pub input_size: u64,
    pub codec: ImageKind,
    pub orig_saved: u64,
    pub webp_saved: u64,
    pub avif_saved: u64,
    pub orig_ms: u64,
    pub webp_ms: u64,
    pub avif_ms: u64,
}

impl FileReport {
    /// No category reports more saved bytes than the file held.
    pub open spec fn wf(self) -> bool {
        self.orig_saved <= self.input_size && self.webp_saved <= self.input_size
            && self.avif_saved <= self.input_size
    }
}

/// One file's report folded into the counters, every addition saturating;
/// original-format time lands on the counter of the codec that ran.
pub open spec fn record_spec(c: CounterSet, r: FileReport) -> CounterSet {
    CounterSet {
        total_input: sat_add_spec(c.total_input, r.input_size),
        saved_orig: sat_add_spec(c.saved_orig, r.orig_saved),
        saved_webp: sat_add_spec(c.saved_webp, r.webp_saved),
        saved_avif: sat_add_spec(c.saved_avif, r.avif_saved),
        time_jpg: if r.codec is Jpeg {
            sat_add_spec(c.time_jpg, r.orig_ms)
        } else {
            c.time_jpg
        },
        time_png: if r.codec is Png {
            sat_add_spec(c.time_png, r.orig_ms)
        } else {
            c.time_png
        },
        time_webp: sat_add_spec(c.time_webp, r.webp_ms),
        time_avif: sat_add_spec(c.time_avif, r.avif_ms),
    }
}

/// Add one file's report to the counters.
pub fn record_file(c: &mut CounterSet, r: &FileReport)
    ensures
        *final(c) == record_spec(*old(c), *r),
{
    c.total_input = sat_add(c.total_input, r.input_size);
    c.saved_orig = sat_add(c.saved_orig, r.orig_saved);
    c.saved_webp = sat_add(c.saved_webp, r.webp_saved);
    c.saved_avif = sat_add(c.saved_avif, r.avif_saved);
    match r.codec {
        ImageKind::Jpeg => {
            c.time_jpg = sat_add(c.time_jpg, r.orig_ms);
        },
        ImageKind::Png => {
            c.time_png = sat_add(c.time_png, r.orig_ms);
        },
    }
    c.time_webp = sat_add(c.time_webp, r.webp_ms);
    c.time_avif = sat_add(c.time_avif, r.avif_ms);
}

/// Assemble one file's report from its codec outcomes. Savings that a
/// codec did not produce are zero; the well-formedness bound follows from
/// each outcome saving no more than the file held.
pub fn file_report(
    input_size: u64,
    plan: FilePlan,
    orig: CodecOutcome,
    webp: CodecOutcome,
    avif: CodecOutcome,
    orig_ms: u64,
    webp_ms: u64,
    avif_ms: u64,
) -> (r: FileReport)
    requires
        orig.saved_spec() <= input_size,
        webp.saved_spec() <= input_size,
        avif.saved_spec() <= input_size,
    ensures
        r.wf(),
        r.input_size == input_size,
        r.codec == plan.codec,
        r.orig_saved == orig.saved_spec(),
        r.webp_saved == webp.saved_spec(),
        r.avif_saved == avif.saved_spec(),
        r.orig_ms == orig_ms,
        r.webp_ms == webp_ms,
        r.avif_ms == avif_ms,
{
    FileReport {
        input_size,
        codec: plan.codec,
        orig_saved: orig.saved(),
        webp_saved: webp.saved(),
        avif_saved: avif.saved(),
        orig_ms,
        webp_ms,
        avif_ms,
    }
}

/// The counters after every report has been folded in, in list order.
pub open spec fn agg_spec(rs: Seq<FileReport>) -> CounterSet
    decreases rs.len(),
{
    if rs.len() == 0 {
        CounterSet::zero()
    } else {
        record_spec(agg_spec(rs.drop_last()), rs.last())
    }
}

/// Fold every per-file report into one counter set, the terminal read of
/// the run's accounting.
pub fn aggregate(reports: &Vec<FileReport>) -> (c: CounterSet)
    ensures
        c == agg_spec(reports@),
{
    let mut c = CounterSet::new();
    let mut i: usize = 0;
    while i < reports.len()
        invariant
            i <= reports@.len(),
            c == agg_spec(reports@.take(i as int)),
        decreases reports@.len() - i,
    {
        record_file(&mut c, &reports[i]);
        proof {
            assert(reports@.take(i as int + 1).drop_last() =~= reports@.take(i as int));
            assert(reports@.take(i as int + 1).last() == reports@[i as int]);
        }
        i = i + 1;
    }
    proof {
        assert(reports@.take(reports@.len() as int) =~= reports@);
    }
    c
}

/// No savings category ever exceeds the total input: when every per-file
/// report is well formed, each aggregated savings counter stays at or
/// below the aggregated input size.
pub proof fn lemma_savings_never_exceed_input(rs: Seq<FileReport>)
    requires
        forall|i: int| 0 <= i < rs.len() ==> (#[trigger] rs[i]).wf(),
    ensures
        agg_spec(rs).savings_bounded(),
    decreases rs.len(),
{
    if rs.len() > 0 {
        assert forall|i: int| 0 <= i < rs.drop_last().len() implies (#[trigger] rs.drop_last()[
            i
        ]).wf() by {
            assert(rs.drop_last()[i] == rs[i]);
        }
        lemma_savings_never_exceed_input(rs.drop_last());
        let c = agg_spec(rs.drop_last());
        let r = rs.last();
        lemma_sat_add_monotone(c.saved_orig, r.orig_saved, c.total_input, r.input_size);
        lemma_sat_add_monotone(c.saved_webp, r.webp_saved, c.total_input, r.input_size);
        lemma_sat_add_monotone(c.saved_avif, r.avif_saved, c.total_input, r.input_size);
    }
}

/// Derived-format generation never changes the original-format accounting:
/// two runs whose per-file reports agree on input size and original-format
/// savings aggregate to the same input total and the same original-format
/// savings, whatever their WebP and AVIF fields hold.
pub proof fn lemma_orig_category_independent(a: Seq<FileReport>, b: Seq<FileReport>)
    requires
        a.len() == b.len(),
        forall|i: int| 0 <= i < a.len() ==> (#[trigger] a[i]).input_size == b[i].input_size && a[
            i
        ].orig_saved == b[i].orig_saved,
    ensures
        agg_spec(a).saved_orig == agg_spec(b).saved_orig,
        agg_spec(a).total_input == agg_spec(b).total_input,
    decreases a.len(),
{
    if a.len() > 0 {
        assert forall|i: int| 0 <= i < a.drop_last().len() implies (#[trigger] a.drop_last()[
            i
        ]).input_size == b.drop_last()[i].input_size && a.drop_last()[i].orig_saved
            == b.drop_last()[i].orig_saved by {
            assert(a.drop_last()[i] == a[i]);
            assert(b.drop_last()[i] == b[i]);
        }
        lemma_orig_category_independent(a.drop_last(), b.drop_last());
        assert(a.last() == a[a.len() - 1]);
        assert(b.last() == b[a.len() - 1]);
    }
}

} // verus!
