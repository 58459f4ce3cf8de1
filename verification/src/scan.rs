//! The scan pipeline: evaluating work items and folding their outcomes.
//!
//! A scan takes one work item per manifest file.  Each item is evaluated
//! independently of the others: a malformed file yields one non-fatal
//! error and a well-formed one yields a match exactly when the query
//! condition holds.  The fold here is the reference order; a caller may
//! evaluate items concurrently, and the order-independence lemmas below
//! say the reported matches do not depend on the order, as a set and as
//! a multiset.

use vstd::prelude::*;

use crate::json::parsed_doc;
use crate::manifest::{parse_manifest, parse_result_view, spec_manifest_result, AppManifest,
    ManifestView};
use crate::output::{empty_sink, lemma_sink_run_snoc, sink_run, sink_step, Message, MessageView,
    ScanError, ScanErrorView, SinkView};
use crate::search::{lower_of, lowercase, matches_query, spec_info, spec_matches, AppInfo,
    AppInfoView};

verus! {

/// One manifest file handed to the scan: where it was found, the file
/// stem it is named by, and its raw bytes.
pub struct ManifestFile {
    pub bucket: String,
    pub name: String,
    pub path: String,
    pub bytes: Vec<u8>,
}

/// Mathematical model of [`ManifestFile`].
pub struct ManifestFileView {
    pub bucket: Seq<char>,
    pub name: Seq<char>,
    pub path: Seq<char>,
    pub bytes: Seq<u8>,
}

impl DeepView for ManifestFile {
    type V = ManifestFileView;

    open spec fn deep_view(&self) -> ManifestFileView {
        ManifestFileView {
            bucket: self.bucket@,
            name: self.name@,
            path: self.path@,
            bytes: self.bytes@,
        }
    }
}

/// One work item after its file has been parsed: the identification of
/// the file plus its parse outcome.
pub struct ParsedEntry {
    pub bucket: String,
    pub name: String,
    pub path: String,
    pub manifest: Result<AppManifest, String>,
}

/// Mathematical model of [`ParsedEntry`].
pub struct EntryView {
    pub bucket: Seq<char>,
    pub name: Seq<char>,
    pub path: Seq<char>,
    pub manifest: Result<ManifestView, Seq<char>>,
}

impl DeepView for ParsedEntry {
    type V = EntryView;

    open spec fn deep_view(&self) -> EntryView {
        EntryView {
            bucket: self.bucket@,
            name: self.name@,
            path: self.path@,
            manifest: parse_result_view(self.manifest),
        }
    }
}

/// The match condition on one work item: its manifest parsed, and the
/// lower-cased file stem or description contains the lower-cased query.
pub open spec fn entry_matches(e: EntryView, query_lower: Seq<char>) -> bool {
    &&& e.manifest is Ok
    &&& spec_matches(e.name, e.manifest->Ok_0.description, query_lower)
}

/// The match reported for one matching work item.
pub open spec fn entry_info(e: EntryView) -> AppInfoView {
    spec_info(e.name, e.bucket, e.manifest->Ok_0)
}

/// What the evaluator reports for one work item: a failure event for a
/// file that did not parse, a match event when the query condition holds,
/// and nothing otherwise.  The end-of-stream event is never produced here.
pub open spec fn spec_evaluate(e: EntryView, query_lower: Seq<char>) -> Option<MessageView> {
    match e.manifest {
        Err(msg) => Some(MessageView::Failure { path: e.path, message: msg }),
        Ok(m) => if spec_matches(e.name, m.description, query_lower) {
            Some(
                MessageView::Info {
                    appname: e.name,
                    bucket_name: e.bucket,
                    details: entry_info(e),
                },
            )
        } else {
            None
        },
    }
}

/// Evaluates one work item against the lower-cased query.
pub fn evaluate(e: &ParsedEntry, query_lower: &str) -> (r: Option<Message>)
    ensures
        r.deep_view() == spec_evaluate(e.deep_view(), query_lower@),
{
    match &e.manifest {
        Err(msg) => Some(Message::Failure { path: e.path.clone(), message: msg.clone() }),
        Ok(m) => {
            if matches_query(e.name.as_str(), m.description.as_str(), query_lower) {
                Some(
                    Message::Info {
                        appname: e.name.clone(),
                        bucket_name: e.bucket.clone(),
                        details: AppInfo::from_manifest(e.name.clone(), e.bucket.clone(), m),
                    },
                )
            } else {
                None
            }
        },
    }
}

/// The matches of a scan, in processing order: one per entry that
/// satisfies the match condition, each exactly once.
pub open spec fn scan_matches(entries: Seq<EntryView>, query_lower: Seq<char>) -> Seq<AppInfoView>
    decreases entries.len(),
{
    if entries.len() == 0 {
        Seq::empty()
    } else {
        let rest = scan_matches(entries.drop_last(), query_lower);
        if entry_matches(entries.last(), query_lower) {
            rest.push(entry_info(entries.last()))
        } else {
            rest
        }
    }
}

/// The non-fatal errors of a scan, in processing order: one per entry
/// whose manifest failed to parse, naming that entry's path.
pub open spec fn scan_errors(entries: Seq<EntryView>) -> Seq<ScanErrorView>
    decreases entries.len(),
{
    if entries.len() == 0 {
        Seq::empty()
    } else {
        let rest = scan_errors(entries.drop_last());
        match entries.last().manifest {
            Err(msg) => rest.push(ScanErrorView { path: entries.last().path, message: msg }),
            Ok(_) => rest,
        }
    }
}

/// Everything a completed scan hands to its caller: the matches and the
/// non-fatal per-file errors.
pub struct ScanOutcome {
    pub matches: Vec<AppInfo>,
    pub errors: Vec<ScanError>,
}

/// Mathematical model of [`ScanOutcome`].
pub struct ScanOutcomeView {
    pub matches: Seq<AppInfoView>,
    pub errors: Seq<ScanErrorView>,
}

impl DeepView for ScanOutcome {
    type V = ScanOutcomeView;

    open spec fn deep_view(&self) -> ScanOutcomeView {
        ScanOutcomeView { matches: self.matches.deep_view(), errors: self.errors.deep_view() }
    }
}

/// Folds the evaluator over all work items, in order.  Exactly the
/// entries satisfying the match condition appear among the matches, each
/// exactly once, and exactly the entries that failed to parse appear
/// among the errors; no failure stops the fold.
pub fn scan_parsed(entries: &Vec<ParsedEntry>, query_lower: &str) -> (out: ScanOutcome)
    ensures
        out.matches.deep_view() == scan_matches(entries.deep_view(), query_lower@),
        out.errors.deep_view() == scan_errors(entries.deep_view()),
{
    let ghost dv = entries.deep_view();
    let mut matches: Vec<AppInfo> = Vec::new();
    let mut errors: Vec<ScanError> = Vec::new();
    let n: usize = entries.len();
    let mut i: usize = 0;
    while i < n
        invariant
            dv == entries.deep_view(),
            n == entries@.len(),
            i <= n,
            matches.deep_view() == scan_matches(dv.take(i as int), query_lower@),
            errors.deep_view() == scan_errors(dv.take(i as int)),
        decreases n - i,
    {
        proof {
            assert(entries@[i as int].deep_view() == dv[i as int]);
            assert(dv.take(i + 1).drop_last() =~= dv.take(i as int));
            assert(dv.take(i + 1).last() == dv[i as int]);
        }
        let ghost old_matches = matches.deep_view();
        let ghost old_errors = errors.deep_view();
        match evaluate(&entries[i], query_lower) {
            Some(msg) => match msg {
                Message::Info { appname: _, bucket_name: _, details } => {
                    matches.push(details);
                    proof {
                        assert(matches.deep_view() =~= old_matches.push(entry_info(dv[i as int])));
                    }
                },
                Message::Failure { path, message } => {
                    errors.push(ScanError { path, message });
                    proof {
                        assert(errors.deep_view() =~= old_errors.push(
                            ScanErrorView {
                                path: dv[i as int].path,
                                message: dv[i as int].manifest->Err_0,
                            },
                        ));
                    }
                },
                Message::Close => {
                    proof {
                        assert(false);
                    }
                },
            },
            None => {},
        }
        i = i + 1;
    }
    proof {
        assert(dv.take(n as int) =~= dv);
    }
    ScanOutcome { matches, errors }
}

/// The work items a scan derives from its files: each file's
/// identification plus the decode of what its bytes parse to.
pub open spec fn entries_of(files: Seq<ManifestFileView>) -> Seq<EntryView> {
    Seq::new(
        files.len(),
        |i: int|
            EntryView {
                bucket: files[i].bucket,
                name: files[i].name,
                path: files[i].path,
                manifest: spec_manifest_result(parsed_doc(files[i].bytes)),
            },
    )
}

/// Runs a whole scan over in-memory files: lower-cases the query once,
/// parses every file, and folds the evaluator over the outcomes.  The
/// result is exactly the fold over the work items that the files' bytes
/// determine, at the lower-cased query.
pub fn scan_bytes(files: &Vec<ManifestFile>, query: &str) -> (out: ScanOutcome)
    ensures
        out.matches.deep_view() == scan_matches(entries_of(files.deep_view()), lower_of(query@)),
        out.errors.deep_view() == scan_errors(entries_of(files.deep_view())),
{
    let ghost fv = files.deep_view();
    let query_lower = lowercase(query);
    let mut parsed: Vec<ParsedEntry> = Vec::new();
    let n: usize = files.len();
    let mut i: usize = 0;
    while i < n
        invariant
            fv == files.deep_view(),
            n == files@.len(),
            n == fv.len(),
            i <= n,
            parsed@.len() == i,
            parsed.deep_view() == entries_of(fv).take(i as int),
        decreases n - i,
    {
        let f = &files[i];
        let manifest = parse_manifest(f.bytes.as_slice());
        parsed.push(
            ParsedEntry {
                bucket: f.bucket.clone(),
                name: f.name.clone(),
                path: f.path.clone(),
                manifest,
            },
        );
        proof {
            assert(files@[i as int].deep_view() == fv[i as int]);
            assert(parsed@[i as int].deep_view() == entries_of(fv)[i as int]);
            assert(parsed.deep_view() =~= entries_of(fv).take(i + 1));
        }
        i = i + 1;
    }
    proof {
        assert(entries_of(fv).take(n as int) =~= entries_of(fv));
    }
    scan_parsed(&parsed, query_lower.as_str())
}

/// A value is reported as a match exactly when some work item produces
/// it: its manifest parsed, and the lower-cased name or description
/// contains the lower-cased query.
pub proof fn lemma_scan_matches_iff(entries: Seq<EntryView>, query_lower: Seq<char>, a: AppInfoView)
    ensures
        scan_matches(entries, query_lower).contains(a) <==> exists|i: int|
            0 <= i < entries.len() && entry_matches(#[trigger] entries[i], query_lower)
                && entry_info(entries[i]) == a,
    decreases entries.len(),
{
    if entries.len() > 0 {
        let rest = entries.drop_last();
        lemma_scan_matches_iff(rest, query_lower, a);
        let rm = scan_matches(rest, query_lower);
        let full = scan_matches(entries, query_lower);
        if entry_matches(entries.last(), query_lower) {
            assert(full == rm.push(entry_info(entries.last())));
            assert(full[rm.len() as int] == entry_info(entries.last()));
            assert(forall|k: int| 0 <= k < rm.len() ==> full[k] == rm[k]);
            assert(rm.contains(a) ==> full.contains(a));
        }
        if full.contains(a) && !rm.contains(a) {
            let k = choose|k: int| 0 <= k < full.len() && full[k] == a;
            assert(entry_matches(entries.last(), query_lower) && entry_info(entries.last()) == a);
            assert(entries[entries.len() - 1] == entries.last());
        }
        if exists|i: int|
            0 <= i < entries.len() && entry_matches(#[trigger] entries[i], query_lower)
                && entry_info(entries[i]) == a {
            let i = choose|i: int|
                0 <= i < entries.len() && entry_matches(#[trigger] entries[i], query_lower)
                    && entry_info(entries[i]) == a;
            if i < entries.len() - 1 {
                assert(rest[i] == entries[i]);
                assert(rm.contains(a));
                if entry_matches(entries.last(), query_lower) {
                    let k = choose|k: int| 0 <= k < rm.len() && rm[k] == a;
                    assert(full[k] == a);
                }
            } else {
                assert(entries[i] == entries.last());
            }
            assert(full.contains(a));
        }
    }
}

/// The reported match set is independent of the order in which the work
/// items are processed: runs over the same collection of work items, in
/// any order, report the same matches as a set.
pub proof fn lemma_scan_order_independent(
    entries1: Seq<EntryView>,
    entries2: Seq<EntryView>,
    query_lower: Seq<char>,
    a: AppInfoView,
)
    requires
        entries1.to_multiset() == entries2.to_multiset(),
    ensures
        scan_matches(entries1, query_lower).contains(a) <==> scan_matches(
            entries2,
            query_lower,
        ).contains(a),
{
    broadcast use vstd::seq_lib::group_to_multiset_ensures;

    lemma_scan_matches_iff(entries1, query_lower, a);
    lemma_scan_matches_iff(entries2, query_lower, a);
    assert forall|e: EntryView| entries1.contains(e) <==> entries2.contains(e) by {
        assert(entries1.contains(e) <==> entries1.to_multiset().count(e) > 0);
        assert(entries2.contains(e) <==> entries2.to_multiset().count(e) > 0);
    }
    if scan_matches(entries1, query_lower).contains(a) {
        let i = choose|i: int|
            0 <= i < entries1.len() && entry_matches(#[trigger] entries1[i], query_lower)
                && entry_info(entries1[i]) == a;
        assert(entries1.contains(entries1[i]));
        let k = choose|k: int| 0 <= k < entries2.len() && entries2[k] == entries1[i];
        assert(entry_matches(entries2[k], query_lower) && entry_info(entries2[k]) == a);
    }
    if scan_matches(entries2, query_lower).contains(a) {
        let i = choose|i: int|
            0 <= i < entries2.len() && entry_matches(#[trigger] entries2[i], query_lower)
                && entry_info(entries2[i]) == a;
        assert(entries2.contains(entries2[i]));
        let k = choose|k: int| 0 <= k < entries1.len() && entries1[k] == entries2[i];
        assert(entry_matches(entries1[k], query_lower) && entry_info(entries1[k]) == a);
    }
}

/// Removing one work item removes exactly its own contribution from the
/// multiset of reported matches.
proof fn lemma_scan_matches_remove(entries: Seq<EntryView>, query_lower: Seq<char>, k: int)
    requires
        0 <= k < entries.len(),
    ensures
        scan_matches(entries, query_lower).to_multiset() == if entry_matches(
            entries[k],
            query_lower,
        ) {
            scan_matches(entries.remove(k), query_lower).to_multiset().insert(
                entry_info(entries[k]),
            )
        } else {
            scan_matches(entries.remove(k), query_lower).to_multiset()
        },
    decreases entries.len(),
{
    broadcast use vstd::seq_lib::group_to_multiset_ensures;

    let last = entries.last();
    let rest = entries.drop_last();
    assert(last == entries[entries.len() - 1]);
    if k == entries.len() - 1 {
        assert(entries.remove(k) =~= rest);
    } else {
        lemma_scan_matches_remove(rest, query_lower, k);
        assert(entries[k] == rest[k]);
        assert(entries.remove(k).drop_last() =~= rest.remove(k));
        assert(entries.remove(k).last() == last);
        let rm = scan_matches(rest.remove(k), query_lower);
        if entry_matches(last, query_lower) {
            if entry_matches(entries[k], query_lower) {
                assert(rm.push(entry_info(last)).to_multiset() =~= rm.to_multiset().insert(
                    entry_info(last),
                ));
                assert(rm.to_multiset().insert(entry_info(last)).insert(entry_info(entries[k]))
                    =~= rm.to_multiset().insert(entry_info(entries[k])).insert(entry_info(last)));
            }
        }
    }
}

/// The multiset of reported matches is independent of processing order:
/// two scans over the same multiset of work items report the same
/// matches with the same multiplicities.  A worker pool of any size only
/// permutes the processing order, so every pool size delivers the same
/// multiset of match events; only arrival order may differ.
pub proof fn lemma_scan_multiset_independent(
    entries1: Seq<EntryView>,
    entries2: Seq<EntryView>,
    query_lower: Seq<char>,
)
    requires
        entries1.to_multiset() == entries2.to_multiset(),
    ensures
        scan_matches(entries1, query_lower).to_multiset() == scan_matches(
            entries2,
            query_lower,
        ).to_multiset(),
    decreases entries1.len(),
{
    broadcast use vstd::seq_lib::group_to_multiset_ensures;

    if entries1.len() == 0 {
        assert(entries2.to_multiset().len() == 0);
        assert(entries2.len() == 0);
    } else {
        let last = entries1.last();
        assert(last == entries1[entries1.len() - 1]);
        assert(entries1.contains(last));
        assert(entries2.to_multiset().count(last) > 0);
        assert(entries2.contains(last));
        let k = choose|k: int| 0 <= k < entries2.len() && entries2[k] == last;
        assert(entries1.remove(entries1.len() - 1) =~= entries1.drop_last());
        assert(entries1.drop_last().to_multiset() =~= entries1.to_multiset().remove(last));
        assert(entries2.remove(k).to_multiset() =~= entries2.to_multiset().remove(last));
        lemma_scan_multiset_independent(entries1.drop_last(), entries2.remove(k), query_lower);
        lemma_scan_matches_remove(entries2, query_lower, k);
        let rm = scan_matches(entries1.drop_last(), query_lower);
        if entry_matches(last, query_lower) {
            assert(rm.push(entry_info(last)).to_multiset() =~= rm.to_multiset().insert(
                entry_info(last),
            ));
        }
    }
}

/// The number of work items that satisfy the match condition.
pub open spec fn count_matching(entries: Seq<EntryView>, query_lower: Seq<char>) -> nat
    decreases entries.len(),
{
    if entries.len() == 0 {
        0
    } else {
        count_matching(entries.drop_last(), query_lower) + if entry_matches(
            entries.last(),
            query_lower,
        ) {
            1nat
        } else {
            0nat
        }
    }
}

/// Every matching work item is reported exactly once: the number of
/// reported matches equals the number of items satisfying the match
/// condition.
pub proof fn lemma_scan_each_once(entries: Seq<EntryView>, query_lower: Seq<char>)
    ensures
        scan_matches(entries, query_lower).len() == count_matching(entries, query_lower),
    decreases entries.len(),
{
    if entries.len() > 0 {
        lemma_scan_each_once(entries.drop_last(), query_lower);
    }
}

/// Work items that all parsed produce no errors.
pub proof fn lemma_no_faults_no_errors(entries: Seq<EntryView>)
    requires
        forall|i: int| 0 <= i < entries.len() ==> (#[trigger] entries[i]).manifest is Ok,
    ensures
        scan_errors(entries).len() == 0,
    decreases entries.len(),
{
    if entries.len() > 0 {
        assert(entries.last() == entries[entries.len() - 1]);
        lemma_no_faults_no_errors(entries.drop_last());
    }
}

/// A single malformed manifest among the work items is isolated: the
/// scan reports exactly one error, naming that file's path, and the
/// matches are exactly those of the same scan without the faulty item.
pub proof fn lemma_single_fault_isolated(entries: Seq<EntryView>, query_lower: Seq<char>, j: int)
    requires
        0 <= j < entries.len(),
        entries[j].manifest is Err,
        forall|i: int|
            0 <= i < entries.len() && i != j ==> (#[trigger] entries[i]).manifest is Ok,
    ensures
        scan_errors(entries).len() == 1,
        scan_errors(entries)[0].path == entries[j].path,
        scan_matches(entries, query_lower) == scan_matches(entries.remove(j), query_lower),
    decreases entries.len(),
{
    let rest = entries.drop_last();
    let last = entries.last();
    assert(last == entries[entries.len() - 1]);
    if j == entries.len() - 1 {
        assert(forall|i: int| 0 <= i < rest.len() ==> (#[trigger] rest[i]).manifest is Ok);
        lemma_no_faults_no_errors(rest);
        assert(scan_errors(entries) == scan_errors(rest).push(
            ScanErrorView { path: last.path, message: last.manifest->Err_0 },
        ));
        assert(scan_errors(entries)[0].path == entries[j].path);
        assert(!entry_matches(last, query_lower));
        assert(entries.remove(j) =~= rest);
    } else {
        assert(forall|i: int| 0 <= i < rest.len() && i != j ==> (#[trigger] rest[i]).manifest is Ok);
        lemma_single_fault_isolated(rest, query_lower, j);
        assert(last.manifest is Ok);
        assert(entries.remove(j).drop_last() =~= rest.remove(j));
        assert(entries.remove(j).last() == last);
        assert(entries.remove(j).len() > 0);
    }
}

/// The events a scan delivers, in processing order: what the evaluator
/// reports for each work item, with silent items leaving no event.  The
/// end-of-stream signal is not among them; the coordinator sends it once,
/// after all of these.
pub open spec fn scan_events(entries: Seq<EntryView>, query_lower: Seq<char>) -> Seq<MessageView>
    decreases entries.len(),
{
    if entries.len() == 0 {
        Seq::empty()
    } else {
        let rest = scan_events(entries.drop_last(), query_lower);
        match spec_evaluate(entries.last(), query_lower) {
            Some(m) => rest.push(m),
            None => rest,
        }
    }
}

/// A sink that has consumed a scan's events, but not yet the
/// end-of-stream signal, holds exactly the scan's matches and errors and
/// is still running.
proof fn lemma_events_fold(entries: Seq<EntryView>, query_lower: Seq<char>)
    ensures
        sink_run(empty_sink(), scan_events(entries, query_lower)) == (SinkView {
            matches: scan_matches(entries, query_lower),
            errors: scan_errors(entries),
            done: false,
        }),
    decreases entries.len(),
{
    if entries.len() == 0 {
        assert(scan_matches(entries, query_lower) =~= Seq::<AppInfoView>::empty());
        assert(scan_errors(entries) =~= Seq::<ScanErrorView>::empty());
    } else {
        let rest = entries.drop_last();
        let last = entries.last();
        lemma_events_fold(rest, query_lower);
        let folded = SinkView {
            matches: scan_matches(rest, query_lower),
            errors: scan_errors(rest),
            done: false,
        };
        match spec_evaluate(last, query_lower) {
            Some(m) => {
                lemma_sink_run_snoc(empty_sink(), scan_events(rest, query_lower), m);
                assert(sink_run(empty_sink(), scan_events(entries, query_lower)) == sink_step(
                    folded,
                    m,
                ));
            },
            None => {},
        }
    }
}

/// The coordinator's stream reaches the sink whole: consuming a scan's
/// events and then the end-of-stream signal, delivered exactly once after
/// all of them, leaves the sink complete and holding exactly the scan's
/// matches and errors, in delivery order.
pub proof fn lemma_scan_stream_complete(entries: Seq<EntryView>, query_lower: Seq<char>)
    ensures
        sink_run(empty_sink(), scan_events(entries, query_lower).push(MessageView::Close)) == (
        SinkView {
            matches: scan_matches(entries, query_lower),
            errors: scan_errors(entries),
            done: true,
        }),
{
    lemma_events_fold(entries, query_lower);
    lemma_sink_run_snoc(empty_sink(), scan_events(entries, query_lower), MessageView::Close);
}

/// The scan is a function of the tree it is given: the contract of
/// [`scan_bytes`] fixes the outcome by the files' bytes, names, buckets
/// and paths and by the query alone, so two scans of an unchanged tree
/// with the same query report the same matches and the same errors.  The
/// premises here are two instances of that contract.
pub proof fn lemma_scan_deterministic(
    files: Seq<ManifestFileView>,
    query: Seq<char>,
    out1: ScanOutcomeView,
    out2: ScanOutcomeView,
)
    requires
        out1.matches == scan_matches(entries_of(files), lower_of(query)),
        out1.errors == scan_errors(entries_of(files)),
        out2.matches == scan_matches(entries_of(files), lower_of(query)),
        out2.errors == scan_errors(entries_of(files)),
    ensures
        out1.matches == out2.matches,
        out1.errors == out2.errors,
{
}

} // verus!
