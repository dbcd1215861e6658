//! The job resource and its recorded status.

use vstd::prelude::*;
use crate::envvars::{
    is_text_le, lemma_text_antisymmetric, lemma_text_total, lemma_text_transitive, text_le,
};
use crate::k8s::{ObjectMeta, ObjectMetaView};
use crate::plain::Plain;
use crate::strmap::StrMap;
use crate::text::same_text;

verus! {

/// The completion of one pod, kept until the controller has acknowledged it.
#[derive(Clone, Debug, Default)]
pub struct PodCompletionDelivery {
    pub pod_name: String,
    pub pod_uid: String,
    pub job_id: u32,
    pub state: i32,
    pub exit_code: i32,
    pub signal: i32,
    pub message: String,
    pub reporting_node: String,
    pub run_attempt: u32,
    pub submission_generation: String,
    pub submission_token: String,
    pub worker_incarnation: String,
    pub pod_dispatch_token: String,
    pub delivered: bool,
}

/// What a [`PodCompletionDelivery`] holds.
#[verifier::ext_equal]
pub struct PodCompletionDeliveryView {
    pub pod_name: Seq<char>,
    pub pod_uid: Seq<char>,
    pub job_id: u32,
    pub state: i32,
    pub exit_code: i32,
    pub signal: i32,
    pub message: Seq<char>,
    pub reporting_node: Seq<char>,
    pub run_attempt: u32,
    pub submission_generation: Seq<char>,
    pub submission_token: Seq<char>,
    pub worker_incarnation: Seq<char>,
    pub pod_dispatch_token: Seq<char>,
    pub delivered: bool,
}

impl View for PodCompletionDelivery {
    type V = PodCompletionDeliveryView;

    open spec fn view(&self) -> PodCompletionDeliveryView {
        PodCompletionDeliveryView {
            pod_name: self.pod_name.deep_view(),
            pod_uid: self.pod_uid.deep_view(),
            job_id: self.job_id.deep_view(),
            state: self.state.deep_view(),
            exit_code: self.exit_code.deep_view(),
            signal: self.signal.deep_view(),
            message: self.message.deep_view(),
            reporting_node: self.reporting_node.deep_view(),
            run_attempt: self.run_attempt.deep_view(),
            submission_generation: self.submission_generation.deep_view(),
            submission_token: self.submission_token.deep_view(),
            worker_incarnation: self.worker_incarnation.deep_view(),
            pod_dispatch_token: self.pod_dispatch_token.deep_view(),
            delivered: self.delivered.deep_view(),
        }
    }
}

impl DeepView for PodCompletionDelivery {
    type V = PodCompletionDeliveryView;

    open spec fn deep_view(&self) -> PodCompletionDeliveryView {
        self@
    }
}

impl Plain for PodCompletionDelivery {
    fn equals(&self, other: &Self) -> (same: bool) {
        self.pod_name.equals(&other.pod_name)
            && self.pod_uid.equals(&other.pod_uid)
            && self.job_id.equals(&other.job_id)
            && self.state.equals(&other.state)
            && self.exit_code.equals(&other.exit_code)
            && self.signal.equals(&other.signal)
            && self.message.equals(&other.message)
            && self.reporting_node.equals(&other.reporting_node)
            && self.run_attempt.equals(&other.run_attempt)
            && self.submission_generation.equals(&other.submission_generation)
            && self.submission_token.equals(&other.submission_token)
            && self.worker_incarnation.equals(&other.worker_incarnation)
            && self.pod_dispatch_token.equals(&other.pod_dispatch_token)
            && self.delivered.equals(&other.delivered)
    }

    fn copy_of(&self) -> (out: Self) {
        PodCompletionDelivery {
            pod_name: self.pod_name.copy_of(),
            pod_uid: self.pod_uid.copy_of(),
            job_id: self.job_id.copy_of(),
            state: self.state.copy_of(),
            exit_code: self.exit_code.copy_of(),
            signal: self.signal.copy_of(),
            message: self.message.copy_of(),
            reporting_node: self.reporting_node.copy_of(),
            run_attempt: self.run_attempt.copy_of(),
            submission_generation: self.submission_generation.copy_of(),
            submission_token: self.submission_token.copy_of(),
            worker_incarnation: self.worker_incarnation.copy_of(),
            pod_dispatch_token: self.pod_dispatch_token.copy_of(),
            delivered: self.delivered.copy_of(),
        }
    }
}

/// A completion under the UID of its pod.
#[derive(Clone, Debug, Default)]
pub struct CompletionEntry {
    pub pod_uid: String,
    pub delivery: PodCompletionDelivery,
}

/// What a [`CompletionEntry`] holds.
#[verifier::ext_equal]
pub struct CompletionEntryView {
    pub pod_uid: Seq<char>,
    pub delivery: PodCompletionDeliveryView,
}

impl View for CompletionEntry {
    type V = CompletionEntryView;

    open spec fn view(&self) -> CompletionEntryView {
        CompletionEntryView {
            pod_uid: self.pod_uid.deep_view(),
            delivery: self.delivery.deep_view(),
        }
    }
}

impl DeepView for CompletionEntry {
    type V = CompletionEntryView;

    open spec fn deep_view(&self) -> CompletionEntryView {
        self@
    }
}

impl Plain for CompletionEntry {
    fn equals(&self, other: &Self) -> (same: bool) {
        self.pod_uid.equals(&other.pod_uid)
            && self.delivery.equals(&other.delivery)
    }

    fn copy_of(&self) -> (out: Self) {
        CompletionEntry {
            pod_uid: self.pod_uid.copy_of(),
            delivery: self.delivery.copy_of(),
        }
    }
}

/// What the operator has recorded about a submitted job.
#[derive(Clone, Debug, Default)]
pub struct SpurJobStatus {
    pub state: String,
    pub spur_job_id: Option<u32>,
    pub submission_generation: Option<String>,
    pub submission_token: Option<String>,
    pub launch_spec_sha256: Option<String>,
    pub assigned_nodes: Vec<String>,
    pub message: Option<String>,
    pub pod_uids: StrMap,
    pub pod_dispatch_tokens: StrMap,
    pub service_uids: StrMap,
    pub service_dispatch_tokens: StrMap,
    pub completion_deliveries: Vec<CompletionEntry>,
}

/// What a [`SpurJobStatus`] holds.
#[verifier::ext_equal]
pub struct SpurJobStatusView {
    pub state: Seq<char>,
    pub spur_job_id: Option<u32>,
    pub submission_generation: Option<Seq<char>>,
    pub submission_token: Option<Seq<char>>,
    pub launch_spec_sha256: Option<Seq<char>>,
    pub assigned_nodes: Seq<Seq<char>>,
    pub message: Option<Seq<char>>,
    pub pod_uids: Map<Seq<char>, Seq<char>>,
    pub pod_dispatch_tokens: Map<Seq<char>, Seq<char>>,
    pub service_uids: Map<Seq<char>, Seq<char>>,
    pub service_dispatch_tokens: Map<Seq<char>, Seq<char>>,
    pub completion_deliveries: Seq<CompletionEntryView>,
}

impl View for SpurJobStatus {
    type V = SpurJobStatusView;

    open spec fn view(&self) -> SpurJobStatusView {
        SpurJobStatusView {
            state: self.state.deep_view(),
            spur_job_id: self.spur_job_id.deep_view(),
            submission_generation: self.submission_generation.deep_view(),
            submission_token: self.submission_token.deep_view(),
            launch_spec_sha256: self.launch_spec_sha256.deep_view(),
            assigned_nodes: self.assigned_nodes.deep_view(),
            message: self.message.deep_view(),
            pod_uids: self.pod_uids.deep_view(),
            pod_dispatch_tokens: self.pod_dispatch_tokens.deep_view(),
            service_uids: self.service_uids.deep_view(),
            service_dispatch_tokens: self.service_dispatch_tokens.deep_view(),
            completion_deliveries: self.completion_deliveries.deep_view(),
        }
    }
}

impl DeepView for SpurJobStatus {
    type V = SpurJobStatusView;

    open spec fn deep_view(&self) -> SpurJobStatusView {
        self@
    }
}

impl Plain for SpurJobStatus {
    fn equals(&self, other: &Self) -> (same: bool) {
        self.state.equals(&other.state)
            && self.spur_job_id.equals(&other.spur_job_id)
            && self.submission_generation.equals(&other.submission_generation)
            && self.submission_token.equals(&other.submission_token)
            && self.launch_spec_sha256.equals(&other.launch_spec_sha256)
            && self.assigned_nodes.equals(&other.assigned_nodes)
            && self.message.equals(&other.message)
            && self.pod_uids.equals(&other.pod_uids)
            && self.pod_dispatch_tokens.equals(&other.pod_dispatch_tokens)
            && self.service_uids.equals(&other.service_uids)
            && self.service_dispatch_tokens.equals(&other.service_dispatch_tokens)
            && self.completion_deliveries.equals(&other.completion_deliveries)
    }

    fn copy_of(&self) -> (out: Self) {
        SpurJobStatus {
            state: self.state.copy_of(),
            spur_job_id: self.spur_job_id.copy_of(),
            submission_generation: self.submission_generation.copy_of(),
            submission_token: self.submission_token.copy_of(),
            launch_spec_sha256: self.launch_spec_sha256.copy_of(),
            assigned_nodes: self.assigned_nodes.copy_of(),
            message: self.message.copy_of(),
            pod_uids: self.pod_uids.copy_of(),
            pod_dispatch_tokens: self.pod_dispatch_tokens.copy_of(),
            service_uids: self.service_uids.copy_of(),
            service_dispatch_tokens: self.service_dispatch_tokens.copy_of(),
            completion_deliveries: self.completion_deliveries.copy_of(),
        }
    }
}

/// The parts of a job description that decisions are made from.
#[derive(Clone, Debug, Default)]
pub struct SpurJobSpec {
    pub array_spec: Option<String>,
    /// Environment variables taken from secrets, each as `secret/key`.
    pub secret_env: StrMap,
}

/// What a [`SpurJobSpec`] holds.
#[verifier::ext_equal]
pub struct SpurJobSpecView {
    pub array_spec: Option<Seq<char>>,
    pub secret_env: Map<Seq<char>, Seq<char>>,
}

impl View for SpurJobSpec {
    type V = SpurJobSpecView;

    open spec fn view(&self) -> SpurJobSpecView {
        SpurJobSpecView {
            array_spec: self.array_spec.deep_view(),
            secret_env: self.secret_env.deep_view(),
        }
    }
}

impl DeepView for SpurJobSpec {
    type V = SpurJobSpecView;

    open spec fn deep_view(&self) -> SpurJobSpecView {
        self@
    }
}

impl Plain for SpurJobSpec {
    fn equals(&self, other: &Self) -> (same: bool) {
        self.array_spec.equals(&other.array_spec)
            && self.secret_env.equals(&other.secret_env)
    }

    fn copy_of(&self) -> (out: Self) {
        SpurJobSpec {
            array_spec: self.array_spec.copy_of(),
            secret_env: self.secret_env.copy_of(),
        }
    }
}

/// A job as the cluster stores it.
#[derive(Clone, Debug, Default)]
pub struct SpurJob {
    pub metadata: ObjectMeta,
    pub spec: SpurJobSpec,
    pub status: Option<SpurJobStatus>,
}

/// What a [`SpurJob`] holds.
#[verifier::ext_equal]
pub struct SpurJobView {
    pub metadata: ObjectMetaView,
    pub spec: SpurJobSpecView,
    pub status: Option<SpurJobStatusView>,
}

impl View for SpurJob {
    type V = SpurJobView;

    open spec fn view(&self) -> SpurJobView {
        SpurJobView {
            metadata: self.metadata.deep_view(),
            spec: self.spec.deep_view(),
            status: self.status.deep_view(),
        }
    }
}

impl DeepView for SpurJob {
    type V = SpurJobView;

    open spec fn deep_view(&self) -> SpurJobView {
        self@
    }
}

impl Plain for SpurJob {
    fn equals(&self, other: &Self) -> (same: bool) {
        self.metadata.equals(&other.metadata)
            && self.spec.equals(&other.spec)
            && self.status.equals(&other.status)
    }

    fn copy_of(&self) -> (out: Self) {
        SpurJob {
            metadata: self.metadata.copy_of(),
            spec: self.spec.copy_of(),
            status: self.status.copy_of(),
        }
    }
}

impl SpurJobStatusView {
    /// The completions are stored by UID, each UID once.
    pub open spec fn wf(self) -> bool {
        ascending(self.completion_deliveries)
    }

    /// The completion stored under `uid`.
    pub open spec fn completion(self, uid: Seq<char>) -> Option<PodCompletionDeliveryView> {
        completion_under(self.completion_deliveries, uid)
    }
}

/// Whether entries stand in the order of their UIDs, each UID once.
pub open spec fn ascending(entries: Seq<CompletionEntryView>) -> bool {
    forall|i: int, j: int|
        0 <= i < j < entries.len() ==> {
            &&& text_le((#[trigger] entries[i]).pod_uid, (#[trigger] entries[j]).pod_uid)
            &&& entries[i].pod_uid != entries[j].pod_uid
        }
}

/// The entries with this one among them: in place of the one with its UID, or
/// before the first that comes after it.
pub open spec fn filed(
    entries: Seq<CompletionEntryView>,
    entry: CompletionEntryView,
) -> Seq<CompletionEntryView>
    decreases entries.len(),
{
    if entries.len() == 0 {
        seq![entry]
    } else if entries[0].pod_uid == entry.pod_uid {
        seq![entry] + entries.skip(1)
    } else if text_le(entry.pod_uid, entries[0].pod_uid) {
        seq![entry] + entries
    } else {
        seq![entries[0]] + filed(entries.skip(1), entry)
    }
}

/// The first entry stored under `uid`.
pub open spec fn completion_under(
    entries: Seq<CompletionEntryView>,
    uid: Seq<char>,
) -> Option<PodCompletionDeliveryView>
    decreases entries.len(),
{
    if entries.len() == 0 {
        None
    } else if entries[0].pod_uid == uid {
        Some(entries[0].delivery)
    } else {
        completion_under(entries.skip(1), uid)
    }
}

/// Stores an entry under its UID.
pub fn file_completion(entries: &mut Vec<CompletionEntry>, entry: CompletionEntry)
    ensures
        final(entries).deep_view() == filed(old(entries).deep_view(), entry@),
{
    let ghost items = entries.deep_view();
    let mut i: usize = 0;
    proof {
        assert(items.skip(0) =~= items);
        assert(items.take(0) + filed(items, entry@) =~= filed(items, entry@));
    }
    while i < entries.len() && !is_text_le(entry.pod_uid.as_str(), entries[i].pod_uid.as_str())
        invariant
            i <= entries@.len(),
            items == entries.deep_view(),
            filed(items, entry@) == items.take(i as int) + filed(items.skip(i as int), entry@),
        decreases entries@.len() - i,
    {
        let ghost rest = items.skip(i as int);
        proof {
            assert(rest[0] == entries@[i as int]@);
            if rest[0].pod_uid == entry@.pod_uid {
                lemma_text_total(entry@.pod_uid, rest[0].pod_uid);
            }
            assert(rest.skip(1) =~= items.skip(i + 1));
            assert(items.take(i as int) + (seq![rest[0]] + filed(rest.skip(1), entry@))
                =~= items.take(i + 1) + filed(items.skip(i + 1), entry@));
        }
        i = i + 1;
    }
    let ghost rest = items.skip(i as int);
    if i < entries.len() && entries[i].pod_uid == entry.pod_uid {
        let ghost given = entry@;
        proof {
            assert(rest[0] == entries@[i as int]@);
        }
        entries.set(i, entry);
        proof {
            assert(entries.deep_view() =~= items.take(i as int) + (seq![given] + rest.skip(1)));
        }
    } else {
        let ghost given = entry@;
        proof {
            if i < entries@.len() {
                assert(rest[0] == entries@[i as int]@);
            }
        }
        entries.insert(i, entry);
        proof {
            assert(entries.deep_view() =~= items.take(i as int) + (seq![given] + rest));
            if rest.len() == 0 {
                assert(seq![given] + rest =~= seq![given]);
            }
        }
    }
}

/// What is stored under a UID is found there, and what is stored under others is
/// not touched.
pub proof fn law_filed_completion_is_found(
    entries: Seq<CompletionEntryView>,
    entry: CompletionEntryView,
    uid: Seq<char>,
)
    ensures
        completion_under(filed(entries, entry), uid) == if uid == entry.pod_uid {
            Some(entry.delivery)
        } else {
            completion_under(entries, uid)
        },
    decreases entries.len(),
{
    let after = filed(entries, entry);
    if entries.len() == 0 {
        assert(after.skip(1) =~= entries);
    } else if entries[0].pod_uid == entry.pod_uid {
        assert(after.skip(1) =~= entries.skip(1));
    } else if text_le(entry.pod_uid, entries[0].pod_uid) {
        assert(after.skip(1) =~= entries);
    } else {
        law_filed_completion_is_found(entries.skip(1), entry, uid);
        assert(after.skip(1) =~= filed(entries.skip(1), entry));
    }
}

proof fn lemma_filed_from(
    entries: Seq<CompletionEntryView>,
    entry: CompletionEntryView,
    least: Seq<char>,
)
    requires
        text_le(least, entry.pod_uid) && least != entry.pod_uid,
        forall|i: int|
            0 <= i < entries.len() ==> text_le(least, (#[trigger] entries[i]).pod_uid) && least
                != entries[i].pod_uid,
    ensures
        forall|i: int|
            0 <= i < filed(entries, entry).len() ==> text_le(
                least,
                (#[trigger] filed(entries, entry)[i]).pod_uid,
            ) && least != filed(entries, entry)[i].pod_uid,
    decreases entries.len(),
{
    if entries.len() > 0 && entries[0].pod_uid != entry.pod_uid && !text_le(
        entry.pod_uid,
        entries[0].pod_uid,
    ) {
        lemma_filed_from(entries.skip(1), entry, least);
        let rest = filed(entries.skip(1), entry);
        assert forall|i: int| 0 <= i < filed(entries, entry).len() implies text_le(
            least,
            (#[trigger] filed(entries, entry)[i]).pod_uid,
        ) && least != filed(entries, entry)[i].pod_uid by {
            if i > 0 {
                assert(filed(entries, entry)[i] == rest[i - 1]);
            }
        }
    }
}

/// The order of the entries is kept when one is stored.
pub proof fn law_filing_keeps_the_order(
    entries: Seq<CompletionEntryView>,
    entry: CompletionEntryView,
)
    requires
        ascending(entries),
    ensures
        ascending(filed(entries, entry)),
    decreases entries.len(),
{
    let after = filed(entries, entry);
    if entries.len() > 0 {
        let first = entries[0];
        if first.pod_uid == entry.pod_uid {
            assert forall|i: int, j: int| 0 <= i < j < after.len() implies {
                &&& text_le((#[trigger] after[i]).pod_uid, (#[trigger] after[j]).pod_uid)
                &&& after[i].pod_uid != after[j].pod_uid
            } by {
                assert(after[i].pod_uid == entries[i].pod_uid);
                assert(after[j].pod_uid == entries[j].pod_uid);
            }
        } else if text_le(entry.pod_uid, first.pod_uid) {
            assert forall|i: int, j: int| 0 <= i < j < after.len() implies {
                &&& text_le((#[trigger] after[i]).pod_uid, (#[trigger] after[j]).pod_uid)
                &&& after[i].pod_uid != after[j].pod_uid
            } by {
                assert(after[j] == entries[j - 1]);
                if i > 0 {
                    assert(after[i] == entries[i - 1]);
                } else if j > 1 {
                    assert(text_le(entries[0].pod_uid, entries[j - 1].pod_uid));
                    lemma_text_transitive(entry.pod_uid, first.pod_uid, entries[j - 1].pod_uid);
                    if entry.pod_uid == entries[j - 1].pod_uid {
                        lemma_text_antisymmetric(first.pod_uid, entry.pod_uid);
                    }
                }
            }
        } else {
            let tail = entries.skip(1);
            assert forall|i: int, j: int| 0 <= i < j < tail.len() implies {
                &&& text_le((#[trigger] tail[i]).pod_uid, (#[trigger] tail[j]).pod_uid)
                &&& tail[i].pod_uid != tail[j].pod_uid
            } by {
                assert(tail[i] == entries[i + 1]);
                assert(tail[j] == entries[j + 1]);
            }
            law_filing_keeps_the_order(tail, entry);
            lemma_text_total(first.pod_uid, entry.pod_uid);
            assert forall|i: int| 0 <= i < tail.len() implies text_le(
                first.pod_uid,
                (#[trigger] tail[i]).pod_uid,
            ) && first.pod_uid != tail[i].pod_uid by {
                assert(tail[i] == entries[i + 1]);
            }
            lemma_filed_from(tail, entry, first.pod_uid);
            let rest = filed(tail, entry);
            assert forall|i: int, j: int| 0 <= i < j < after.len() implies {
                &&& text_le((#[trigger] after[i]).pod_uid, (#[trigger] after[j]).pod_uid)
                &&& after[i].pod_uid != after[j].pod_uid
            } by {
                assert(after[j] == rest[j - 1]);
                if i > 0 {
                    assert(after[i] == rest[i - 1]);
                }
            }
        }
    }
}

impl SpurJobStatus {
    /// The completion stored under `uid`.
    pub fn completion(&self, uid: &str) -> (found: Option<&PodCompletionDelivery>)
        ensures
            match found {
                Some(d) => self@.completion(uid@) == Some(d@),
                None => self@.completion(uid@) is None,
            },
    {
        let mut i: usize = 0;
        proof {
            assert(self@.completion_deliveries.skip(0) =~= self@.completion_deliveries);
        }
        while i < self.completion_deliveries.len()
            invariant
                i <= self.completion_deliveries@.len(),
                self@.completion(uid@) == completion_under(self@.completion_deliveries.skip(i as int), uid@),
            decreases self.completion_deliveries@.len() - i,
        {
            let ghost rest = self@.completion_deliveries.skip(i as int);
            proof {
                assert(rest[0] == self.completion_deliveries@[i as int]@);
                assert(rest.skip(1) =~= self@.completion_deliveries.skip(i + 1));
            }
            if same_text(self.completion_deliveries[i].pod_uid.as_str(), uid) {
                return Some(&self.completion_deliveries[i].delivery);
            }
            i = i + 1;
        }
        None
    }
}

} // verus!
