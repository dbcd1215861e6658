//! Preparing and releasing PMIx on the nodes of a job.

use vstd::prelude::*;
use crate::execution_identity::{is_blank, is_blank_str};
use crate::submission::{node_names, nodes_of};
use crate::text::{
    decimal, is_digit, join2, join3, join_all, joined, law_decimal_injective, lemma_decimal_digits,
    same_text, u32_text,
};

verus! {

/// The name of the MPI flavour that needs PMIx.
pub const MPI_PMIX: &'static str = "pmix";

pub const MULTI_NODE_PMIX_K8S_UNSUPPORTED: &'static str =
    "multi-node PMIx is not supported on K8s virtual agents";

/// Where a node comes from.
#[derive(Clone, Debug, PartialEq, Eq)]
pub enum NodeSource {
    NativeHost,
    Kubernetes { namespace: String },
}

/// Whether a known node is a virtual worker.
pub open spec fn is_virtual(source: Option<NodeSource>) -> bool {
    source matches Some(NodeSource::Kubernetes { .. })
}

/// The nodes that a job with PMIx on several nodes is pinned to.
pub open spec fn pinned_nodes(mpi: Seq<char>, num_nodes: u32, nodelist: Option<&str>) -> Seq<
    Seq<char>,
> {
    if mpi != MPI_PMIX@ || num_nodes <= 1 {
        Seq::empty()
    } else {
        match nodelist {
            None => Seq::empty(),
            Some(list) => if list@.len() == 0 {
                Seq::empty()
            } else {
                nodes_of(list@)
            },
        }
    }
}

/// Whether `node_source`, asked about `name`, may answer that it is, or that it
/// is not, a virtual worker.
pub open spec fn answers<F: Fn(&str) -> Option<NodeSource>>(
    node_source: F,
    name: Seq<char>,
    virtual_worker: bool,
) -> bool {
    exists|text: &str, source: Option<NodeSource>| #[trigger]
        call_ensures(node_source, (text,), source) && text@ == name && is_virtual(source)
            == virtual_worker
}

/// Whether a job with this MPI flavour may be pinned to these nodes.
pub fn validate_multi_node_pmix_nodelist<F: Fn(&str) -> Option<NodeSource>>(
    mpi: &str,
    num_nodes: u32,
    nodelist: Option<&str>,
    node_source: F,
) -> (out: Result<(), String>)
    requires
        forall|text: &str| call_requires(node_source, (text,)),
    ensures
        match out {
            Ok(_) => forall|i: int|
                #![trigger pinned_nodes(mpi@, num_nodes, nodelist)[i]]
                0 <= i < pinned_nodes(mpi@, num_nodes, nodelist).len() && pinned_nodes(
                    mpi@,
                    num_nodes,
                    nodelist,
                )[i].len() > 0 ==> answers(
                    node_source,
                    pinned_nodes(mpi@, num_nodes, nodelist)[i],
                    false,
                ),
            Err(message) => message@ == MULTI_NODE_PMIX_K8S_UNSUPPORTED@ && exists|i: int|
                0 <= i < pinned_nodes(mpi@, num_nodes, nodelist).len() && (
                #[trigger] pinned_nodes(mpi@, num_nodes, nodelist)[i]).len() > 0 && answers(
                    node_source,
                    pinned_nodes(mpi@, num_nodes, nodelist)[i],
                    true,
                ),
        },
{
    if !same_text(mpi, MPI_PMIX) || num_nodes <= 1 {
        return Ok(());
    }
    let list: &str = match nodelist {
        None => return Ok(()),
        Some(list) => list,
    };
    if is_blank_str(list) {
        return Ok(());
    }
    let names: Vec<String> = node_names(list);
    let ghost pinned = nodes_of(list@);
    let mut i: usize = 0;
    while i < names.len()
        invariant
            i <= names@.len(),
            names.deep_view() == pinned,
            pinned == pinned_nodes(mpi@, num_nodes, nodelist),
            forall|text: &str| call_requires(node_source, (text,)),
            forall|j: int|
                0 <= j < i && (#[trigger] pinned[j]).len() > 0 ==> answers(
                    node_source,
                    pinned[j],
                    false,
                ),
        decreases names@.len() - i,
    {
        proof {
            assert(names.deep_view()[i as int] == names@[i as int]@);
        }
        if !is_blank(&names[i]) {
            let name: &str = names[i].as_str();
            let source: Option<NodeSource> = node_source(name);
            proof {
                assert(call_ensures(node_source, (name,), source));
            }
            match source {
                Some(NodeSource::Kubernetes { .. }) => {
                    proof {
                        assert(answers(node_source, pinned[i as int], true));
                    }
                    return Err(MULTI_NODE_PMIX_K8S_UNSUPPORTED.to_owned());
                },
                _ => {
                    proof {
                        assert(answers(node_source, pinned[i as int], false));
                    }
                },
            }
        }
        i = i + 1;
    }
    Ok(())
}

/// Why PMIx cannot run on these nodes, where it cannot.
pub fn multi_node_pmix_unsupported(sources: &Vec<NodeSource>) -> (out: Option<String>)
    ensures
        match out {
            Some(message) => message@ == MULTI_NODE_PMIX_K8S_UNSUPPORTED@ && exists|i: int|
                0 <= i < sources@.len() && #[trigger] sources@[i] is Kubernetes,
            None => forall|i: int|
                0 <= i < sources@.len() ==> #[trigger] sources@[i] is NativeHost,
        },
{
    let mut i: usize = 0;
    while i < sources.len()
        invariant
            i <= sources@.len(),
            forall|j: int| 0 <= j < i ==> #[trigger] sources@[j] is NativeHost,
        decreases sources@.len() - i,
    {
        match &sources[i] {
            NodeSource::Kubernetes { .. } => {
                return Some(MULTI_NODE_PMIX_K8S_UNSUPPORTED.to_owned());
            },
            NodeSource::NativeHost => {},
        }
        i = i + 1;
    }
    None
}

/// The token of a batch launch: its submission and attempt.
pub open spec fn batch_token(submission_generation: Seq<char>, run_attempt: u32) -> Seq<char> {
    "batch:"@ + submission_generation + ":"@ + decimal(run_attempt as nat)
}

/// The token of a step: its submission, attempt and number.
pub open spec fn step_token(
    submission_generation: Seq<char>,
    run_attempt: u32,
    step_id: u32,
) -> Seq<char> {
    "step:"@ + submission_generation + ":"@ + decimal(run_attempt as nat) + ":"@ + decimal(
        step_id as nat,
    )
}

/// The token of a batch launch. Every request about what was prepared carries it,
/// so that none can use or undo what was prepared for another launch of the job.
pub fn batch_prepare_token(submission_generation: &str, run_attempt: u32) -> (out: String)
    ensures
        out@ == batch_token(submission_generation@, run_attempt),
{
    let attempt = u32_text(run_attempt);
    let head = join3("batch:", submission_generation, ":");
    join2(head.as_str(), attempt.as_str())
}

/// The token of a step.
pub fn step_prepare_token(submission_generation: &str, run_attempt: u32, step_id: u32) -> (out:
    String)
    ensures
        out@ == step_token(submission_generation@, run_attempt, step_id),
{
    let attempt = u32_text(run_attempt);
    let step = u32_text(step_id);
    let head = join3("step:", submission_generation, ":");
    let tail = join3(attempt.as_str(), ":", step.as_str());
    let out = join2(head.as_str(), tail.as_str());
    proof {
        assert(out@ =~= step_token(submission_generation@, run_attempt, step_id));
    }
    out
}

/// Two texts that end in a colon and digits are equal only if the digits are, and
/// what stands before the colon.
proof fn lemma_last_colon(a: Seq<char>, m: Seq<char>, b: Seq<char>, n: Seq<char>)
    requires
        a + ":"@ + m == b + ":"@ + n,
        forall|i: int| 0 <= i < m.len() ==> is_digit(#[trigger] m[i]),
        forall|i: int| 0 <= i < n.len() ==> is_digit(#[trigger] n[i]),
    ensures
        a == b,
        m == n,
{
    reveal_strlit(":");
    let left = a + ":"@ + m;
    let right = b + ":"@ + n;
    assert(left.len() == a.len() + 1 + m.len());
    assert(right.len() == b.len() + 1 + n.len());
    assert(left[a.len() as int] == ':');
    assert(right[b.len() as int] == ':');
    if a.len() < b.len() {
        assert(left[b.len() as int] == m[b.len() - a.len() - 1]);
        assert(is_digit(m[b.len() - a.len() - 1]));
        assert(false);
    }
    if b.len() < a.len() {
        assert(right[a.len() as int] == n[a.len() - b.len() - 1]);
        assert(is_digit(n[a.len() - b.len() - 1]));
        assert(false);
    }
    assert(a =~= left.take(a.len() as int));
    assert(b =~= right.take(b.len() as int));
    assert(m =~= left.skip(a.len() as int + 1));
    assert(n =~= right.skip(b.len() as int + 1));
}

/// A token stands for one launch: two batch launches share it only if they are
/// the same submission and attempt, and so do two steps only if their numbers
/// agree too; and no step shares it with a batch launch.
pub proof fn law_tokens_tell_launches_apart(
    generation: Seq<char>,
    attempt: u32,
    step: u32,
    other_generation: Seq<char>,
    other_attempt: u32,
    other_step: u32,
)
    ensures
        batch_token(generation, attempt) == batch_token(other_generation, other_attempt)
            ==> generation == other_generation && attempt == other_attempt,
        step_token(generation, attempt, step) == step_token(
            other_generation,
            other_attempt,
            other_step,
        ) ==> generation == other_generation && attempt == other_attempt && step == other_step,
        batch_token(generation, attempt) != step_token(
            other_generation,
            other_attempt,
            other_step,
        ),
{
    reveal_strlit("batch:");
    reveal_strlit("step:");
    lemma_decimal_digits(attempt as nat);
    lemma_decimal_digits(other_attempt as nat);
    lemma_decimal_digits(step as nat);
    lemma_decimal_digits(other_step as nat);
    let a = decimal(attempt as nat);
    let b = decimal(other_attempt as nat);
    if batch_token(generation, attempt) == batch_token(other_generation, other_attempt) {
        lemma_last_colon("batch:"@ + generation, a, "batch:"@ + other_generation, b);
        law_decimal_injective(attempt as nat, other_attempt as nat);
        assert(("batch:"@ + generation).skip(6) =~= generation);
        assert(("batch:"@ + other_generation).skip(6) =~= other_generation);
    }
    if step_token(generation, attempt, step) == step_token(
        other_generation,
        other_attempt,
        other_step,
    ) {
        lemma_last_colon(
            "step:"@ + generation + ":"@ + a,
            decimal(step as nat),
            "step:"@ + other_generation + ":"@ + b,
            decimal(other_step as nat),
        );
        law_decimal_injective(step as nat, other_step as nat);
        lemma_last_colon("step:"@ + generation, a, "step:"@ + other_generation, b);
        law_decimal_injective(attempt as nat, other_attempt as nat);
        assert(("step:"@ + generation).skip(5) =~= generation);
        assert(("step:"@ + other_generation).skip(5) =~= other_generation);
    }
    assert(batch_token(generation, attempt)[0] == 'b');
    assert(step_token(other_generation, other_attempt, other_step)[0] == 's');
}

/// One node to prepare.
#[derive(Clone, Debug)]
pub struct PmixPrepareNode {
    pub node_name: String,
    pub agent_addr: String,
    pub worker_incarnation: String,
    /// The encoded launch plan of the node.
    pub pmix_plan: Vec<u8>,
}

/// Which prepared launch a request is about.
#[derive(Clone, Debug)]
pub struct PmixLaunch {
    pub job_id: u32,
    pub submission_generation: String,
    pub run_attempt: u32,
    pub prepare_token: String,
}

/// What a [`PmixLaunch`] holds.
#[verifier::ext_equal]
pub struct PmixLaunchView {
    pub job_id: u32,
    pub submission_generation: Seq<char>,
    pub run_attempt: u32,
    pub prepare_token: Seq<char>,
}

impl View for PmixLaunch {
    type V = PmixLaunchView;

    open spec fn view(&self) -> PmixLaunchView {
        PmixLaunchView {
            job_id: self.job_id,
            submission_generation: self.submission_generation@,
            run_attempt: self.run_attempt,
            prepare_token: self.prepare_token@,
        }
    }
}

/// What a node answered to being asked to prepare.
pub open spec fn prepare_answered(success: bool, error: Seq<char>) -> Result<(), Seq<char>> {
    if success {
        Ok(())
    } else if error.len() == 0 {
        Err("PreparePmix rejected without detail"@)
    } else {
        Err(error)
    }
}

/// What a node answered to being asked to prepare.
pub fn prepare_answer(success: bool, error: String) -> (out: Result<(), String>)
    ensures
        match out {
            Ok(_) => prepare_answered(success, error@) == Ok::<(), Seq<char>>(()),
            Err(message) => prepare_answered(success, error@) == Err::<(), Seq<char>>(message@),
        },
{
    if success {
        Ok(())
    } else if is_blank(&error) {
        Err("PreparePmix rejected without detail".to_owned())
    } else {
        Err(error)
    }
}

/// What came of preparing one node.
#[derive(Debug)]
pub enum PrepareResult {
    /// It is prepared.
    Prepared,
    /// It is not, for this reason.
    Failed { node_name: String, error: String },
    /// The attempt itself broke off.
    Broken { error: String },
}

/// What is said of a node that is not prepared.
pub open spec fn complaint(result: PrepareResult) -> Option<Seq<char>> {
    match result {
        PrepareResult::Prepared => None,
        PrepareResult::Failed { node_name, error } => Some(node_name@ + ": "@ + error@),
        PrepareResult::Broken { error } => Some("prepare task panicked: "@ + error@),
    }
}

/// What is said of the nodes that are not prepared, in order.
pub open spec fn complaints(results: Seq<PrepareResult>) -> Seq<Seq<char>>
    decreases results.len(),
{
    if results.len() == 0 {
        Seq::empty()
    } else {
        let before = complaints(results.drop_last());
        match complaint(results.last()) {
            None => before,
            Some(text) => before.push(text),
        }
    }
}

/// What came of preparing all nodes, and whether they must be released again.
#[derive(Debug)]
pub struct PrepareOutcome {
    pub result: Result<(), String>,
    pub release_all: bool,
}

/// What came of preparing all nodes, given what came of each. `rollback_on_failure`
/// is for steps; a batch launch is released only by the cancellation of its very
/// attempt.
pub fn prepare_pmix_on_nodes(results: &Vec<PrepareResult>, rollback_on_failure: bool) -> (out:
    PrepareOutcome)
    ensures
        match out.result {
            Ok(_) => complaints(results@).len() == 0,
            Err(detail) => complaints(results@).len() > 0 && detail@ == joined(
                complaints(results@),
                "; "@,
            ),
        },
        out.release_all == (rollback_on_failure && complaints(results@).len() > 0),
{
    let mut errors: Vec<String> = Vec::new();
    let mut i: usize = 0;
    proof {
        assert(results@.take(0) =~= Seq::<PrepareResult>::empty());
        assert(errors.deep_view() =~= Seq::<Seq<char>>::empty());
    }
    while i < results.len()
        invariant
            i <= results@.len(),
            errors.deep_view() == complaints(results@.take(i as int)),
        decreases results@.len() - i,
    {
        let ghost before = errors.deep_view();
        proof {
            assert(results@.take(i + 1).drop_last() =~= results@.take(i as int));
            assert(results@.take(i + 1).last() == results@[i as int]);
        }
        match &results[i] {
            PrepareResult::Prepared => {},
            PrepareResult::Failed { node_name, error } => {
                let text = join3(node_name.as_str(), ": ", error.as_str());
                errors.push(text);
                proof {
                    assert(errors.deep_view() =~= before.push(text@));
                }
            },
            PrepareResult::Broken { error } => {
                let text = join2("prepare task panicked: ", error.as_str());
                errors.push(text);
                proof {
                    assert(errors.deep_view() =~= before.push(text@));
                }
            },
        }
        i = i + 1;
    }
    proof {
        assert(results@.take(i as int) =~= results@);
    }
    if errors.len() == 0 {
        return PrepareOutcome { result: Ok(()), release_all: false };
    }
    let detail = join_all(&errors, "; ");
    PrepareOutcome { result: Err(detail), release_all: rollback_on_failure }
}

/// Releases what was prepared for a step whose handling ends early, unless it is
/// disarmed.
#[derive(Debug)]
pub struct PmixPreparedReleaseGuard {
    launch: PmixLaunch,
    agents: Vec<(String, String)>,
    release: bool,
}

/// What a [`PmixPreparedReleaseGuard`] holds.
#[verifier::ext_equal]
pub struct ReleaseGuardView {
    pub launch: PmixLaunchView,
    /// The address of each agent and the incarnation of its worker.
    pub agents: Seq<(Seq<char>, Seq<char>)>,
    pub release: bool,
}

impl View for PmixPreparedReleaseGuard {
    type V = ReleaseGuardView;

    closed spec fn view(&self) -> ReleaseGuardView {
        ReleaseGuardView {
            launch: self.launch@,
            agents: self.agents.deep_view(),
            release: self.release,
        }
    }
}

/// One agent to ask for a release.
#[derive(Debug)]
pub struct PmixRelease {
    pub agent_addr: String,
    pub worker_incarnation: String,
    pub launch: PmixLaunch,
}

/// What a [`PmixRelease`] holds.
#[verifier::ext_equal]
pub struct PmixReleaseView {
    pub agent_addr: Seq<char>,
    pub worker_incarnation: Seq<char>,
    pub launch: PmixLaunchView,
}

impl View for PmixRelease {
    type V = PmixReleaseView;

    open spec fn view(&self) -> PmixReleaseView {
        PmixReleaseView {
            agent_addr: self.agent_addr@,
            worker_incarnation: self.worker_incarnation@,
            launch: self.launch@,
        }
    }
}

impl DeepView for PmixRelease {
    type V = PmixReleaseView;

    open spec fn deep_view(&self) -> PmixReleaseView {
        self@
    }
}

/// The releases that end a launch on these agents.
pub open spec fn releases_of(
    launch: PmixLaunchView,
    agents: Seq<(Seq<char>, Seq<char>)>,
) -> Seq<PmixReleaseView> {
    agents.map_values(
        |agent: (Seq<char>, Seq<char>)|
            PmixReleaseView { agent_addr: agent.0, worker_incarnation: agent.1, launch },
    )
}

/// The releases that end a launch on these agents.
pub fn release_pmix_on_agents(agents: &Vec<(String, String)>, launch: &PmixLaunch) -> (out: Vec<
    PmixRelease,
>)
    ensures
        out.deep_view() == releases_of(launch@, agents.deep_view()),
{
    let mut out: Vec<PmixRelease> = Vec::new();
    let mut i: usize = 0;
    while i < agents.len()
        invariant
            i <= agents@.len(),
            out.deep_view() == releases_of(launch@, agents.deep_view()).take(i as int),
        decreases agents@.len() - i,
    {
        let ghost before = out.deep_view();
        let release = PmixRelease {
            agent_addr: agents[i].0.clone(),
            worker_incarnation: agents[i].1.clone(),
            launch: PmixLaunch {
                job_id: launch.job_id,
                submission_generation: launch.submission_generation.clone(),
                run_attempt: launch.run_attempt,
                prepare_token: launch.prepare_token.clone(),
            },
        };
        out.push(release);
        proof {
            assert(agents.deep_view()[i as int] == (agents@[i as int].0@, agents@[i as int].1@));
            assert(out.deep_view() =~= before.push(release@));
            assert(releases_of(launch@, agents.deep_view()).take(i + 1) =~= before.push(
                releases_of(launch@, agents.deep_view())[i as int],
            ));
        }
        i = i + 1;
    }
    proof {
        assert(releases_of(launch@, agents.deep_view()).take(i as int) =~= releases_of(
            launch@,
            agents.deep_view(),
        ));
    }
    out
}

impl PmixPreparedReleaseGuard {
    /// A guard that releases this launch on these agents.
    pub fn new(
        job_id: u32,
        submission_generation: String,
        run_attempt: u32,
        prepare_token: String,
        agents: Vec<(String, String)>,
    ) -> (out: Self)
        ensures
            out@ == (ReleaseGuardView {
                launch: PmixLaunchView {
                    job_id,
                    submission_generation: submission_generation@,
                    run_attempt,
                    prepare_token: prepare_token@,
                },
                agents: agents.deep_view(),
                release: true,
            }),
    {
        PmixPreparedReleaseGuard {
            launch: PmixLaunch { job_id, submission_generation, run_attempt, prepare_token },
            agents,
            release: true,
        }
    }

    /// Lets the guard release nothing.
    pub fn disarm(&mut self)
        ensures
            final(self)@ == (ReleaseGuardView { release: false, ..old(self)@ }),
    {
        self.release = false;
    }

    /// The releases to ask for when the handling of the step ends.
    pub fn releases(&self) -> (out: Vec<PmixRelease>)
        ensures
            out.deep_view() == if self@.release {
                releases_of(self@.launch, self@.agents)
            } else {
                Seq::<PmixReleaseView>::empty()
            },
    {
        if self.release {
            release_pmix_on_agents(&self.agents, &self.launch)
        } else {
            let none: Vec<PmixRelease> = Vec::new();
            proof {
                assert(none.deep_view() =~= Seq::<PmixReleaseView>::empty());
            }
            none
        }
    }
}

/// A node answers a preparation by its own word; a refusal has a reason, its own
/// where it gives one.
pub proof fn law_refusals_have_reasons(success: bool, error: Seq<char>)
    ensures
        prepare_answered(success, error) is Ok <==> success,
        prepare_answered(success, error) matches Err(reason) ==> reason.len() > 0,
        !success && error.len() > 0 ==> prepare_answered(success, error) == Err::<(), Seq<char>>(
            error,
        ),
{
    reveal_strlit("PreparePmix rejected without detail");
}

/// A launch goes on exactly where no node complains: there is one complaint for
/// each node that is not prepared, in order, and it names the node and its
/// reason.
pub proof fn law_every_failure_is_told(results: Seq<PrepareResult>, last: PrepareResult)
    ensures
        complaints(Seq::empty()).len() == 0,
        last is Prepared ==> complaints(results.push(last)) == complaints(results),
        last matches PrepareResult::Failed { node_name, error } ==> complaints(results.push(last))
            == complaints(results).push(node_name@ + seq![':', ' '] + error@),
        last is Broken ==> complaints(results.push(last)).len() == complaints(results).len() + 1,
        complaints(results).len() == 0 <==> (forall|i: int|
            0 <= i < results.len() ==> (#[trigger] results[i]) is Prepared),
        complaints(results).len() <= results.len(),
    decreases results.len(),
{
    reveal_strlit(": ");
    assert(": "@ =~= seq![':', ' ']);
    assert(results.push(last).drop_last() =~= results);
    assert(results.push(last).last() == last);
    if results.len() > 0 {
        let init = results.drop_last();
        law_every_failure_is_told(init, results.last());
        assert(init.push(results.last()) =~= results);
        assert forall|i: int| 0 <= i < init.len() implies #[trigger] results[i] == init[i] by {};
        assert(results[results.len() - 1] == results.last());
        if complaints(results).len() == 0 {
            assert forall|i: int| 0 <= i < results.len() implies (
            #[trigger] results[i]) is Prepared by {
                if i < init.len() {
                    assert(init[i] == results[i]);
                }
            }
        } else if complaints(init).len() > 0 {
            let i = choose|i: int| 0 <= i < init.len() && !((#[trigger] init[i]) is Prepared);
            assert(results[i] == init[i]);
        }
    }
}

/// A launch is released on every agent it was prepared on, once and under its
/// own name, with the incarnation of the worker there.
pub proof fn law_every_agent_is_released(
    launch: PmixLaunchView,
    agents: Seq<(Seq<char>, Seq<char>)>,
    i: int,
)
    requires
        0 <= i < agents.len(),
    ensures
        releases_of(launch, agents).len() == agents.len(),
        releases_of(launch, agents)[i].agent_addr == agents[i].0,
        releases_of(launch, agents)[i].worker_incarnation == agents[i].1,
        releases_of(launch, agents)[i].launch == launch,
{
}

/// Nodes are pinned for a job of several nodes that uses PMIx and names them,
/// and for no other.
pub proof fn law_named_nodes_of_a_wide_job_are_pinned(
    mpi: Seq<char>,
    num_nodes: u32,
    list: &str,
)
    ensures
        mpi != MPI_PMIX@ ==> pinned_nodes(mpi, num_nodes, Some(list)).len() == 0,
        num_nodes <= 1 ==> pinned_nodes(mpi, num_nodes, Some(list)).len() == 0,
        pinned_nodes(mpi, num_nodes, None).len() == 0,
        list@.len() == 0 ==> pinned_nodes(mpi, num_nodes, Some(list)).len() == 0,
        num_nodes > 1 && list@.len() > 0 ==> pinned_nodes(MPI_PMIX@, num_nodes, Some(list))
            == nodes_of(list@),
{
}

/// What is answered of a node is answered of that node: where each node has one
/// answer, the answer that counts is the one of the node named.
pub proof fn law_answer_is_about_the_node<F: Fn(&str) -> Option<NodeSource>>(
    node_source: F,
    is_worker: spec_fn(Seq<char>) -> bool,
    name: Seq<char>,
    virtual_worker: bool,
)
    requires
        forall|text: &str, source: Option<NodeSource>| #[trigger]
            call_ensures(node_source, (text,), source) ==> is_worker(text@) == (source is Some
                && source->0 is Kubernetes),
        answers(node_source, name, virtual_worker),
    ensures
        virtual_worker == is_worker(name),
{
}

} // verus!
