//! The virtual workers that are alive, and the heartbeats sent on their behalf.

use vstd::prelude::*;
use crate::execution_identity::is_blank_str;
use crate::plain::Plain;
use crate::plainmap::PlainMap;
use crate::status::{outcome_view, refusal, Code, Status, StatusView};
use crate::strmap::StrMap;
use crate::text::{has_prefix, join2, join3, same_text, starts_with_text};

verus! {

/// How often heartbeats are sent, in seconds.
pub const INTERVAL_SECS: u64 = 30;

/// How a worker registers.
#[derive(Clone, Debug, Default)]
pub struct RegisterAgentRequest {
    pub hostname: String,
    /// The resources of the worker, as it reports them.
    pub resources: Option<String>,
    pub version: String,
    pub address: String,
    pub port: u32,
    pub wg_pubkey: String,
    pub labels: StrMap,
    pub join_token: String,
    pub worker_incarnation: String,
}

/// What a [`RegisterAgentRequest`] holds.
#[verifier::ext_equal]
pub struct RegisterAgentRequestView {
    pub hostname: Seq<char>,
    pub resources: Option<Seq<char>>,
    pub version: Seq<char>,
    pub address: Seq<char>,
    pub port: u32,
    pub wg_pubkey: Seq<char>,
    pub labels: Map<Seq<char>, Seq<char>>,
    pub join_token: Seq<char>,
    pub worker_incarnation: Seq<char>,
}

impl View for RegisterAgentRequest {
    type V = RegisterAgentRequestView;

    open spec fn view(&self) -> RegisterAgentRequestView {
        RegisterAgentRequestView {
            hostname: self.hostname.deep_view(),
            resources: self.resources.deep_view(),
            version: self.version.deep_view(),
            address: self.address.deep_view(),
            port: self.port.deep_view(),
            wg_pubkey: self.wg_pubkey.deep_view(),
            labels: self.labels.deep_view(),
            join_token: self.join_token.deep_view(),
            worker_incarnation: self.worker_incarnation.deep_view(),
        }
    }
}

impl DeepView for RegisterAgentRequest {
    type V = RegisterAgentRequestView;

    open spec fn deep_view(&self) -> RegisterAgentRequestView {
        self@
    }
}

impl Plain for RegisterAgentRequest {
    fn equals(&self, other: &Self) -> (same: bool) {
        self.hostname.equals(&other.hostname)
            && self.resources.equals(&other.resources)
            && self.version.equals(&other.version)
            && self.address.equals(&other.address)
            && self.port.equals(&other.port)
            && self.wg_pubkey.equals(&other.wg_pubkey)
            && self.labels.equals(&other.labels)
            && self.join_token.equals(&other.join_token)
            && self.worker_incarnation.equals(&other.worker_incarnation)
    }

    fn copy_of(&self) -> (out: Self) {
        RegisterAgentRequest {
            hostname: self.hostname.copy_of(),
            resources: self.resources.copy_of(),
            version: self.version.copy_of(),
            address: self.address.copy_of(),
            port: self.port.copy_of(),
            wg_pubkey: self.wg_pubkey.copy_of(),
            labels: self.labels.copy_of(),
            join_token: self.join_token.copy_of(),
            worker_incarnation: self.worker_incarnation.copy_of(),
        }
    }
}

/// A sign of life of a worker.
#[derive(Clone, Debug, Default)]
pub struct HeartbeatRequest {
    pub hostname: String,
    pub cpu_load: u32,
    pub free_memory_mb: u64,
    pub running_jobs: Vec<u32>,
    pub node_token: String,
    pub wg_pubkey: String,
    pub k0s_status: Option<String>,
    pub worker_incarnation: String,
}

/// What a [`HeartbeatRequest`] holds.
#[verifier::ext_equal]
pub struct HeartbeatRequestView {
    pub hostname: Seq<char>,
    pub cpu_load: u32,
    pub free_memory_mb: u64,
    pub running_jobs: Seq<u32>,
    pub node_token: Seq<char>,
    pub wg_pubkey: Seq<char>,
    pub k0s_status: Option<Seq<char>>,
    pub worker_incarnation: Seq<char>,
}

impl View for HeartbeatRequest {
    type V = HeartbeatRequestView;

    open spec fn view(&self) -> HeartbeatRequestView {
        HeartbeatRequestView {
            hostname: self.hostname.deep_view(),
            cpu_load: self.cpu_load.deep_view(),
            free_memory_mb: self.free_memory_mb.deep_view(),
            running_jobs: self.running_jobs.deep_view(),
            node_token: self.node_token.deep_view(),
            wg_pubkey: self.wg_pubkey.deep_view(),
            k0s_status: self.k0s_status.deep_view(),
            worker_incarnation: self.worker_incarnation.deep_view(),
        }
    }
}

impl DeepView for HeartbeatRequest {
    type V = HeartbeatRequestView;

    open spec fn deep_view(&self) -> HeartbeatRequestView {
        self@
    }
}

impl Plain for HeartbeatRequest {
    fn equals(&self, other: &Self) -> (same: bool) {
        self.hostname.equals(&other.hostname)
            && self.cpu_load.equals(&other.cpu_load)
            && self.free_memory_mb.equals(&other.free_memory_mb)
            && self.running_jobs.equals(&other.running_jobs)
            && self.node_token.equals(&other.node_token)
            && self.wg_pubkey.equals(&other.wg_pubkey)
            && self.k0s_status.equals(&other.k0s_status)
            && self.worker_incarnation.equals(&other.worker_incarnation)
    }

    fn copy_of(&self) -> (out: Self) {
        HeartbeatRequest {
            hostname: self.hostname.copy_of(),
            cpu_load: self.cpu_load.copy_of(),
            free_memory_mb: self.free_memory_mb.copy_of(),
            running_jobs: self.running_jobs.copy_of(),
            node_token: self.node_token.copy_of(),
            wg_pubkey: self.wg_pubkey.copy_of(),
            k0s_status: self.k0s_status.copy_of(),
            worker_incarnation: self.worker_incarnation.copy_of(),
        }
    }
}

/// The workers that are tracked, by name, and the controller that hears of them.
#[derive(Debug)]
pub struct HeartbeatManager {
    pub registry: PlainMap<String, RegisterAgentRequest>,
    pub controller_addr: String,
}

/// Whether a tracked worker has this incarnation.
pub open spec fn is_current(
    registry: Map<Seq<char>, RegisterAgentRequestView>,
    name: Seq<char>,
    worker_incarnation: Seq<char>,
) -> bool {
    registry.contains_key(name) && registry[name].worker_incarnation == worker_incarnation
}

/// Whether a request that names this incarnation of a worker may go on.
pub open spec fn incarnation_required(
    registry: Map<Seq<char>, RegisterAgentRequestView>,
    name: Seq<char>,
    worker_incarnation: Seq<char>,
) -> Result<(), StatusView> {
    if worker_incarnation.len() == 0 {
        Err(refusal(Code::InvalidArgument, "worker_incarnation must be nonempty"@))
    } else if !registry.contains_key(name) {
        Err(
            refusal(
                Code::FailedPrecondition,
                "virtual worker "@ + name + " is not currently registered"@,
            ),
        )
    } else if registry[name].worker_incarnation != worker_incarnation {
        Err(
            refusal(
                Code::FailedPrecondition,
                "virtual worker "@ + name + " incarnation is stale"@,
            ),
        )
    } else {
        Ok(())
    }
}

/// The heartbeat of a tracked worker: it stands for a node that reports its load
/// elsewhere.
pub open spec fn heartbeat_of(name: Seq<char>, worker_incarnation: Seq<char>) -> HeartbeatRequestView {
    HeartbeatRequestView {
        hostname: name,
        cpu_load: 0,
        free_memory_mb: 0,
        running_jobs: Seq::empty(),
        node_token: Seq::empty(),
        wg_pubkey: Seq::empty(),
        k0s_status: None,
        worker_incarnation,
    }
}

/// Whether `beats` holds the heartbeat of every tracked worker, once.
pub open spec fn beats_for_all(
    registry: Map<Seq<char>, RegisterAgentRequestView>,
    beats: Seq<HeartbeatRequestView>,
) -> bool {
    &&& forall|i: int|
        0 <= i < beats.len() ==> {
            let beat = #[trigger] beats[i];
            &&& registry.contains_key(beat.hostname)
            &&& beat == heartbeat_of(beat.hostname, registry[beat.hostname].worker_incarnation)
        }
    &&& forall|i: int, j: int|
        0 <= i < j < beats.len() ==> (#[trigger] beats[i]).hostname != (
        #[trigger] beats[j]).hostname
    &&& forall|name: Seq<char>| #[trigger]
        registry.contains_key(name) ==> exists|i: int|
            0 <= i < beats.len() && (#[trigger] beats[i]).hostname == name
}

impl HeartbeatManager {
    /// No worker is tracked.
    pub fn new(controller_addr: String) -> (out: Self)
        ensures
            out.registry@ == Map::<Seq<char>, RegisterAgentRequestView>::empty(),
            out.controller_addr@ == controller_addr@,
    {
        HeartbeatManager { registry: PlainMap::new(), controller_addr }
    }

    /// Tracks a worker under `name`, in place of the one tracked there before.
    pub fn track(&mut self, name: String, req: RegisterAgentRequest)
        ensures
            final(self).registry@ == old(self).registry@.insert(name@, req@),
            final(self).controller_addr == old(self).controller_addr,
    {
        self.registry.insert(name, req);
    }

    /// Stops tracking a worker, if it is the very incarnation that disappeared. A
    /// late notice about an earlier one leaves its replacement alone.
    pub fn untrack_exact(&mut self, name: &str, worker_incarnation: &str) -> (out: bool)
        ensures
            out == is_current(old(self).registry@, name@, worker_incarnation@),
            final(self).registry@ == if out {
                old(self).registry@.remove(name@)
            } else {
                old(self).registry@
            },
            final(self).controller_addr == old(self).controller_addr,
    {
        let key: String = name.to_owned();
        let current = match self.registry.get(&key) {
            Some(request) => same_text(request.worker_incarnation.as_str(), worker_incarnation),
            None => false,
        };
        if current {
            self.registry.remove(&key);
        }
        current
    }

    /// Whether a request that names this incarnation of a worker may go on.
    pub fn require_incarnation(&self, name: &str, worker_incarnation: &str) -> (out: Result<
        (),
        Status,
    >)
        ensures
            outcome_view(out) == incarnation_required(self.registry@, name@, worker_incarnation@),
    {
        if is_blank_str(worker_incarnation) {
            return Err(Status::new(Code::InvalidArgument, "worker_incarnation must be nonempty"));
        }
        match self.registry.get(&name.to_owned()) {
            None => Err(
                Status {
                    code: Code::FailedPrecondition,
                    message: join3("virtual worker ", name, " is not currently registered"),
                },
            ),
            Some(current) => {
                if same_text(current.worker_incarnation.as_str(), worker_incarnation) {
                    Ok(())
                } else {
                    Err(
                        Status {
                            code: Code::FailedPrecondition,
                            message: join3("virtual worker ", name, " incarnation is stale"),
                        },
                    )
                }
            },
        }
    }

    /// The name of a tracked worker with this incarnation.
    pub fn require_known_incarnation(&self, worker_incarnation: &str) -> (out: Result<
        String,
        Status,
    >)
        ensures
            match out {
                Ok(name) => worker_incarnation@.len() > 0 && is_current(
                    self.registry@,
                    name@,
                    worker_incarnation@,
                ),
                Err(status) => if worker_incarnation@.len() == 0 {
                    status@ == refusal(
                        Code::InvalidArgument,
                        "worker_incarnation must be nonempty"@,
                    )
                } else {
                    &&& status@ == refusal(
                        Code::FailedPrecondition,
                        "virtual worker incarnation is stale"@,
                    )
                    &&& forall|name: Seq<char>|
                        !#[trigger] is_current(self.registry@, name, worker_incarnation@)
                },
            },
    {
        if is_blank_str(worker_incarnation) {
            return Err(Status::new(Code::InvalidArgument, "worker_incarnation must be nonempty"));
        }
        let n: usize = self.registry.len();
        let ghost keys = self.registry.keys_in_order();
        let mut i: usize = 0;
        while i < n
            invariant
                i <= n,
                n == keys.len(),
                keys == self.registry.keys_in_order(),
                worker_incarnation@.len() > 0,
                forall|j: int|
                    0 <= j < i ==> self.registry@[#[trigger] keys[j]].worker_incarnation
                        != worker_incarnation@,
            decreases n - i,
        {
            let (name, request) = self.registry.entry(i);
            if same_text(request.worker_incarnation.as_str(), worker_incarnation) {
                return Ok(name.clone());
            }
            i = i + 1;
        }
        proof {
            assert forall|name: Seq<char>|
                !#[trigger] is_current(self.registry@, name, worker_incarnation@) by {
                if self.registry@.contains_key(name) {
                    assert(keys.contains(name));
                    let j = choose|j: int| 0 <= j < keys.len() && keys[j] == name;
                    assert(keys[j] == name);
                }
            }
        }
        Err(Status::new(Code::FailedPrecondition, "virtual worker incarnation is stale"))
    }

    /// The heartbeats to send now.
    pub fn heartbeats(&self) -> (out: Vec<HeartbeatRequest>)
        ensures
            beats_for_all(self.registry@, out.deep_view()),
    {
        let n: usize = self.registry.len();
        let ghost keys = self.registry.keys_in_order();
        let mut out: Vec<HeartbeatRequest> = Vec::new();
        let mut i: usize = 0;
        while i < n
            invariant
                i <= n,
                n == keys.len(),
                keys == self.registry.keys_in_order(),
                keys.no_duplicates(),
                out@.len() == i,
                forall|j: int|
                    0 <= j < i ==> {
                        let beat = #[trigger] out.deep_view()[j];
                        &&& beat.hostname == keys[j]
                        &&& self.registry@.contains_key(keys[j])
                        &&& beat == heartbeat_of(
                            keys[j],
                            self.registry@[keys[j]].worker_incarnation,
                        )
                    },
            decreases n - i,
        {
            let (name, request) = self.registry.entry(i);
            let running: Vec<u32> = Vec::new();
            let ghost before = out.deep_view();
            let beat = HeartbeatRequest {
                hostname: name.clone(),
                cpu_load: 0,
                free_memory_mb: 0,
                running_jobs: running,
                node_token: String::new(),
                wg_pubkey: String::new(),
                k0s_status: None,
                worker_incarnation: request.worker_incarnation.clone(),
            };
            proof {
                assert(running.deep_view() =~= Seq::<u32>::empty());
                assert(beat@ =~= heartbeat_of(
                    keys[i as int],
                    self.registry@[keys[i as int]].worker_incarnation,
                ));
            }
            out.push(beat);
            proof {
                assert(out.deep_view() =~= before.push(beat@));
            }
            i = i + 1;
        }
        proof {
            assert forall|name: Seq<char>| #[trigger]
                self.registry@.contains_key(name) implies exists|i: int|
                0 <= i < out.deep_view().len() && (#[trigger] out.deep_view()[i]).hostname
                    == name by {
                assert(keys.contains(name));
                let j = choose|j: int| 0 <= j < keys.len() && keys[j] == name;
                assert(out.deep_view()[j].hostname == name);
            }
        }
        out
    }
}

/// The address of the controller as a URL.
pub open spec fn url_of(addr: Seq<char>) -> Seq<char> {
    if starts_with_text(addr, "http"@) {
        addr
    } else {
        "http://"@ + addr
    }
}

/// The address of the controller as a URL.
pub fn controller_url(addr: &str) -> (out: String)
    ensures
        out@ == url_of(addr@),
{
    if has_prefix(addr, "http") {
        addr.to_owned()
    } else {
        join2("http://", addr)
    }
}

/// A late notice about an earlier incarnation of a worker leaves its replacement
/// tracked: untracking by the old incarnation changes nothing.
pub proof fn law_stale_untrack_is_ignored(
    registry: Map<Seq<char>, RegisterAgentRequestView>,
    name: Seq<char>,
    replacement: RegisterAgentRequestView,
    stale: Seq<char>,
)
    requires
        replacement.worker_incarnation != stale,
    ensures
        !is_current(registry.insert(name, replacement), name, stale),
        stale.len() > 0 ==> incarnation_required(
            registry.insert(name, replacement),
            name,
            stale,
        ) == Err::<(), StatusView>(
            refusal(
                Code::FailedPrecondition,
                "virtual worker "@ + name + " incarnation is stale"@,
            ),
        ),
{
}

/// A tracked worker is the one whose requests go on, and no other is affected by
/// tracking it.
pub proof fn law_tracked_worker_is_current(
    registry: Map<Seq<char>, RegisterAgentRequestView>,
    name: Seq<char>,
    request: RegisterAgentRequestView,
    other: Seq<char>,
    incarnation: Seq<char>,
)
    requires
        request.worker_incarnation.len() > 0,
    ensures
        incarnation_required(
            registry.insert(name, request),
            name,
            request.worker_incarnation,
        ) == Ok::<(), StatusView>(()),
        other != name ==> incarnation_required(
            registry.insert(name, request),
            other,
            incarnation,
        ) == incarnation_required(registry, other, incarnation),
{
}

/// A request reaches a worker only with the incarnation that is registered under
/// the worker's name; what is refused tells a name that is not registered from
/// an incarnation that is not the current one.
pub proof fn law_only_the_current_incarnation_is_served(
    registry: Map<Seq<char>, RegisterAgentRequestView>,
    name: Seq<char>,
    worker_incarnation: Seq<char>,
)
    ensures
        incarnation_required(registry, name, worker_incarnation) is Ok <==> worker_incarnation.len()
            > 0 && registry.contains_key(name) && registry[name].worker_incarnation
            == worker_incarnation,
        is_current(registry, name, worker_incarnation) && worker_incarnation.len() > 0
            <==> incarnation_required(registry, name, worker_incarnation) is Ok,
        worker_incarnation.len() == 0 ==> (incarnation_required(
            registry,
            name,
            worker_incarnation,
        )->Err_0).code == Code::InvalidArgument,
        worker_incarnation.len() > 0 && incarnation_required(
            registry,
            name,
            worker_incarnation,
        ) is Err ==> (incarnation_required(registry, name, worker_incarnation)->Err_0).code
            == Code::FailedPrecondition,
{
}

/// One heartbeat is sent for each registered worker, under its name and its
/// incarnation, and none for any other.
pub proof fn law_each_worker_beats_once(
    registry: Map<Seq<char>, RegisterAgentRequestView>,
    beats: Seq<HeartbeatRequestView>,
    name: Seq<char>,
)
    requires
        beats_for_all(registry, beats),
    ensures
        registry.contains_key(name) <==> exists|i: int|
            0 <= i < beats.len() && (#[trigger] beats[i]).hostname == name,
        forall|i: int|
            0 <= i < beats.len() && (#[trigger] beats[i]).hostname == name
                ==> beats[i].worker_incarnation == registry[name].worker_incarnation
                && beats[i].running_jobs.len() == 0 && beats[i].cpu_load == 0
                && beats[i].free_memory_mb == 0,
        forall|i: int, j: int|
            0 <= i < beats.len() && 0 <= j < beats.len() && (#[trigger] beats[i]).hostname == (
            #[trigger] beats[j]).hostname ==> i == j,
{
}

/// An address that names its protocol is used as it is; any other is reached by
/// plain HTTP.
pub proof fn law_address_keeps_its_protocol(addr: Seq<char>)
    ensures
        url_of("http://"@ + addr) == "http://"@ + addr,
        url_of("https://"@ + addr) == "https://"@ + addr,
        addr.len() < 4 || addr.take(4) != "http"@ ==> url_of(addr) == "http://"@ + addr,
        url_of(url_of(addr)) == url_of(addr),
{
    reveal_strlit("http");
    reveal_strlit("http://");
    reveal_strlit("https://");
    assert(("http://"@ + addr).take(4) =~= "http"@);
    assert(("https://"@ + addr).take(4) =~= "http"@);
}

} // verus!
