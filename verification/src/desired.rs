//! Whether an object in the cluster is the one that was asked for.
//!
//! The API server fills in defaults and rewrites quantities without changing
//! what they mean. Everything else must agree.

use vstd::prelude::*;
use crate::accounts::lemma_filter_members;
use crate::control::opt_reads;
use crate::execution_identity::{holds, lookup, PROVENANCE_RECORDED_ANNOTATION};
use crate::k8s::{
    Container, ContainerView, EmptyDirVolume, EmptyDirVolumeView, ObjectMeta, ObjectMetaView, Pod,
    PodSecurityContext, PodSecurityContextView, PodSpec, PodSpecView, PodView,
    ResourceRequirements, ResourceRequirementsView, Service, ServiceSpec, ServiceSpecView,
    ServiceView, Toleration, TolerationView, Volume, VolumeView,
};
use crate::plain::Plain;
use crate::quantity::{normal_form, normalized_quantity};
use crate::strmap::StrMap;

verus! {

/// A map that may be absent; absent means empty.
pub open spec fn map_or_empty(map: Option<Map<Seq<char>, Seq<char>>>) -> Map<Seq<char>, Seq<char>> {
    match map {
        Some(m) => m,
        None => Map::empty(),
    }
}

fn map_of(map: &Option<StrMap>) -> (out: StrMap)
    ensures
        out@ == map_or_empty(map.deep_view()),
{
    match map {
        Some(m) => m.copy_of(),
        None => StrMap::new(),
    }
}

/// The annotations without the mark that provenance was recorded.
pub open spec fn without_provenance_mark(annotations: Map<Seq<char>, Seq<char>>) -> Map<
    Seq<char>,
    Seq<char>,
> {
    if lookup(annotations, PROVENANCE_RECORDED_ANNOTATION@) == Some("true"@) {
        annotations.remove(PROVENANCE_RECORDED_ANNOTATION@)
    } else {
        annotations
    }
}

/// Whether the labels, annotations and owners are those asked for, and nothing
/// holds the object back from deletion.
pub open spec fn metadata_agrees(actual: ObjectMetaView, desired: ObjectMetaView) -> bool {
    &&& map_or_empty(actual.labels) == map_or_empty(desired.labels)
    &&& without_provenance_mark(map_or_empty(actual.annotations)) == map_or_empty(
        desired.annotations,
    )
    &&& actual.owner_references == desired.owner_references
    &&& actual.finalizers is None || actual.finalizers->0.len() == 0
}

/// Whether the labels, annotations and owners are those asked for, and nothing
/// holds the object back from deletion.
pub fn metadata_contains_desired(actual: &ObjectMeta, desired: &ObjectMeta) -> (yes: bool)
    ensures
        yes == metadata_agrees(actual@, desired@),
{
    let mut annotations = map_of(&actual.annotations);
    if holds(annotations.get(PROVENANCE_RECORDED_ANNOTATION), &"true".to_owned()) {
        annotations.remove(PROVENANCE_RECORDED_ANNOTATION);
    }
    let finalized = match &actual.finalizers {
        None => true,
        Some(finalizers) => finalizers.len() == 0,
    };
    map_of(&actual.labels).same_as(&map_of(&desired.labels)) && annotations.same_as(
        &map_of(&desired.annotations),
    ) && actual.owner_references.equals(&desired.owner_references) && finalized
}

/// The normal form of a quantity; a text that is no quantity stays as it is.
pub open spec fn normal_or_same(q: Seq<char>) -> Seq<char> {
    match normal_form(q) {
        Some(n) => n,
        None => q,
    }
}

/// The quantities in normal form.
pub open spec fn normal_quantities(m: Map<Seq<char>, Seq<char>>) -> Map<Seq<char>, Seq<char>> {
    Map::new(|key: Seq<char>| m.contains_key(key), |key: Seq<char>| normal_or_same(m[key]))
}

/// The quantities in normal form, where there are any.
pub open spec fn normal_quantities_opt(m: Option<Map<Seq<char>, Seq<char>>>) -> Option<
    Map<Seq<char>, Seq<char>>,
> {
    match m {
        Some(quantities) => Some(normal_quantities(quantities)),
        None => None,
    }
}

/// A container with its quantities in normal form.
pub open spec fn normal_container(c: ContainerView) -> ContainerView {
    ContainerView {
        resources: match c.resources {
            Some(r) => Some(
                ResourceRequirementsView {
                    requests: normal_quantities_opt(r.requests),
                    limits: normal_quantities_opt(r.limits),
                    ..r
                },
            ),
            None => None,
        },
        ..c
    }
}

/// A volume with its size limit in normal form.
pub open spec fn normal_volume(v: VolumeView) -> VolumeView {
    VolumeView {
        empty_dir: match v.empty_dir {
            Some(dir) => Some(
                EmptyDirVolumeView {
                    size_limit: match dir.size_limit {
                        Some(q) => Some(normal_or_same(q)),
                        None => None,
                    },
                    ..dir
                },
            ),
            None => None,
        },
        ..v
    }
}

/// Whether a toleration is one that every pod is given.
pub open spec fn is_default_toleration(t: TolerationView) -> bool {
    &&& t.key == Some("node.kubernetes.io/not-ready"@) || t.key == Some(
        "node.kubernetes.io/unreachable"@,
    )
    &&& t.operator == Some("Exists"@)
    &&& t.effect == Some("NoExecute"@)
    &&& t.value is None
    &&& t.toleration_seconds == Some(300i64)
}

/// The tolerations that a pod was not simply given; none where none are left.
pub open spec fn own_tolerations(tolerations: Option<Seq<TolerationView>>) -> Option<
    Seq<TolerationView>,
> {
    match tolerations {
        None => None,
        Some(all) => {
            let own = all.filter(|t: TolerationView| !is_default_toleration(t));
            if own.len() == 0 {
                None
            } else {
                Some(own)
            }
        },
    }
}

/// A security context in which nothing is set.
pub open spec fn unset_security_context() -> PodSecurityContextView {
    PodSecurityContextView { run_as_user: None, other: Seq::empty() }
}

/// What a pod runs, without what the API server fills in.
pub open spec fn normal_spec(spec: PodSpecView) -> PodSpecView {
    PodSpecView {
        priority: if spec.priority == Some(0i32) {
            None
        } else {
            spec.priority
        },
        security_context: if spec.security_context == Some(unset_security_context()) {
            None
        } else {
            spec.security_context
        },
        tolerations: own_tolerations(spec.tolerations),
        containers: spec.containers.map_values(|c: ContainerView| normal_container(c)),
        volumes: match spec.volumes {
            Some(volumes) => Some(volumes.map_values(|v: VolumeView| normal_volume(v))),
            None => None,
        },
        ..spec
    }
}

fn normalize(q: &String) -> (out: String)
    ensures
        out@ == normal_or_same(q@),
{
    match normalized_quantity(q.as_str()) {
        Some(n) => n,
        None => q.clone(),
    }
}

fn normalize_quantities(m: &StrMap) -> (out: StrMap)
    ensures
        out@ == normal_quantities(m@),
{
    let n: usize = m.len();
    let mut out = StrMap::new();
    let ghost keys = m.keys_in_order();
    let mut i: usize = 0;
    while i < n
        invariant
            i <= n,
            n == keys.len(),
            keys == m.keys_in_order(),
            forall|key: Seq<char>| #[trigger] m@.contains_key(key) <==> keys.contains(key),
            forall|key: Seq<char>| #[trigger]
                out@.contains_key(key) <==> keys.take(i as int).contains(key),
            forall|key: Seq<char>| #[trigger]
                out@.contains_key(key) ==> out@[key] == normal_or_same(m@[key]),
        decreases n - i,
    {
        let (key, value) = m.entry(i);
        let normal = normalize(value);
        let ghost before = out@;
        out.insert(key.clone(), normal);
        proof {
            let upto = keys.take(i + 1);
            assert(upto =~= keys.take(i as int).push(key@));
            assert forall|k: Seq<char>| #[trigger] out@.contains_key(k) <==> upto.contains(k) by {
                if k == key@ {
                    assert(upto[i as int] == k);
                } else if upto.contains(k) {
                    let j = choose|j: int| 0 <= j < upto.len() && upto[j] == k;
                    assert(keys.take(i as int)[j] == k);
                    assert(before.contains_key(k));
                } else if out@.contains_key(k) {
                    assert(before.contains_key(k));
                    let j = choose|j: int|
                        0 <= j < keys.take(i as int).len() && keys.take(i as int)[j] == k;
                    assert(upto[j] == k);
                }
            }
            assert forall|k: Seq<char>| #[trigger] out@.contains_key(k) implies out@[k]
                == normal_or_same(m@[k]) by {
                if k != key@ {
                    assert(before.contains_key(k));
                }
            }
        }
        i = i + 1;
    }
    proof {
        assert(keys.take(i as int) =~= keys);
        assert forall|key: Seq<char>| #[trigger]
            out@.contains_key(key) <==> normal_quantities(m@).contains_key(key) by {
            assert(m@.contains_key(key) <==> keys.contains(key));
        }
        assert(out@ =~= normal_quantities(m@));
    }
    out
}

fn normalize_quantities_opt(m: &Option<StrMap>) -> (out: Option<StrMap>)
    ensures
        out.deep_view() == normal_quantities_opt(m.deep_view()),
{
    match m {
        Some(quantities) => Some(normalize_quantities(quantities)),
        None => None,
    }
}

fn normalize_container(c: &Container) -> (out: Container)
    ensures
        out@ == normal_container(c@),
{
    let mut out = c.copy_of();
    out.resources = match &c.resources {
        Some(r) => Some(
            ResourceRequirements {
                requests: normalize_quantities_opt(&r.requests),
                limits: normalize_quantities_opt(&r.limits),
                other: r.other.clone(),
            },
        ),
        None => None,
    };
    out
}

fn normalize_volume(v: &Volume) -> (out: Volume)
    ensures
        out@ == normal_volume(v@),
{
    let mut out = v.copy_of();
    out.empty_dir = match &v.empty_dir {
        Some(dir) => Some(
            EmptyDirVolume {
                medium: dir.medium.copy_of(),
                size_limit: match &dir.size_limit {
                    Some(q) => Some(normalize(q)),
                    None => None,
                },
            },
        ),
        None => None,
    };
    out
}

/// Brings the quantities of a pod into normal form.
pub fn normalize_pod_quantities(spec: &mut PodSpec)
    ensures
        final(spec)@ == (PodSpecView {
            containers: old(spec)@.containers.map_values(|c: ContainerView| normal_container(c)),
            volumes: match old(spec)@.volumes {
                Some(volumes) => Some(volumes.map_values(|v: VolumeView| normal_volume(v))),
                None => None,
            },
            ..old(spec)@
        }),
{
    let mut containers: Vec<Container> = Vec::new();
    let mut i: usize = 0;
    let ghost before = spec@;
    while i < spec.containers.len()
        invariant
            i <= spec.containers@.len(),
            spec@ == before,
            containers@.len() == i,
            forall|j: int|
                0 <= j < i ==> (#[trigger] containers@[j])@ == normal_container(
                    spec.containers@[j]@,
                ),
        decreases spec.containers@.len() - i,
    {
        containers.push(normalize_container(&spec.containers[i]));
        i = i + 1;
    }
    let volumes: Option<Vec<Volume>> = match &spec.volumes {
        None => None,
        Some(volumes) => {
            let mut normal: Vec<Volume> = Vec::new();
            let mut j: usize = 0;
            while j < volumes.len()
                invariant
                    j <= volumes@.len(),
                    normal@.len() == j,
                    forall|k: int|
                        0 <= k < j ==> (#[trigger] normal@[k])@ == normal_volume(volumes@[k]@),
                decreases volumes@.len() - j,
            {
                normal.push(normalize_volume(&volumes[j]));
                j = j + 1;
            }
            proof {
                assert(normal.deep_view() =~= volumes.deep_view().map_values(
                    |v: VolumeView| normal_volume(v),
                ));
            }
            Some(normal)
        },
    };
    proof {
        assert(containers.deep_view() =~= before.containers.map_values(
            |c: ContainerView| normal_container(c),
        ));
    }
    spec.containers = containers;
    spec.volumes = volumes;
}

fn is_given_toleration(t: &Toleration) -> (yes: bool)
    ensures
        yes == is_default_toleration(t@),
{
    (opt_reads(&t.key, &"node.kubernetes.io/not-ready".to_owned()) || opt_reads(
        &t.key,
        &"node.kubernetes.io/unreachable".to_owned(),
    )) && opt_reads(&t.operator, &"Exists".to_owned()) && opt_reads(
        &t.effect,
        &"NoExecute".to_owned(),
    ) && t.value.is_none() && t.toleration_seconds.equals(&Some(300))
}

fn keep_own_tolerations(tolerations: &Option<Vec<Toleration>>) -> (out: Option<Vec<Toleration>>)
    ensures
        out.deep_view() == own_tolerations(tolerations.deep_view()),
{
    match tolerations {
        None => None,
        Some(all) => {
            let ghost items = all.deep_view();
            let ghost p = |t: TolerationView| !is_default_toleration(t);
            let mut own: Vec<Toleration> = Vec::new();
            let mut i: usize = 0;
            proof {
                reveal(Seq::filter);
                assert(items.take(0).filter(p) =~= Seq::<TolerationView>::empty());
                assert(own.deep_view() =~= Seq::<TolerationView>::empty());
            }
            while i < all.len()
                invariant
                    i <= all@.len(),
                    items == all.deep_view(),
                    p == (|t: TolerationView| !is_default_toleration(t)),
                    own.deep_view() == items.take(i as int).filter(p),
                decreases all@.len() - i,
            {
                proof {
                    reveal(Seq::filter);
                    assert(items.take(i + 1).drop_last() =~= items.take(i as int));
                    assert(items.take(i + 1).last() == all@[i as int]@);
                }
                if !is_given_toleration(&all[i]) {
                    let ghost before = own.deep_view();
                    own.push(all[i].copy_of());
                    proof {
                        assert(own.deep_view() =~= before.push(all@[i as int]@));
                    }
                }
                i = i + 1;
            }
            proof {
                assert(items.take(i as int) =~= items);
            }
            if own.len() == 0 {
                None
            } else {
                Some(own)
            }
        },
    }
}

/// What a pod runs, without what the API server fills in.
pub fn normalized_pod_spec(spec: &PodSpec) -> (out: PodSpec)
    ensures
        out@ == normal_spec(spec@),
{
    let mut normalized = spec.copy_of();
    if spec.priority.equals(&Some(0)) {
        normalized.priority = None;
    }
    let unset = PodSecurityContext { run_as_user: None, other: String::new() };
    proof {
        assert(unset@ == unset_security_context());
    }
    if spec.security_context.equals(&Some(unset)) {
        normalized.security_context = None;
    }
    normalized.tolerations = keep_own_tolerations(&spec.tolerations);
    normalize_pod_quantities(&mut normalized);
    normalized
}

/// Whether a pod in the cluster is the one asked for.
pub open spec fn pod_agrees(actual: PodView, desired: PodView) -> bool {
    &&& actual.metadata.name == desired.metadata.name
    &&& actual.metadata.namespace == desired.metadata.namespace
    &&& metadata_agrees(actual.metadata, desired.metadata)
    &&& actual.spec is Some
    &&& desired.spec is Some
    &&& normal_spec(actual.spec->0) == normal_spec(desired.spec->0)
}

/// Whether a pod in the cluster is the one asked for.
pub fn pod_matches_desired(actual: &Pod, desired: &Pod) -> (yes: bool)
    ensures
        yes == pod_agrees(actual@, desired@),
{
    if !actual.metadata.name.equals(&desired.metadata.name) || !actual.metadata.namespace.equals(
        &desired.metadata.namespace,
    ) || !metadata_contains_desired(&actual.metadata, &desired.metadata) {
        return false;
    }
    match (&actual.spec, &desired.spec) {
        (Some(a), Some(d)) => normalized_pod_spec(a).equals(&normalized_pod_spec(d)),
        _ => false,
    }
}

/// A service without the addresses that the API server assigns to it. They do
/// not change what a headless service selects or exposes.
pub open spec fn without_assigned_addresses(spec: ServiceSpecView) -> ServiceSpecView {
    ServiceSpecView { cluster_ips: None, ip_families: None, ip_family_policy: None, ..spec }
}

/// Whether a service in the cluster is the headless one asked for.
pub open spec fn service_agrees(actual: ServiceView, desired: ServiceView) -> bool {
    &&& actual.metadata.name == desired.metadata.name
    &&& actual.metadata.namespace == desired.metadata.namespace
    &&& metadata_agrees(actual.metadata, desired.metadata)
    &&& actual.spec is Some
    &&& desired.spec is Some
    &&& (actual.spec->0).cluster_ip == Some("None"@)
    &&& without_assigned_addresses(actual.spec->0) == without_assigned_addresses(desired.spec->0)
}

fn drop_assigned_addresses(spec: &ServiceSpec) -> (out: ServiceSpec)
    ensures
        out@ == without_assigned_addresses(spec@),
{
    let mut out = spec.copy_of();
    out.cluster_ips = None;
    out.ip_families = None;
    out.ip_family_policy = None;
    out
}

/// Whether a service in the cluster is the headless one asked for.
pub fn service_matches_desired(actual: &Service, desired: &Service) -> (yes: bool)
    ensures
        yes == service_agrees(actual@, desired@),
{
    if !actual.metadata.name.equals(&desired.metadata.name) || !actual.metadata.namespace.equals(
        &desired.metadata.namespace,
    ) || !metadata_contains_desired(&actual.metadata, &desired.metadata) {
        return false;
    }
    match (&actual.spec, &desired.spec) {
        (Some(a), Some(d)) => opt_reads(&a.cluster_ip, &"None".to_owned())
            && drop_assigned_addresses(a).equals(&drop_assigned_addresses(d)),
        _ => false,
    }
}

/// A pod that is created exactly as it was asked for is the one asked for.
pub proof fn law_pod_agrees_with_itself(desired: PodView)
    requires
        desired.spec is Some,
        desired.metadata.finalizers is None,
        lookup(map_or_empty(desired.metadata.annotations), PROVENANCE_RECORDED_ANNOTATION@) is None,
    ensures
        pod_agrees(desired, desired),
{
}

/// Recording provenance on a pod does not make it another pod.
pub proof fn law_provenance_mark_is_ignored(actual: PodView, marked: PodView, desired: PodView)
    requires
        pod_agrees(actual, desired),
        lookup(map_or_empty(actual.metadata.annotations), PROVENANCE_RECORDED_ANNOTATION@) is None,
        marked == (PodView {
            metadata: ObjectMetaView {
                annotations: Some(
                    map_or_empty(actual.metadata.annotations).insert(
                        PROVENANCE_RECORDED_ANNOTATION@,
                        "true"@,
                    ),
                ),
                ..actual.metadata
            },
            ..actual
        }),
    ensures
        pod_agrees(marked, desired),
{
    let before = map_or_empty(actual.metadata.annotations);
    assert(before.insert(PROVENANCE_RECORDED_ANNOTATION@, "true"@).remove(
        PROVENANCE_RECORDED_ANNOTATION@,
    ) =~= before);
}

/// What the API server fills in makes no difference: with the default priority,
/// an unset security context and only given tolerations, a pod is still the one
/// asked for.
pub proof fn law_api_defaults_are_accepted(
    actual: PodView,
    filled: PodView,
    desired: PodView,
    tolerations: Seq<TolerationView>,
)
    requires
        pod_agrees(actual, desired),
        (actual.spec->0).priority is None,
        (actual.spec->0).security_context is None,
        (actual.spec->0).tolerations is None,
        forall|i: int| 0 <= i < tolerations.len() ==> is_default_toleration(#[trigger] tolerations[i]),
        filled == (PodView {
            spec: Some(
                PodSpecView {
                    priority: Some(0i32),
                    security_context: Some(unset_security_context()),
                    tolerations: Some(tolerations),
                    ..actual.spec->0
                },
            ),
            ..actual
        }),
    ensures
        pod_agrees(filled, desired),
{
    let p = |t: TolerationView| !is_default_toleration(t);
    lemma_filter_none(tolerations, p);
    assert(normal_spec(filled.spec->0) =~= normal_spec(actual.spec->0));
}

proof fn lemma_filter_none<A>(s: Seq<A>, p: spec_fn(A) -> bool)
    requires
        forall|i: int| 0 <= i < s.len() ==> !p(#[trigger] s[i]),
    ensures
        s.filter(p).len() == 0,
    decreases s.len(),
{
    reveal(Seq::filter);
    if s.len() > 0 {
        assert(!p(s[s.len() - 1]));
        assert forall|i: int| 0 <= i < s.drop_last().len() implies !p(
            #[trigger] s.drop_last()[i],
        ) by {
            assert(!p(s[i]));
        }
        lemma_filter_none(s.drop_last(), p);
    }
}

/// Two pods that both are the one asked for run the same workload and carry the
/// same labels and owners.
pub proof fn law_adopted_pods_agree(a: PodView, b: PodView, desired: PodView)
    requires
        pod_agrees(a, desired),
        pod_agrees(b, desired),
    ensures
        normal_spec(a.spec->0) == normal_spec(b.spec->0),
        map_or_empty(a.metadata.labels) == map_or_empty(b.metadata.labels),
        a.metadata.owner_references == b.metadata.owner_references,
{
}

/// Two services that both are the one asked for have the same name, select the
/// same pods, carry the same labels and owners, and have no address of their
/// own.
pub proof fn law_adopted_services_agree(a: ServiceView, b: ServiceView, desired: ServiceView)
    requires
        service_agrees(a, desired),
        service_agrees(b, desired),
    ensures
        a.metadata.name == b.metadata.name,
        a.metadata.namespace == b.metadata.namespace,
        without_assigned_addresses(a.spec->0) == without_assigned_addresses(b.spec->0),
        map_or_empty(a.metadata.labels) == map_or_empty(b.metadata.labels),
        a.metadata.owner_references == b.metadata.owner_references,
        (a.spec->0).cluster_ip == Some("None"@),
        (b.spec->0).cluster_ip == Some("None"@),
{
}

/// A pod that is taken over runs what would have been run: the same containers
/// with the same images, commands, variables, directories and mounts, in the
/// same place, under the same names and owners. Amounts may be written another
/// way.
pub proof fn law_adopted_pod_runs_what_was_asked(actual: PodView, desired: PodView, i: int)
    requires
        pod_agrees(actual, desired),
        0 <= i < (desired.spec->0).containers.len(),
    ensures
        actual.metadata.name == desired.metadata.name,
        actual.metadata.namespace == desired.metadata.namespace,
        actual.metadata.owner_references == desired.metadata.owner_references,
        actual.metadata.finalizers is Some ==> (actual.metadata.finalizers->0).len() == 0,
        (actual.spec->0).containers.len() == (desired.spec->0).containers.len(),
        ({
            let a = (actual.spec->0).containers[i];
            let d = (desired.spec->0).containers[i];
            &&& a.name == d.name
            &&& a.image == d.image
            &&& a.image_pull_policy == d.image_pull_policy
            &&& a.command == d.command
            &&& a.env == d.env
            &&& a.working_dir == d.working_dir
            &&& a.volume_mounts == d.volume_mounts
            &&& a.security_context == d.security_context
            &&& a.termination_message_path == d.termination_message_path
            &&& a.termination_message_policy == d.termination_message_policy
            &&& a.other == d.other
            &&& a.resources is Some <==> d.resources is Some
        }),
        ({
            let a = actual.spec->0;
            let d = desired.spec->0;
            &&& a.restart_policy == d.restart_policy
            &&& a.node_name == d.node_name
            &&& a.hostname == d.hostname
            &&& a.subdomain == d.subdomain
            &&& a.host_network == d.host_network
            &&& a.host_ipc == d.host_ipc
            &&& a.host_pid == d.host_pid
            &&& a.dns_policy == d.dns_policy
            &&& a.scheduler_name == d.scheduler_name
            &&& a.service_account == d.service_account
            &&& a.service_account_name == d.service_account_name
            &&& a.automount_service_account_token == d.automount_service_account_token
            &&& a.preemption_policy == d.preemption_policy
            &&& a.termination_grace_period_seconds == d.termination_grace_period_seconds
            &&& a.enable_service_links == d.enable_service_links
            &&& a.other == d.other
            &&& a.volumes is Some <==> d.volumes is Some
        }),
{
    let a = normal_spec(actual.spec->0);
    let d = normal_spec(desired.spec->0);
    assert(a.containers.len() == d.containers.len());
    assert(a.containers[i] == normal_container((actual.spec->0).containers[i]));
    assert(d.containers[i] == normal_container((desired.spec->0).containers[i]));
}

/// What a taken-over pod is promised of a resource is what was asked for: the
/// same resources are named, and an amount that differs in writing has the same
/// normal form.
pub proof fn law_adopted_pod_gets_the_same_amounts(
    actual: PodView,
    desired: PodView,
    i: int,
    resource: Seq<char>,
)
    requires
        pod_agrees(actual, desired),
        0 <= i < (desired.spec->0).containers.len(),
        (desired.spec->0).containers[i].resources is Some,
    ensures
        ({
            let a = (actual.spec->0).containers[i].resources->0;
            let d = (desired.spec->0).containers[i].resources->0;
            &&& a.limits is Some <==> d.limits is Some
            &&& a.requests is Some <==> d.requests is Some
            &&& d.limits is Some ==> ((a.limits->0).contains_key(resource) <==> (
            d.limits->0).contains_key(resource))
            &&& d.requests is Some ==> ((a.requests->0).contains_key(resource) <==> (
            d.requests->0).contains_key(resource))
            &&& d.limits is Some && (d.limits->0).contains_key(resource) && normal_form(
                (d.limits->0)[resource],
            ) is Some && normal_form((a.limits->0)[resource]) is Some ==> normal_form(
                (a.limits->0)[resource],
            ) == normal_form((d.limits->0)[resource])
            &&& d.requests is Some && (d.requests->0).contains_key(resource) && normal_form(
                (d.requests->0)[resource],
            ) is Some && normal_form((a.requests->0)[resource]) is Some ==> normal_form(
                (a.requests->0)[resource],
            ) == normal_form((d.requests->0)[resource])
        }),
{
    let na = normal_spec(actual.spec->0);
    let nd = normal_spec(desired.spec->0);
    assert(na.containers.len() == nd.containers.len());
    assert(na.containers[i] == normal_container((actual.spec->0).containers[i]));
    assert(nd.containers[i] == normal_container((desired.spec->0).containers[i]));
    let a = (actual.spec->0).containers[i].resources->0;
    let d = (desired.spec->0).containers[i].resources->0;
    if d.limits is Some {
        let ma = normal_quantities(a.limits->0);
        let md = normal_quantities(d.limits->0);
        assert(ma == md);
        assert(ma.contains_key(resource) == md.contains_key(resource));
        assert(ma[resource] == md[resource]);
    }
    if d.requests is Some {
        let ma = normal_quantities(a.requests->0);
        let md = normal_quantities(d.requests->0);
        assert(ma == md);
        assert(ma.contains_key(resource) == md.contains_key(resource));
        assert(ma[resource] == md[resource]);
    }
}

/// The volumes of a taken-over pod are those that would have been given: the
/// same host paths and the same claims, in the same order.
pub proof fn law_adopted_pod_has_the_same_volumes(actual: PodView, desired: PodView, i: int)
    requires
        pod_agrees(actual, desired),
        (desired.spec->0).volumes is Some,
        0 <= i < ((desired.spec->0).volumes->0).len(),
    ensures
        (actual.spec->0).volumes is Some,
        ((actual.spec->0).volumes->0).len() == ((desired.spec->0).volumes->0).len(),
        ({
            let a = ((actual.spec->0).volumes->0)[i];
            let d = ((desired.spec->0).volumes->0)[i];
            &&& a.name == d.name
            &&& a.host_path == d.host_path
            &&& a.persistent_volume_claim == d.persistent_volume_claim
            &&& a.empty_dir is Some <==> d.empty_dir is Some
            &&& a.other == d.other
        }),
{
    let na = normal_spec(actual.spec->0);
    let nd = normal_spec(desired.spec->0);
    assert((na.volumes->0).len() == (nd.volumes->0).len());
    assert((na.volumes->0)[i] == normal_volume(((actual.spec->0).volumes->0)[i]));
    assert((nd.volumes->0)[i] == normal_volume(((desired.spec->0).volumes->0)[i]));
}

/// A taken-over object has the labels and annotations that were asked for; the
/// one annotation it may have besides says that it was recorded.
pub proof fn law_adopted_object_has_the_same_marks(
    actual: ObjectMetaView,
    desired: ObjectMetaView,
    name: Seq<char>,
)
    requires
        metadata_agrees(actual, desired),
        actual.labels is Some && desired.labels is Some,
        actual.annotations is Some && desired.annotations is Some,
    ensures
        actual.labels->0 == desired.labels->0,
        name != PROVENANCE_RECORDED_ANNOTATION@ ==> (actual.annotations->0).contains_key(name) == (
        desired.annotations->0).contains_key(name),
        name != PROVENANCE_RECORDED_ANNOTATION@ && (desired.annotations->0).contains_key(name) ==> (
        actual.annotations->0)[name] == (desired.annotations->0)[name],
        (actual.annotations->0).contains_key(PROVENANCE_RECORDED_ANNOTATION@) && (
        actual.annotations->0)[PROVENANCE_RECORDED_ANNOTATION@] != "true"@ ==> (
        desired.annotations->0).contains_key(PROVENANCE_RECORDED_ANNOTATION@),
        actual.owner_references == desired.owner_references,
{
    let kept = without_provenance_mark(actual.annotations->0);
    assert(kept == desired.annotations->0);
    assert(name != PROVENANCE_RECORDED_ANNOTATION@ ==> kept.contains_key(name) == (
    actual.annotations->0).contains_key(name));
}

/// A pod to which the cluster gave a priority, a security context or tolerations
/// of its own is not the one that was asked for.
pub proof fn law_adopted_pod_has_no_added_rights(actual: PodView, desired: PodView)
    requires
        pod_agrees(actual, desired),
        (desired.spec->0).priority is None,
        (desired.spec->0).security_context is None,
        (desired.spec->0).tolerations is None,
    ensures
        (actual.spec->0).priority is Some ==> (actual.spec->0).priority == Some(0i32),
        (actual.spec->0).security_context is Some ==> ((
        actual.spec->0).security_context->0).run_as_user is None && ((
        actual.spec->0).security_context->0).other.len() == 0,
        (actual.spec->0).tolerations is Some ==> forall|i: int|
            0 <= i < ((actual.spec->0).tolerations->0).len() ==> {
                let t = #[trigger] ((actual.spec->0).tolerations->0)[i];
                &&& t.key == Some("node.kubernetes.io/not-ready"@) || t.key == Some(
                    "node.kubernetes.io/unreachable"@,
                )
                &&& t.effect == Some("NoExecute"@)
                &&& t.operator == Some("Exists"@)
                &&& t.value is None
                &&& t.toleration_seconds == Some(300i64)
            },
{
    if (actual.spec->0).tolerations is Some {
        let all = (actual.spec->0).tolerations->0;
        let own = |t: TolerationView| !is_default_toleration(t);
        assert forall|i: int| 0 <= i < all.len() implies is_default_toleration(#[trigger] all[i]) by {
            if !is_default_toleration(all[i]) {
                lemma_filter_members(all, own, all[i]);
                assert(all.filter(own).contains(all[i]));
            }
        }
    }
}

/// A taken-over service leads to the same pods: the same selector and ports,
/// without an address of its own.
pub proof fn law_adopted_service_leads_to_the_same_pods(actual: ServiceView, desired: ServiceView)
    requires
        service_agrees(actual, desired),
    ensures
        actual.metadata.name == desired.metadata.name,
        actual.metadata.namespace == desired.metadata.namespace,
        (actual.spec->0).selector == (desired.spec->0).selector,
        (actual.spec->0).ports == (desired.spec->0).ports,
        (actual.spec->0).type_ == (desired.spec->0).type_,
        (actual.spec->0).session_affinity == (desired.spec->0).session_affinity,
        (actual.spec->0).internal_traffic_policy == (desired.spec->0).internal_traffic_policy,
        (actual.spec->0).publish_not_ready_addresses == (
        desired.spec->0).publish_not_ready_addresses,
        (actual.spec->0).external_ips == (desired.spec->0).external_ips,
        (actual.spec->0).other == (desired.spec->0).other,
        (actual.spec->0).cluster_ip == Some("None"@),
        (desired.spec->0).cluster_ip == Some("None"@),
{
}

/// The addresses that the cluster assigns to a service do not keep it from being
/// taken over; nothing else may differ.
pub proof fn law_assigned_addresses_are_accepted(
    actual: ServiceView,
    desired: ServiceView,
    addresses: ServiceSpecView,
)
    requires
        service_agrees(actual, desired),
    ensures
        service_agrees(
            ServiceView {
                spec: Some(
                    ServiceSpecView {
                        cluster_ips: addresses.cluster_ips,
                        ip_families: addresses.ip_families,
                        ip_family_policy: addresses.ip_family_policy,
                        ..(actual.spec->0)
                    },
                ),
                ..actual
            },
            desired,
        ),
{
}

/// An object without a specification is not the one that was asked for.
pub proof fn law_adopted_objects_are_specified(
    pod: PodView,
    desired_pod: PodView,
    service: ServiceView,
    desired_service: ServiceView,
)
    ensures
        pod_agrees(pod, desired_pod) ==> pod.spec is Some && desired_pod.spec is Some,
        service_agrees(service, desired_service) ==> service.spec is Some
            && desired_service.spec is Some,
{
}

/// A service that is left as it was asked for agrees with what was asked for.
pub proof fn law_service_agrees_with_itself(desired: ServiceView)
    requires
        desired.spec is Some,
        (desired.spec->0).cluster_ip == Some("None"@),
        desired.metadata.finalizers is None,
        lookup(map_or_empty(desired.metadata.annotations), PROVENANCE_RECORDED_ANNOTATION@) is None,
    ensures
        service_agrees(desired, desired),
{
}

} // verus!
