//! Isolating jobs in control groups: where the groups are, what is written to
//! them, and what is read from them.

use vstd::prelude::*;
use crate::execution_identity::is_blank;
use crate::plain::Plain;
use crate::text::{
    char_is, chars_of, decimal, has_prefix, join2, join3, join_all, joined, law_joined_reads_back,
    lemma_position_is, parse_i32, same_text, signed_value, split_on, split_text, starts_with_text,
    text_of, u32_text, u64_text,
};
use crate::words::{lines, lines_of, trim_text, trimmed, white_space, words, words_of};

verus! {

/// Where control groups are mounted.
pub const CGROUP2_MOUNT: &'static str = "/sys/fs/cgroup";

/// Where the groups of jobs are, for an agent that runs as root.
pub const ROOT_FALLBACK: &'static str = "/sys/fs/cgroup/spur";

/// The group of the agent itself.
pub const DAEMON_SUBGROUP: &'static str = "spurd";

/// An absolute path, as the names on the way to it.
#[derive(Clone, Debug, Default)]
pub struct GroupPath {
    pub parts: Vec<String>,
}

/// What a [`GroupPath`] holds.
#[verifier::ext_equal]
pub struct GroupPathView {
    pub parts: Seq<Seq<char>>,
}

impl View for GroupPath {
    type V = GroupPathView;

    open spec fn view(&self) -> GroupPathView {
        GroupPathView {
            parts: self.parts.deep_view(),
        }
    }
}

impl DeepView for GroupPath {
    type V = GroupPathView;

    open spec fn deep_view(&self) -> GroupPathView {
        self@
    }
}

impl Plain for GroupPath {
    fn equals(&self, other: &Self) -> (same: bool) {
        self.parts.equals(&other.parts)
    }

    fn copy_of(&self) -> (out: Self) {
        GroupPath {
            parts: self.parts.copy_of(),
        }
    }
}

/// A control of a group and the value written to it.
#[derive(Clone, Debug, Default)]
pub struct Control {
    pub name: String,
    pub value: String,
}

/// What a [`Control`] holds.
#[verifier::ext_equal]
pub struct ControlView {
    pub name: Seq<char>,
    pub value: Seq<char>,
}

impl View for Control {
    type V = ControlView;

    open spec fn view(&self) -> ControlView {
        ControlView {
            name: self.name.deep_view(),
            value: self.value.deep_view(),
        }
    }
}

impl DeepView for Control {
    type V = ControlView;

    open spec fn deep_view(&self) -> ControlView {
        self@
    }
}

impl Plain for Control {
    fn equals(&self, other: &Self) -> (same: bool) {
        self.name.equals(&other.name)
            && self.value.equals(&other.value)
    }

    fn copy_of(&self) -> (out: Self) {
        Control {
            name: self.name.copy_of(),
            value: self.value.copy_of(),
        }
    }
}

/// Whether a piece of a path is a step on the way.
pub open spec fn is_step(piece: Seq<char>) -> bool {
    piece.len() > 0 && piece != "."@
}

/// The steps of a path: its pieces between slashes.
pub open spec fn steps_of(pieces: Seq<Seq<char>>) -> Seq<Seq<char>>
    decreases pieces.len(),
{
    if pieces.len() == 0 {
        Seq::empty()
    } else if is_step(pieces.last()) {
        steps_of(pieces.drop_last()).push(pieces.last())
    } else {
        steps_of(pieces.drop_last())
    }
}

impl GroupPathView {
    /// The path that a text names; it is taken from the root.
    pub open spec fn parsed(text: Seq<char>) -> GroupPathView {
        GroupPathView { parts: steps_of(split_on(text, '/')) }
    }

    /// The path to `name` in this one.
    pub open spec fn join(self, name: Seq<char>) -> GroupPathView {
        GroupPathView { parts: self.parts.push(name) }
    }

    /// Whether this path is `base` or leads through it.
    pub open spec fn starts_with(self, base: GroupPathView) -> bool {
        base.parts.len() <= self.parts.len() && self.parts.take(base.parts.len() as int)
            == base.parts
    }

    /// The text of the path.
    pub open spec fn text(self) -> Seq<char> {
        "/"@ + joined(self.parts, "/"@)
    }
}

impl GroupPath {
    /// The path that a text names; it is taken from the root.
    pub fn parse(text: &str) -> (out: Self)
        ensures
            out@ == GroupPathView::parsed(text@),
    {
        let pieces: Vec<String> = split_text(text, '/');
        let ghost all = split_on(text@, '/');
        let mut parts: Vec<String> = Vec::new();
        let mut i: usize = 0;
        proof {
            assert(all.take(0) =~= Seq::<Seq<char>>::empty());
            assert(parts.deep_view() =~= Seq::<Seq<char>>::empty());
        }
        while i < pieces.len()
            invariant
                i <= pieces@.len(),
                pieces.deep_view() == all,
                parts.deep_view() == steps_of(all.take(i as int)),
            decreases pieces@.len() - i,
        {
            let ghost before = parts.deep_view();
            proof {
                assert(all[i as int] == pieces@[i as int]@);
                assert(all.take(i + 1).drop_last() =~= all.take(i as int));
                assert(all.take(i + 1).last() == pieces@[i as int]@);
            }
            if !is_blank(&pieces[i]) && !same_text(pieces[i].as_str(), ".") {
                parts.push(pieces[i].clone());
                proof {
                    assert(parts.deep_view() =~= before.push(pieces@[i as int]@));
                }
            }
            i = i + 1;
        }
        proof {
            assert(all.take(i as int) =~= all);
        }
        GroupPath { parts }
    }

    /// The path to `name` in this one.
    pub fn join(&self, name: &str) -> (out: Self)
        ensures
            out@ == self@.join(name@),
    {
        let mut parts: Vec<String> = self.parts.copy_of();
        let ghost before = parts.deep_view();
        let last: String = name.to_owned();
        parts.push(last);
        proof {
            assert(parts.deep_view() =~= before.push(name@));
        }
        GroupPath { parts }
    }

    /// Whether this path is `base` or leads through it.
    pub fn starts_with(&self, base: &GroupPath) -> (yes: bool)
        ensures
            yes == self@.starts_with(base@),
    {
        if base.parts.len() > self.parts.len() {
            return false;
        }
        let ghost whole = self.parts.deep_view();
        let ghost front = base.parts.deep_view();
        let mut i: usize = 0;
        while i < base.parts.len()
            invariant
                i <= base.parts@.len() <= self.parts@.len(),
                whole == self.parts.deep_view(),
                front == base.parts.deep_view(),
                forall|j: int| 0 <= j < i ==> whole[j] == #[trigger] front[j],
            decreases base.parts@.len() - i,
        {
            proof {
                assert(whole[i as int] == self.parts@[i as int]@);
                assert(front[i as int] == base.parts@[i as int]@);
            }
            if self.parts[i] != base.parts[i] {
                proof {
                    assert(whole.take(front.len() as int)[i as int] != front[i as int]);
                }
                return false;
            }
            i = i + 1;
        }
        proof {
            assert(whole.take(front.len() as int) =~= front);
        }
        true
    }

    /// The text of the path.
    pub fn text(&self) -> (out: String)
        ensures
            out@ == self@.text(),
    {
        let parts = join_all(&self.parts, "/");
        join2("/", parts.as_str())
    }
}

/// Where the agent puts the groups of jobs.
#[derive(Debug)]
pub enum Layout {
    /// In the group that was delegated to the agent's unit.
    SystemdDelegated { root: GroupPath },
    /// In the agent's own group, once the agent has moved to a group below it.
    SelfDelegated { root: GroupPath, daemon: GroupPath },
    /// In a group of its own.
    RootFallback { root: GroupPath },
}

/// What a [`Layout`] holds.
pub enum LayoutView {
    SystemdDelegated { root: GroupPathView },
    SelfDelegated { root: GroupPathView, daemon: GroupPathView },
    RootFallback { root: GroupPathView },
}

impl View for Layout {
    type V = LayoutView;

    open spec fn view(&self) -> LayoutView {
        match self {
            Layout::SystemdDelegated { root } => LayoutView::SystemdDelegated { root: root@ },
            Layout::SelfDelegated { root, daemon } => LayoutView::SelfDelegated {
                root: root@,
                daemon: daemon@,
            },
            Layout::RootFallback { root } => LayoutView::RootFallback { root: root@ },
        }
    }
}

impl LayoutView {
    /// The group that holds those of the jobs.
    pub open spec fn root(self) -> GroupPathView {
        match self {
            LayoutView::SystemdDelegated { root } => root,
            LayoutView::SelfDelegated { root, .. } => root,
            LayoutView::RootFallback { root } => root,
        }
    }
}

/// The outcome of a step that may fail with a message.
pub open spec fn told<T: View>(outcome: Result<T, String>) -> Result<T::V, Seq<char>> {
    match outcome {
        Ok(value) => Ok(value@),
        Err(message) => Err(message@),
    }
}

/// Where an agent in the group `current` puts the groups of jobs.
pub open spec fn layout_selected(
    mount: GroupPathView,
    current: GroupPathView,
    root_fallback: GroupPathView,
    is_root: bool,
) -> Result<LayoutView, Seq<char>> {
    if current.parts.len() > 0 && current.parts.last() == DAEMON_SUBGROUP@ {
        let root = GroupPathView { parts: current.parts.drop_last() };
        if root.starts_with(mount) {
            Ok(LayoutView::SystemdDelegated { root })
        } else {
            Err("systemd delegated cgroup is outside the cgroup-v2 mount"@)
        }
    } else if is_root {
        Ok(LayoutView::RootFallback { root: root_fallback })
    } else if !current.starts_with(mount) {
        Err("current cgroup is outside the cgroup-v2 mount"@)
    } else {
        Ok(LayoutView::SelfDelegated { root: current, daemon: current.join(DAEMON_SUBGROUP@) })
    }
}

/// Where an agent in the group `current` puts the groups of jobs.
pub fn select_layout(
    mount: &GroupPath,
    current: &GroupPath,
    root_fallback: &GroupPath,
    is_root: bool,
) -> (out: Result<Layout, String>)
    ensures
        told(out) == layout_selected(mount@, current@, root_fallback@, is_root),
{
    let n: usize = current.parts.len();
    proof {
        if n > 0 {
            assert(current.parts.deep_view()[n - 1] == current.parts@[n - 1]@);
        }
    }
    if n > 0 && same_text(current.parts[n - 1].as_str(), DAEMON_SUBGROUP) {
        let mut parts: Vec<String> = current.parts.copy_of();
        proof {
            assert(parts.deep_view().len() == parts@.len());
        }
        let ghost before = parts.deep_view();
        let _ = parts.pop();
        proof {
            assert(parts.deep_view() =~= before.drop_last());
        }
        let root = GroupPath { parts };
        if !root.starts_with(mount) {
            return Err("systemd delegated cgroup is outside the cgroup-v2 mount".to_owned());
        }
        return Ok(Layout::SystemdDelegated { root });
    }
    if is_root {
        return Ok(Layout::RootFallback { root: root_fallback.copy_of() });
    }
    if !current.starts_with(mount) {
        return Err("current cgroup is outside the cgroup-v2 mount".to_owned());
    }
    Ok(Layout::SelfDelegated { root: current.copy_of(), daemon: current.join(DAEMON_SUBGROUP) })
}

/// The group that the first line about the unified hierarchy names.
pub open spec fn unified_membership(list: Seq<Seq<char>>) -> Option<Seq<char>>
    decreases list.len(),
{
    if list.len() == 0 {
        None
    } else if starts_with_text(list[0], "0::"@) {
        Some(list[0].skip(3))
    } else {
        unified_membership(list.skip(1))
    }
}

/// The group that a process is in, by the contents of its list of groups.
pub fn current_unified_cgroup(contents: &str) -> (out: Result<String, String>)
    ensures
        told(out) == match unified_membership(lines_of(contents@)) {
            Some(path) => Ok::<Seq<char>, Seq<char>>(path),
            None => Err::<Seq<char>, Seq<char>>("unified cgroup-v2 membership not found"@),
        },
{
    let all: Vec<String> = lines(contents);
    let ghost list = lines_of(contents@);
    let mut i: usize = 0;
    proof {
        assert(list.skip(0) =~= list);
    }
    while i < all.len()
        invariant
            i <= all@.len(),
            all.deep_view() == list,
            list == lines_of(contents@),
            unified_membership(list) == unified_membership(list.skip(i as int)),
        decreases all@.len() - i,
    {
        proof {
            assert(list.skip(i as int)[0] == all@[i as int]@);
            assert(list.skip(i as int).skip(1) =~= list.skip(i + 1));
        }
        if has_prefix(all[i].as_str(), "0::") {
            let chars: Vec<char> = chars_of(all[i].as_str());
            proof {
                reveal_strlit("0::");
                assert(chars@.subrange(3, chars@.len() as int) =~= chars@.skip(3));
            }
            return Ok(text_of(&chars, 3, chars.len()));
        }
        i = i + 1;
    }
    Err("unified cgroup-v2 membership not found".to_owned())
}

/// Where an agent puts the groups of jobs, by the contents of its list of groups.
pub open spec fn discovered(contents: Seq<char>, is_root: bool) -> Result<LayoutView, Seq<char>> {
    let mount = GroupPathView::parsed(CGROUP2_MOUNT@);
    match unified_membership(lines_of(contents)) {
        None => Err("unified cgroup-v2 membership not found"@),
        Some(path) => layout_selected(
            mount,
            GroupPathView { parts: mount.parts + GroupPathView::parsed(path).parts },
            GroupPathView::parsed(ROOT_FALLBACK@),
            is_root,
        ),
    }
}

/// Where an agent puts the groups of jobs, by the contents of its list of groups.
pub fn discover(contents: &str, is_root: bool) -> (out: Result<Layout, String>)
    ensures
        told(out) == discovered(contents@, is_root),
{
    let path = match current_unified_cgroup(contents) {
        Err(message) => return Err(message),
        Ok(path) => path,
    };
    let mount = GroupPath::parse(CGROUP2_MOUNT);
    let below = GroupPath::parse(path.as_str());
    let mut current = mount.copy_of();
    let mut i: usize = 0;
    proof {
        assert(below@.parts.take(0) =~= Seq::<Seq<char>>::empty());
        assert(mount@.parts + below@.parts.take(0) =~= mount@.parts);
    }
    while i < below.parts.len()
        invariant
            i <= below.parts@.len(),
            current@.parts == mount@.parts + below@.parts.take(i as int),
        decreases below.parts@.len() - i,
    {
        proof {
            assert(below@.parts[i as int] == below.parts@[i as int]@);
            assert(below@.parts.take(i + 1) =~= below@.parts.take(i as int).push(
                below@.parts[i as int],
            ));
            assert(mount@.parts + below@.parts.take(i + 1) =~= (mount@.parts + below@.parts.take(
                i as int,
            )).push(below@.parts[i as int]));
        }
        current = current.join(below.parts[i].as_str());
        i = i + 1;
    }
    proof {
        assert(below@.parts.take(i as int) =~= below@.parts);
        assert(current@ =~= (GroupPathView { parts: mount@.parts + below@.parts }));
    }
    select_layout(&mount, &current, &GroupPath::parse(ROOT_FALLBACK), is_root)
}

/// Without root, the groups of jobs are inside the mount; and the agent's own
/// group, where it moves to one, is a leaf next to them.
pub proof fn law_delegated_groups_are_inside(
    mount: GroupPathView,
    current: GroupPathView,
    root_fallback: GroupPathView,
)
    ensures
        layout_selected(mount, current, root_fallback, false) matches Ok(layout) ==> {
            &&& layout.root().starts_with(mount)
            &&& layout matches LayoutView::SelfDelegated { root, daemon } ==> root == current
                && daemon.starts_with(mount) && daemon.parts == root.parts.push(
                DAEMON_SUBGROUP@,
            )
        },
{
    if current.starts_with(mount) {
        let daemon = current.join(DAEMON_SUBGROUP@);
        assert(daemon.parts.take(mount.parts.len() as int) =~= current.parts.take(
            mount.parts.len() as int,
        ));
    }
}

/// The controllers that a job needs.
pub open spec fn controllers() -> Seq<Seq<char>> {
    seq!["cpu"@, "cpuset"@, "memory"@, "pids"@]
}

/// The controllers that are needed but not available.
pub open spec fn missing_controllers(available: Seq<Seq<char>>) -> Seq<Seq<char>> {
    controllers().filter(|controller: Seq<char>| !available.contains(controller))
}

fn has_word(list: &Vec<String>, word: &str) -> (yes: bool)
    ensures
        yes == list.deep_view().contains(word@),
{
    let mut i: usize = 0;
    while i < list.len()
        invariant
            i <= list@.len(),
            forall|j: int| 0 <= j < i ==> #[trigger] list.deep_view()[j] != word@,
        decreases list@.len() - i,
    {
        proof {
            assert(list.deep_view()[i as int] == list@[i as int]@);
        }
        if same_text(list[i].as_str(), word) {
            return true;
        }
        i = i + 1;
    }
    false
}

/// What is written to enable the controllers of the group `root`, given the list
/// of those available.
pub open spec fn enabled(root: Seq<char>, available: Seq<char>) -> Result<Seq<char>, Seq<char>> {
    let missing = missing_controllers(words_of(available));
    if missing.len() > 0 {
        Err(
            "required cgroup controllers are unavailable at "@ + root + ": "@ + joined(
                missing,
                ", "@,
            ),
        )
    } else {
        Ok("+cpu +cpuset +memory +pids"@)
    }
}

/// What is written to enable the controllers of the group `root`, given the list
/// of those available.
pub fn enable_controllers(root: &GroupPath, available: &str) -> (out: Result<String, String>)
    ensures
        told(out) == enabled(root@.text(), available@),
{
    let listed: Vec<String> = words(available);
    let ghost have = words_of(available@);
    let ghost absent = |controller: Seq<char>| !have.contains(controller);
    let mut missing: Vec<String> = Vec::new();
    proof {
        reveal(Seq::filter);
    }
    let has_cpu = has_word(&listed, "cpu");
    let has_cpuset = has_word(&listed, "cpuset");
    let has_memory = has_word(&listed, "memory");
    let has_pids = has_word(&listed, "pids");
    if !has_cpu {
        missing.push("cpu".to_owned());
    }
    if !has_cpuset {
        missing.push("cpuset".to_owned());
    }
    if !has_memory {
        missing.push("memory".to_owned());
    }
    if !has_pids {
        missing.push("pids".to_owned());
    }
    proof {
        let c = controllers();
        let none = Seq::<Seq<char>>::empty();
        let a = if has_cpu {
            none
        } else {
            none.push("cpu"@)
        };
        let b = if has_cpuset {
            a
        } else {
            a.push("cpuset"@)
        };
        let d = if has_memory {
            b
        } else {
            b.push("memory"@)
        };
        let e = if has_pids {
            d
        } else {
            d.push("pids"@)
        };
        assert(c.drop_last() =~= seq!["cpu"@, "cpuset"@, "memory"@]);
        assert(c.drop_last().drop_last() =~= seq!["cpu"@, "cpuset"@]);
        assert(c.drop_last().drop_last().drop_last() =~= seq!["cpu"@]);
        assert(c.drop_last().drop_last().drop_last().drop_last() =~= none);
        assert(none.filter(absent) =~= none);
        assert(seq!["cpu"@].filter(absent) =~= a);
        assert(seq!["cpu"@, "cpuset"@].filter(absent) =~= b);
        assert(seq!["cpu"@, "cpuset"@, "memory"@].filter(absent) =~= d);
        assert(c.filter(absent) =~= e);
        assert(missing.deep_view() =~= e);
    }
    if missing.len() > 0 {
        let place = root.text();
        let list = join_all(&missing, ", ");
        let head = join3(
            "required cgroup controllers are unavailable at ",
            place.as_str(),
            ": ",
        );
        return Err(join2(head.as_str(), list.as_str()));
    }
    Ok("+cpu +cpuset +memory +pids".to_owned())
}

/// Controls to write, in order, and what stops the job after them.
#[derive(Debug)]
pub struct ControlPlan {
    pub controls: Vec<Control>,
    pub defect: Option<String>,
}

/// What a [`ControlPlan`] holds.
#[verifier::ext_equal]
pub struct ControlPlanView {
    pub controls: Seq<ControlView>,
    pub defect: Option<Seq<char>>,
}

impl View for ControlPlan {
    type V = ControlPlanView;

    open spec fn view(&self) -> ControlPlanView {
        ControlPlanView {
            controls: self.controls.deep_view(),
            defect: self.defect.deep_view(),
        }
    }
}

/// One control.
pub open spec fn control(name: Seq<char>, value: Seq<char>) -> ControlView {
    ControlView { name, value }
}

/// How many processes a job with this many CPUs may have.
pub open spec fn process_limit(cpus: u32) -> nat {
    if cpus * 256 > 1024 {
        (cpus * 256) as nat
    } else {
        1024
    }
}

/// The limits of a job: CPU time, memory where it is limited, and processes.
pub open spec fn limits_of(cpus: u32, memory_mb: u64) -> ControlPlanView {
    let quota = control("cpu.max"@, decimal((cpus * 100_000) as nat) + " 100000"@);
    let group = control("memory.oom.group"@, "1"@);
    let pids = control("pids.max"@, decimal(process_limit(cpus)));
    if cpus == 0 {
        ControlPlanView {
            controls: Seq::empty(),
            defect: Some("job CPU limit must be greater than zero"@),
        }
    } else if memory_mb * 1_048_576 > u64::MAX {
        ControlPlanView { controls: seq![quota], defect: Some("job memory limit overflow"@) }
    } else if memory_mb > 0 {
        ControlPlanView {
            controls: seq![
                quota,
                control("memory.max"@, decimal((memory_mb * 1_048_576) as nat)),
                group,
                pids,
            ],
            defect: None,
        }
    } else {
        ControlPlanView { controls: seq![quota, group, pids], defect: None }
    }
}

fn set(name: &str, value: String) -> (out: Control)
    ensures
        out@ == control(name@, value@),
{
    Control { name: name.to_owned(), value }
}

/// The limits of a job: CPU time, memory where it is limited, and processes.
pub fn configure_job(cpus: u32, memory_mb: u64) -> (out: ControlPlan)
    ensures
        out@ == limits_of(cpus, memory_mb),
{
    let mut controls: Vec<Control> = Vec::new();
    if cpus == 0 {
        let out = ControlPlan {
            controls,
            defect: Some("job CPU limit must be greater than zero".to_owned()),
        };
        proof {
            assert(out@ =~= limits_of(cpus, memory_mb));
        }
        return out;
    }
    let quota: u64 = cpus as u64 * 100_000;
    let quota_text = u64_text(quota);
    controls.push(set("cpu.max", join2(quota_text.as_str(), " 100000")));
    if memory_mb > 0 {
        match memory_mb.checked_mul(1_048_576) {
            None => {
                let out = ControlPlan {
                    controls,
                    defect: Some("job memory limit overflow".to_owned()),
                };
                proof {
                    assert(out@ =~= limits_of(cpus, memory_mb));
                }
                return out;
            },
            Some(bytes) => {
                controls.push(set("memory.max", u64_text(bytes)));
            },
        }
    }
    controls.push(set("memory.oom.group", "1".to_owned()));
    let scaled: u64 = cpus as u64 * 256;
    let pids: u64 = if scaled > 1024 {
        scaled
    } else {
        1024
    };
    controls.push(set("pids.max", u64_text(pids)));
    let out = ControlPlan { controls, defect: None };
    proof {
        assert(out@ =~= limits_of(cpus, memory_mb));
    }
    out
}

/// The texts of numbers.
pub open spec fn number_texts(numbers: Seq<u32>) -> Seq<Seq<char>> {
    numbers.map_values(|n: u32| decimal(n as nat))
}

/// The CPUs that a job is bound to, and the memory nodes of the group `root`,
/// whose list of effective ones is `mems`.
pub open spec fn cpuset_of(cpu_ids: Seq<u32>, mems: Seq<char>, root: Seq<char>) -> Result<
    Seq<ControlView>,
    Seq<char>,
> {
    if cpu_ids.len() == 0 {
        Ok(Seq::empty())
    } else if trimmed(mems).len() == 0 {
        Err("effective NUMA-node mask is empty at "@ + root)
    } else {
        Ok(
            seq![
                control("cpuset.mems"@, trimmed(mems)),
                control("cpuset.cpus"@, joined(number_texts(cpu_ids), ","@)),
            ],
        )
    }
}

fn texts_of_numbers(numbers: &Vec<u32>) -> (out: Vec<String>)
    ensures
        out.deep_view() == number_texts(numbers@),
{
    let mut out: Vec<String> = Vec::new();
    let mut i: usize = 0;
    while i < numbers.len()
        invariant
            i <= numbers@.len(),
            out.deep_view() == number_texts(numbers@).take(i as int),
        decreases numbers@.len() - i,
    {
        let ghost before = out.deep_view();
        let text = u32_text(numbers[i]);
        out.push(text);
        proof {
            assert(out.deep_view() =~= before.push(text@));
            assert(number_texts(numbers@).take(i + 1) =~= before.push(
                number_texts(numbers@)[i as int],
            ));
        }
        i = i + 1;
    }
    proof {
        assert(number_texts(numbers@).take(i as int) =~= number_texts(numbers@));
    }
    out
}

/// The CPUs that a job is bound to, and the memory nodes of the group `root`,
/// whose list of effective ones is `mems`. It is asked only of jobs that are
/// bound to CPUs.
pub fn configure_cpuset(cpu_ids: &Vec<u32>, mems: &str, root: &GroupPath) -> (out: Result<
    Vec<Control>,
    String,
>)
    ensures
        match out {
            Ok(controls) => cpuset_of(cpu_ids@, mems@, root@.text()) == Ok::<
                Seq<ControlView>,
                Seq<char>,
            >(controls.deep_view()),
            Err(message) => cpuset_of(cpu_ids@, mems@, root@.text()) == Err::<
                Seq<ControlView>,
                Seq<char>,
            >(message@),
        },
{
    let mut controls: Vec<Control> = Vec::new();
    if cpu_ids.len() == 0 {
        proof {
            assert(controls.deep_view() =~= Seq::<ControlView>::empty());
        }
        return Ok(controls);
    }
    let nodes = trim_text(mems);
    if is_blank(&nodes) {
        let place = root.text();
        return Err(join2("effective NUMA-node mask is empty at ", place.as_str()));
    }
    let ids = texts_of_numbers(cpu_ids);
    controls.push(set("cpuset.mems", nodes));
    controls.push(set("cpuset.cpus", join_all(&ids, ",")));
    proof {
        assert(controls.deep_view() =~= seq![
            control("cpuset.mems"@, trimmed(mems@)),
            control("cpuset.cpus"@, joined(number_texts(cpu_ids@), ","@)),
        ]);
    }
    Ok(controls)
}

/// The group that holds those of the jobs.
#[derive(Debug)]
pub struct Hierarchy {
    pub root: GroupPath,
}

/// The group of a job.
pub open spec fn job_group(root: GroupPathView, job_id: u32) -> GroupPathView {
    root.join("job_"@ + decimal(job_id as nat))
}

impl Hierarchy {
    /// The group of a job.
    pub fn job_path(&self, job_id: u32) -> (out: GroupPath)
        ensures
            out@ == job_group(self.root@, job_id),
    {
        let id = u32_text(job_id);
        let name = join2("job_", id.as_str());
        self.root.join(name.as_str())
    }
}

/// Why the group of a job could not be made.
pub open spec fn group_not_made(path: Seq<char>, already_exists: bool) -> Seq<char> {
    if already_exists {
        "job cgroup "@ + path + " already exists; refusing to mix launches"@
    } else {
        "create job cgroup "@ + path
    }
}

/// Why the group of a job could not be made.
pub fn setup_job_failed(path: &GroupPath, already_exists: bool) -> (out: String)
    ensures
        out@ == group_not_made(path@.text(), already_exists),
{
    let place = path.text();
    if already_exists {
        join3("job cgroup ", place.as_str(), " already exists; refusing to mix launches")
    } else {
        join2("create job cgroup ", place.as_str())
    }
}

/// Two jobs never share a group.
pub proof fn law_jobs_have_their_own_groups(root: GroupPathView, job_id: u32, other: u32)
    requires
        job_group(root, job_id) == job_group(root, other),
    ensures
        job_id == other,
{
    reveal_strlit("job_");
    let a = "job_"@ + decimal(job_id as nat);
    let b = "job_"@ + decimal(other as nat);
    assert(root.parts.push(a).last() == a);
    assert(root.parts.push(b).last() == b);
    assert(a.skip(4) =~= decimal(job_id as nat));
    assert(b.skip(4) =~= decimal(other as nat));
    crate::text::law_decimal_injective(job_id as nat, other as nat);
}

/// The group of a job, which is removed when the job ends unless another takes it
/// over.
#[derive(Debug)]
pub struct JobCgroup {
    path: GroupPath,
    cleanup_on_drop: bool,
}

impl View for JobCgroup {
    type V = (GroupPathView, bool);

    /// The path of the group, and whether it is removed.
    closed spec fn view(&self) -> (GroupPathView, bool) {
        (self.path@, self.cleanup_on_drop)
    }
}

impl JobCgroup {
    /// The group at this path, which is removed when the job ends.
    pub fn new(path: GroupPath) -> (out: Self)
        ensures
            out@ == (path@, true),
    {
        JobCgroup { path, cleanup_on_drop: true }
    }

    /// The path of the group.
    pub fn path(&self) -> (out: &GroupPath)
        ensures
            out@ == self@.0,
    {
        &self.path
    }

    /// Whether the group is removed when the job ends.
    pub fn cleanup_on_drop(&self) -> (out: bool)
        ensures
            out == self@.1,
    {
        self.cleanup_on_drop
    }

    /// Takes the path over: the group is not removed with the value.
    pub fn into_path(self) -> (out: GroupPath)
        ensures
            out@ == self@.0,
    {
        self.path
    }
}

/// Whether a line of a group's memory events says that a process was killed.
pub open spec fn says_oom_kill(line: Seq<char>) -> bool {
    let fields = words_of(line);
    fields.len() >= 2 && fields[0] == "oom_kill"@ && fields[1] != "0"@
}

/// Whether a group's memory events say that a process was killed for want of
/// memory.
pub fn oom_killed(events: &str) -> (yes: bool)
    ensures
        yes == exists|i: int|
            0 <= i < lines_of(events@).len() && says_oom_kill(#[trigger] lines_of(events@)[i]),
{
    let all: Vec<String> = lines(events);
    let ghost list = lines_of(events@);
    let mut i: usize = 0;
    while i < all.len()
        invariant
            i <= all@.len(),
            all.deep_view() == list,
            list == lines_of(events@),
            forall|j: int| 0 <= j < i ==> !says_oom_kill(#[trigger] list[j]),
        decreases all@.len() - i,
    {
        let fields: Vec<String> = words(all[i].as_str());
        proof {
            assert(list[i as int] == all@[i as int]@);
            if fields@.len() >= 2 {
                assert(fields.deep_view()[0] == fields@[0]@);
                assert(fields.deep_view()[1] == fields@[1]@);
            }
        }
        if fields.len() >= 2 && same_text(fields[0].as_str(), "oom_kill") && !same_text(
            fields[1].as_str(),
            "0",
        ) {
            return true;
        }
        i = i + 1;
    }
    false
}

/// The processes that a group's list names, line by line; other lines are passed
/// over.
pub open spec fn processes_of(list: Seq<Seq<char>>) -> Seq<i32>
    decreases list.len(),
{
    if list.len() == 0 {
        Seq::empty()
    } else {
        let before = processes_of(list.drop_last());
        match signed_value(trimmed(list.last())) {
            Some(pid) => before.push(pid as i32),
            None => before,
        }
    }
}

/// The processes to kill, by the contents of a group's list of processes.
pub fn processes_to_kill(contents: &str) -> (out: Vec<i32>)
    ensures
        out@ == processes_of(lines_of(contents@)),
{
    let all: Vec<String> = lines(contents);
    let ghost list = lines_of(contents@);
    let mut out: Vec<i32> = Vec::new();
    let mut i: usize = 0;
    proof {
        assert(list.take(0) =~= Seq::<Seq<char>>::empty());
    }
    while i < all.len()
        invariant
            i <= all@.len(),
            all.deep_view() == list,
            out@ == processes_of(list.take(i as int)),
        decreases all@.len() - i,
    {
        proof {
            assert(list[i as int] == all@[i as int]@);
            assert(list.take(i + 1).drop_last() =~= list.take(i as int));
            assert(list.take(i + 1).last() == all@[i as int]@);
        }
        let text = trim_text(all[i].as_str());
        if let Some(pid) = parse_i32(text.as_str()) {
            out.push(pid);
        }
        i = i + 1;
    }
    proof {
        assert(list.take(i as int) =~= list);
    }
    out
}

/// A share of CPU time: so much in each period.
pub open spec fn share_text(quota: nat, period: nat) -> Seq<char> {
    decimal(quota) + " "@ + decimal(period)
}

/// A job gets, in each period, as many periods of CPU time as it has CPUs: its
/// share, divided by the period, is the number of its CPUs.
pub proof fn law_cpu_share_is_the_number_of_cpus(cpus: u32, memory_mb: u64)
    requires
        cpus > 0,
    ensures
        limits_of(cpus, memory_mb).controls.len() > 0,
        limits_of(cpus, memory_mb).controls[0].name == "cpu.max"@,
        exists|quota: nat, period: nat|
            {
                &&& limits_of(cpus, memory_mb).controls[0].value == #[trigger] share_text(
                    quota,
                    period,
                )
                &&& period > 0
                &&& quota == cpus * period
                &&& quota > 0
                &&& quota / period == cpus
            },
{
    lemma_period();
    let quota: nat = (cpus * 100_000) as nat;
    assert(decimal(quota) + " 100000"@ =~= share_text(quota, 100_000));
}

proof fn lemma_period()
    ensures
        " 100000"@ == " "@ + decimal(100_000),
{
    reveal_strlit(" 100000");
    reveal_strlit(" ");
    reveal_with_fuel(decimal, 7);
    assert(" 100000"@ =~= " "@ + decimal(100_000));
}

/// A job with more CPUs gets more CPU time in the same period.
pub proof fn law_more_cpus_get_more_time(cpus: u32, more: u32, memory_mb: u64)
    requires
        0 < cpus < more,
    ensures
        exists|quota: nat, larger: nat, period: nat|
            {
                &&& limits_of(cpus, memory_mb).controls[0].value == #[trigger] share_text(
                    quota,
                    period,
                )
                &&& limits_of(more, memory_mb).controls[0].value == #[trigger] share_text(
                    larger,
                    period,
                )
                &&& 0 < quota < larger
                &&& quota * more == larger * cpus
            },
{
    lemma_period();
    let quota: nat = (cpus * 100_000) as nat;
    let larger: nat = (more * 100_000) as nat;
    assert(decimal(quota) + " 100000"@ =~= share_text(quota, 100_000));
    assert(decimal(larger) + " 100000"@ =~= share_text(larger, 100_000));
    assert(quota * more == larger * cpus) by (nonlinear_arith)
        requires
            quota == cpus * 100_000,
            larger == more * 100_000,
    ;
}

/// Whether a control is among those written, with this value.
pub open spec fn is_set(
    plan: ControlPlanView,
    name: Seq<char>,
    value: Seq<char>,
) -> bool {
    plan.controls.contains(ControlView { name, value })
}

/// A job may use the memory that it asked for, to the byte, and all there is where
/// it asked for none; it may have at least 1024 processes and 256 for each of its
/// CPUs, and no more than the larger of the two. A kill for want of memory takes
/// the whole group. Only a job without CPUs, or with more memory than can be
/// counted, is refused.
pub proof fn law_limits_are_those_asked_for(cpus: u32, memory_mb: u64)
    ensures
        ({
            let plan = limits_of(cpus, memory_mb);
            &&& plan.defect is None <==> cpus > 0 && memory_mb * 1024 * 1024 <= u64::MAX
            &&& cpus == 0 ==> plan.controls.len() == 0
            &&& plan.defect is None ==> {
                &&& is_set(plan, "memory.oom.group"@, "1"@)
                &&& exists|most: nat|
                    {
                        &&& is_set(plan, "pids.max"@, #[trigger] decimal(most))
                        &&& most >= 1024
                        &&& most >= cpus * 256
                        &&& most == 1024 || most == cpus * 256
                    }
                &&& memory_mb > 0 ==> is_set(
                    plan,
                    "memory.max"@,
                    decimal((memory_mb * 1024 * 1024) as nat),
                )
                &&& memory_mb == 0 ==> forall|i: int|
                    0 <= i < plan.controls.len() ==> (#[trigger] plan.controls[i]).name
                        != "memory.max"@
            }
        }),
{
    let plan = limits_of(cpus, memory_mb);
    reveal_strlit("cpu.max");
    reveal_strlit("memory.max");
    reveal_strlit("memory.oom.group");
    reveal_strlit("pids.max");
    assert(memory_mb * 1024 * 1024 == memory_mb * 1_048_576);
    if plan.defect is None {
        let n = plan.controls.len() as int;
        assert("memory.max"@.len() != "cpu.max"@.len());
        assert("memory.max"@.len() != "memory.oom.group"@.len());
        assert("memory.max"@.len() != "pids.max"@.len());
        assert(plan.controls[n - 1] == ControlView {
            name: "pids.max"@,
            value: decimal(process_limit(cpus)),
        });
        assert(plan.controls[n - 2] == ControlView { name: "memory.oom.group"@, value: "1"@ });
        assert(is_set(plan, "pids.max"@, decimal(process_limit(cpus))));
        if memory_mb > 0 {
            assert(plan.controls[1] == ControlView {
                name: "memory.max"@,
                value: decimal((memory_mb * 1024 * 1024) as nat),
            });
        }
    }
}

/// A job that is bound to CPUs is bound to exactly those: its list of CPUs reads
/// back as them, and its memory nodes are those of the group it is in. A job bound
/// to none gets no list, and one in a group without memory nodes is refused.
pub proof fn law_cpuset_lists_the_cpus(
    cpu_ids: Seq<u32>,
    mems: Seq<char>,
    root: Seq<char>,
)
    ensures
        cpu_ids.len() == 0 ==> cpuset_of(cpu_ids, mems, root) == Ok::<Seq<ControlView>, Seq<char>>(
            Seq::empty(),
        ),
        cpu_ids.len() > 0 ==> (cpuset_of(cpu_ids, mems, root) is Err <==> trimmed(mems).len() == 0),
        cpu_ids.len() > 0 ==> (cpuset_of(cpu_ids, mems, root) matches Ok(controls) ==> {
            &&& controls.len() == 2
            &&& controls[0].name == "cpuset.mems"@ && controls[0].value == trimmed(mems)
            &&& controls[1].name == "cpuset.cpus"@
            &&& split_on(controls[1].value, ',').len() == cpu_ids.len()
            &&& forall|i: int|
                0 <= i < cpu_ids.len() ==> #[trigger] split_on(controls[1].value, ',')[i] == decimal(
                    cpu_ids[i] as nat,
                )
        }),
{
    if cpu_ids.len() > 0 {
        let texts = number_texts(cpu_ids);
        assert forall|i: int| 0 <= i < texts.len() implies !(#[trigger] texts[i]).contains(',') by {
            crate::text::lemma_decimal_digits(cpu_ids[i] as nat);
            if texts[i].contains(',') {
                let j = choose|j: int| 0 <= j < texts[i].len() && texts[i][j] == ',';
                assert(crate::text::is_digit(texts[i][j]));
            }
        }
        reveal_strlit(",");
        assert(","@ =~= seq![',']);
        crate::text::law_joined_reads_back(texts, ',');
    }
}

/// A group's memory events say that a process was killed exactly where they count
/// at least one kill.
pub proof fn law_kills_are_counted(name: Seq<char>, count: nat)
    requires
        name.len() > 0,
        forall|i: int| 0 <= i < name.len() ==> !white_space(#[trigger] name[i]),
    ensures
        says_oom_kill(name + seq![' '] + decimal(count)) <==> name == "oom_kill"@ && count > 0,
{
    crate::text::lemma_decimal_digits(count);
    let text = decimal(count);
    assert forall|i: int| 0 <= i < text.len() implies !white_space(#[trigger] text[i]) by {
        assert(crate::text::is_digit(text[i]));
    }
    crate::words::law_two_words_are_told_apart(name, ' ', text);
    reveal_strlit("0");
    assert(decimal(0) =~= "0"@);
    if text == "0"@ {
        crate::text::law_decimal_injective(count, 0);
    }
}

/// The processes of a group that are killed are those that its list names, one on
/// each line, in order.
pub proof fn law_listed_processes_are_killed(pids: Seq<i32>)
    requires
        forall|i: int| 0 <= i < pids.len() ==> #[trigger] pids[i] >= 0,
    ensures
        processes_of(Seq::new(pids.len(), |i: int| decimal(pids[i] as nat))) == pids,
    decreases pids.len(),
{
    let list = Seq::new(pids.len(), |i: int| decimal(pids[i] as nat));
    if pids.len() > 0 {
        let before = pids.drop_last();
        assert forall|i: int| 0 <= i < before.len() implies #[trigger] before[i] >= 0 by {
            assert(pids[i] >= 0);
        }
        law_listed_processes_are_killed(before);
        let head = Seq::new(before.len(), |i: int| decimal(before[i] as nat));
        assert(list.drop_last() =~= head);
        let pid = pids.last();
        assert(pids[pids.len() - 1] >= 0);
        let text = decimal(pid as nat);
        assert(list.last() == text);
        crate::text::lemma_decimal_digits(pid as nat);
        assert(crate::text::is_digit(text[0]));
        assert(crate::text::is_digit(text[text.len() - 1]));
        crate::words::law_trimmed_loses_white_space_alone(text);
        crate::text::law_signed_decimal_round_trip(pid);
        assert(before.push(pid) =~= pids);
    } else {
        assert(list =~= Seq::<Seq<char>>::empty());
        assert(pids =~= Seq::<i32>::empty());
    }
}

/// The group of an agent is the one that its list names in the unified hierarchy,
/// whatever stands before it.
pub proof fn law_membership_is_the_unified_line(
    before: Seq<Seq<char>>,
    path: Seq<char>,
    after: Seq<Seq<char>>,
)
    requires
        forall|i: int| 0 <= i < before.len() ==> !"0::"@.is_prefix_of(#[trigger] before[i]),
    ensures
        unified_membership(before + seq!["0::"@ + path] + after) == Some(path),
        unified_membership(before) is None,
    decreases before.len(),
{
    reveal_strlit("0::");
    let list = before + seq!["0::"@ + path] + after;
    if before.len() == 0 {
        let line = "0::"@ + path;
        assert(list[0] == line);
        assert(line.take(3) =~= "0::"@);
        assert(line.skip(3) =~= path);
    } else {
        assert(list[0] == before[0]);
        assert(!"0::"@.is_prefix_of(before[0]));
        if starts_with_text(before[0], "0::"@) {
            assert(before[0].take(3) =~= before[0].subrange(0, 3));
        }
        let rest = before.skip(1);
        assert forall|i: int| 0 <= i < rest.len() implies !"0::"@.is_prefix_of(
            #[trigger] rest[i],
        ) by {
            assert(rest[i] == before[i + 1]);
        }
        law_membership_is_the_unified_line(rest, path, after);
        assert(list.skip(1) =~= rest + seq!["0::"@ + path] + after);
    }
}

/// The controllers are enabled exactly where all four that jobs need are available;
/// the refusal names those that are not.
pub proof fn law_all_controllers_are_needed(root: Seq<char>, available: Seq<char>)
    ensures
        enabled(root, available) is Ok <==> words_of(available).contains("cpu"@) && words_of(
            available,
        ).contains("cpuset"@) && words_of(available).contains("memory"@) && words_of(
            available,
        ).contains("pids"@),
        enabled(root, available) matches Ok(text) ==> text == "+cpu +cpuset +memory +pids"@,
{
    let have = words_of(available);
    let absent = |controller: Seq<char>| !have.contains(controller);
    let c = seq!["cpu"@, "cpuset"@, "memory"@, "pids"@];
    broadcast use vstd::seq_lib::group_filter_ensures;
    assert(c[0] == "cpu"@ && c[1] == "cpuset"@ && c[2] == "memory"@ && c[3] == "pids"@);
    let missing = c.filter(absent);
    if missing.len() > 0 {
        assert(absent(missing[0]));
        assert(missing.contains(missing[0]));
        crate::accounts::lemma_filter_members(c, absent, missing[0]);
        assert(c.contains(missing[0]));
    }
    if !have.contains("cpu"@) {
        assert(missing.contains(c[0]));
    }
    if !have.contains("cpuset"@) {
        assert(missing.contains(c[1]));
    }
    if !have.contains("memory"@) {
        assert(missing.contains(c[2]));
    }
    if !have.contains("pids"@) {
        assert(missing.contains(c[3]));
    }
}

/// An agent that runs in its own subgroup of a delegated group leaves the group of
/// the jobs above it; as root, without delegation, it uses the fallback.
pub proof fn law_layout_follows_the_agent(
    mount: GroupPathView,
    current: GroupPathView,
    root_fallback: GroupPathView,
    is_root: bool,
)
    ensures
        layout_selected(mount, current, root_fallback, is_root) matches Ok(layout) ==> {
            &&& layout is SystemdDelegated <==> current.parts.len() > 0 && current.parts.last()
                == DAEMON_SUBGROUP@
            &&& layout is SystemdDelegated ==> layout.root().parts.push(DAEMON_SUBGROUP@)
                == current.parts
            &&& layout is RootFallback ==> is_root && layout.root() == root_fallback
            &&& layout is SelfDelegated ==> !is_root && layout.root() == current
        },
        is_root && (current.parts.len() == 0 || current.parts.last() != DAEMON_SUBGROUP@)
            ==> layout_selected(mount, current, root_fallback, is_root) is Ok,
{
    if current.parts.len() > 0 && current.parts.last() == DAEMON_SUBGROUP@ {
        assert(current.parts.drop_last().push(DAEMON_SUBGROUP@) =~= current.parts);
    }
}

/// Whether every step of a path is one that a path can have.
pub open spec fn is_plain(path: GroupPathView) -> bool {
    forall|i: int|
        0 <= i < path.parts.len() ==> (#[trigger] path.parts[i]).len() > 0 && path.parts[i] != "."@
            && !path.parts[i].contains('/')
}

/// A path is read back from its text: the names between slashes are its steps.
pub proof fn law_path_reads_back(path: GroupPathView)
    requires
        is_plain(path),
    ensures
        GroupPathView::parsed(path.text()) == path,
{
    reveal_strlit("/");
    assert("/"@ =~= seq!['/']);
    let text = path.text();
    let inner = joined(path.parts, seq!['/']);
    assert(text =~= seq!['/'] + inner);
    let is_sep = char_is('/');
    assert(is_sep(text[0]));
    lemma_position_is(text, is_sep, 0);
    assert(text.skip(1) =~= inner);
    assert(text.take(0) =~= Seq::<char>::empty());
    let pieces = split_on(text, '/');
    assert(pieces == seq![Seq::<char>::empty()] + split_on(inner, '/'));
    if path.parts.len() > 0 {
        law_joined_reads_back(path.parts, '/');
        lemma_steps_kept(path.parts);
        assert(pieces == seq![Seq::<char>::empty()] + path.parts);
    } else {
        assert(inner =~= Seq::<char>::empty());
        lemma_position_is(inner, is_sep, 0);
        assert(split_on(inner, '/') =~= seq![Seq::<char>::empty()]);
        assert(pieces.drop_last() =~= seq![Seq::<char>::empty()]);
        assert(pieces.drop_last().drop_last() =~= Seq::<Seq<char>>::empty());
        reveal_with_fuel(steps_of, 3);
        assert(steps_of(pieces) =~= path.parts);
    }
    assert(GroupPathView::parsed(text).parts =~= path.parts);
}

proof fn lemma_steps_kept(parts: Seq<Seq<char>>)
    requires
        forall|i: int| 0 <= i < parts.len() ==> is_step(#[trigger] parts[i]),
    ensures
        steps_of(seq![Seq::<char>::empty()] + parts) == parts,
    decreases parts.len(),
{
    let all = seq![Seq::<char>::empty()] + parts;
    if parts.len() == 0 {
        assert(all.drop_last() =~= Seq::<Seq<char>>::empty());
        assert(all.last() == Seq::<char>::empty());
        reveal_with_fuel(steps_of, 2);
        assert(steps_of(all) =~= parts);
    } else {
        let init = parts.drop_last();
        assert(is_step(parts[parts.len() - 1]));
        assert forall|i: int| 0 <= i < init.len() implies is_step(#[trigger] init[i]) by {
            assert(init[i] == parts[i]);
        }
        lemma_steps_kept(init);
        assert(all.drop_last() =~= seq![Seq::<char>::empty()] + init);
        assert(all.last() == parts.last());
        assert(init.push(parts.last()) =~= parts);
    }
}

/// The group of a job is the one below the root that is called after the job.
pub proof fn law_job_group_is_called_after_the_job(root: GroupPathView, job_id: u32)
    ensures
        job_group(root, job_id).parts.len() == root.parts.len() + 1,
        job_group(root, job_id).parts.drop_last() == root.parts,
        job_group(root, job_id).parts.last() == seq!['j', 'o', 'b', '_'] + decimal(job_id as nat),
        job_group(root, job_id).starts_with(root),
{
    reveal_strlit("job_");
    assert("job_"@ =~= seq!['j', 'o', 'b', '_']);
    assert(job_group(root, job_id).parts.drop_last() =~= root.parts);
    assert(job_group(root, job_id).parts.take(root.parts.len() as int) =~= root.parts);
}

/// The layout follows from the group that the agent finds itself in: that group
/// is looked for below the mount, and the fallback is a group of the mount's own.
pub proof fn law_layout_is_found_below_the_mount(contents: Seq<char>, path: GroupPathView)
    requires
        is_plain(path),
        unified_membership(lines_of(contents)) == Some(path.text()),
    ensures
        ({
            let mount = GroupPathView::parsed(CGROUP2_MOUNT@).parts;
            let in_agent = path.parts.len() > 0 && path.parts.last() == DAEMON_SUBGROUP@;
            &&& in_agent ==> (discovered(contents, false) matches Ok(
                LayoutView::SystemdDelegated { root },
            ) && root.parts == mount + path.parts.drop_last())
            &&& path.parts.len() > 0 && !in_agent ==> (discovered(contents, false) matches Ok(
                LayoutView::SelfDelegated { root, daemon },
            ) && root.parts == mount + path.parts && daemon.parts == root.parts.push(
                DAEMON_SUBGROUP@,
            ))
            &&& path.parts.len() > 0 && !in_agent ==> (discovered(contents, true) matches Ok(
                LayoutView::RootFallback { root },
            ) && root == GroupPathView::parsed(ROOT_FALLBACK@))
        }),
{
    law_path_reads_back(path);
    let mount = GroupPathView::parsed(CGROUP2_MOUNT@);
    let current = GroupPathView { parts: mount.parts + path.parts };
    if path.parts.len() > 0 {
        assert(current.parts.last() == path.parts.last());
        assert(current.parts.drop_last() =~= mount.parts + path.parts.drop_last());
        assert(current.parts.drop_last().take(mount.parts.len() as int) =~= mount.parts);
        assert(current.parts.take(mount.parts.len() as int) =~= mount.parts);
    }
}

/// The mount is where the unified hierarchy is, and the fallback lies below it.
pub proof fn law_fallback_lies_below_the_mount()
    ensures
        GroupPathView::parsed(CGROUP2_MOUNT@).parts == seq!["sys"@, "fs"@, "cgroup"@],
        GroupPathView::parsed(ROOT_FALLBACK@).parts == seq!["sys"@, "fs"@, "cgroup"@, "spur"@],
{
    reveal_strlit("/");
    reveal_strlit(".");
    reveal_strlit("sys");
    reveal_strlit("fs");
    reveal_strlit("cgroup");
    reveal_strlit("spur");
    reveal_strlit("/sys/fs/cgroup");
    reveal_strlit("/sys/fs/cgroup/spur");
    assert("."@.len() == 1);
    let mount = GroupPathView { parts: seq!["sys"@, "fs"@, "cgroup"@] };
    let fallback = GroupPathView { parts: seq!["sys"@, "fs"@, "cgroup"@, "spur"@] };
    reveal_with_fuel(joined, 5);
    let two = seq!["sys"@, "fs"@];
    assert(mount.parts.drop_last() =~= two);
    assert(two.drop_last() =~= seq!["sys"@]);
    assert(fallback.parts.drop_last() =~= mount.parts);
    assert(mount.text() =~= CGROUP2_MOUNT@);
    assert(fallback.text() =~= ROOT_FALLBACK@);
    assert(is_plain(mount));
    assert(is_plain(fallback));
    law_path_reads_back(mount);
    law_path_reads_back(fallback);
}

} // verus!
