//! Hosting job plugins: the hooks they may have, what they may ask about a job,
//! and the file that lists them.

use vstd::prelude::*;
use vstd::utf8::encode_utf8;
use crate::accounts::lemma_filter_members;
use crate::cgroup::{steps_of, GroupPath};
use crate::execution_identity::lookup;
use crate::plain::Plain;
use crate::strmap::StrMap;
use crate::text::{
    char_is, chars_of, i64_text, join2, join3, lemma_position, lemma_position_is, position, same_text,
    signed_decimal, split_on, text_of,
};
use crate::words::{
    cut_at_space, cut_space, is_space, law_trimmed_loses_white_space_alone, lines, lines_of,
    trim_text, trimmed, words, words_of,
};

verus! {

/// When a plugin is called.
#[derive(Debug, Clone, Copy, PartialEq, Eq, Hash, Structural)]
pub enum SpankHook {
    Init,
    InitPost,
    LocalUserInit,
    UserInit,
    TaskInit,
    TaskInitPrivileged,
    TaskPost,
    TaskExit,
    JobEpilog,
    SlurmctldExit,
    Exit,
}

/// The name of the function that a plugin has for a hook.
pub open spec fn symbol_of(hook: SpankHook) -> Seq<char> {
    match hook {
        SpankHook::Init => "slurm_spank_init"@,
        SpankHook::InitPost => "slurm_spank_init_post_opt"@,
        SpankHook::LocalUserInit => "slurm_spank_local_user_init"@,
        SpankHook::UserInit => "slurm_spank_user_init"@,
        SpankHook::TaskInit => "slurm_spank_task_init"@,
        SpankHook::TaskInitPrivileged => "slurm_spank_task_init_privileged"@,
        SpankHook::TaskPost => "slurm_spank_task_post_fork"@,
        SpankHook::TaskExit => "slurm_spank_task_exit"@,
        SpankHook::JobEpilog => "slurm_spank_job_epilog"@,
        SpankHook::SlurmctldExit => "slurm_spank_slurmd_exit"@,
        SpankHook::Exit => "slurm_spank_exit"@,
    }
}

impl SpankHook {
    /// The name of the function that a plugin has for this hook.
    pub fn symbol_name(&self) -> (out: &'static str)
        ensures
            out@ == symbol_of(*self),
    {
        match self {
            SpankHook::Init => "slurm_spank_init",
            SpankHook::InitPost => "slurm_spank_init_post_opt",
            SpankHook::LocalUserInit => "slurm_spank_local_user_init",
            SpankHook::UserInit => "slurm_spank_user_init",
            SpankHook::TaskInit => "slurm_spank_task_init",
            SpankHook::TaskInitPrivileged => "slurm_spank_task_init_privileged",
            SpankHook::TaskPost => "slurm_spank_task_post_fork",
            SpankHook::TaskExit => "slurm_spank_task_exit",
            SpankHook::JobEpilog => "slurm_spank_job_epilog",
            SpankHook::SlurmctldExit => "slurm_spank_slurmd_exit",
            SpankHook::Exit => "slurm_spank_exit",
        }
    }
}

/// What a plugin may ask about a job, in the order of the numbers that stand for
/// it.
#[derive(Debug, Clone, Copy, PartialEq, Eq, Structural)]
pub enum SpankItem {
    JobUid,
    JobGid,
    JobId,
    JobStepId,
    JobNnodes,
    JobNodeid,
    JobLocalTaskCount,
    JobTotalTaskCount,
    JobNcpus,
    JobArgv,
    JobEnv,
    TaskId,
    TaskGlobalId,
    TaskExitStatus,
    TaskPid,
}

/// The number that stands for an item.
pub open spec fn item_number(item: SpankItem) -> i32 {
    match item {
        SpankItem::JobUid => 0,
        SpankItem::JobGid => 1,
        SpankItem::JobId => 2,
        SpankItem::JobStepId => 3,
        SpankItem::JobNnodes => 4,
        SpankItem::JobNodeid => 5,
        SpankItem::JobLocalTaskCount => 6,
        SpankItem::JobTotalTaskCount => 7,
        SpankItem::JobNcpus => 8,
        SpankItem::JobArgv => 9,
        SpankItem::JobEnv => 10,
        SpankItem::TaskId => 11,
        SpankItem::TaskGlobalId => 12,
        SpankItem::TaskExitStatus => 13,
        SpankItem::TaskPid => 14,
    }
}

impl SpankItem {
    /// The number that stands for the item.
    pub fn number(self) -> (out: i32)
        ensures
            out == item_number(self),
    {
        match self {
            SpankItem::JobUid => 0,
            SpankItem::JobGid => 1,
            SpankItem::JobId => 2,
            SpankItem::JobStepId => 3,
            SpankItem::JobNnodes => 4,
            SpankItem::JobNodeid => 5,
            SpankItem::JobLocalTaskCount => 6,
            SpankItem::JobTotalTaskCount => 7,
            SpankItem::JobNcpus => 8,
            SpankItem::JobArgv => 9,
            SpankItem::JobEnv => 10,
            SpankItem::TaskId => 11,
            SpankItem::TaskGlobalId => 12,
            SpankItem::TaskExitStatus => 13,
            SpankItem::TaskPid => 14,
        }
    }

    /// The item that a number stands for.
    pub fn from_number(number: i32) -> (out: Option<SpankItem>)
        ensures
            match out {
                Some(item) => item_number(item) == number,
                None => forall|item: SpankItem| #[trigger] item_number(item) != number,
            },
    {
        match number {
            0 => Some(SpankItem::JobUid),
            1 => Some(SpankItem::JobGid),
            2 => Some(SpankItem::JobId),
            3 => Some(SpankItem::JobStepId),
            4 => Some(SpankItem::JobNnodes),
            5 => Some(SpankItem::JobNodeid),
            6 => Some(SpankItem::JobLocalTaskCount),
            7 => Some(SpankItem::JobTotalTaskCount),
            8 => Some(SpankItem::JobNcpus),
            9 => Some(SpankItem::JobArgv),
            10 => Some(SpankItem::JobEnv),
            11 => Some(SpankItem::TaskId),
            12 => Some(SpankItem::TaskGlobalId),
            13 => Some(SpankItem::TaskExitStatus),
            14 => Some(SpankItem::TaskPid),
            _ => None,
        }
    }
}

/// What a call of a plugin's may be answered.
pub const ESPANK_SUCCESS: i32 = 0;

pub const ESPANK_ERROR: i32 = 1;

pub const ESPANK_BAD_ARG: i32 = 2;

pub const ESPANK_NOT_TASK: i32 = 3;

pub const ESPANK_ENV_EXISTS: i32 = 4;

pub const ESPANK_ENV_NOEXIST: i32 = 5;

pub const ESPANK_NOSPACE: i32 = 6;

pub const ESPANK_NOT_REMOTE: i32 = 7;

pub const ESPANK_NOEXIST: i32 = 8;

pub const ESPANK_NOT_AVAIL: i32 = 10;

pub const ESPANK_NOT_LOCAL: i32 = 11;

/// What an answer says.
pub open spec fn error_text(err: i32) -> Seq<char> {
    if err == ESPANK_SUCCESS {
        "Success"@
    } else if err == ESPANK_BAD_ARG {
        "Bad argument"@
    } else if err == ESPANK_NOT_TASK {
        "Not in task context"@
    } else if err == ESPANK_ENV_EXISTS {
        "Environment variable exists"@
    } else if err == ESPANK_ENV_NOEXIST {
        "No such environment variable"@
    } else if err == ESPANK_NOSPACE {
        "Buffer too small"@
    } else if err == ESPANK_NOT_REMOTE {
        "Valid only in remote context"@
    } else if err == ESPANK_NOEXIST {
        "Id/pid does not exist on this node"@
    } else if err == ESPANK_NOT_AVAIL {
        "Item not available from this callback"@
    } else if err == ESPANK_NOT_LOCAL {
        "Valid only in local or allocator context"@
    } else {
        "Generic error"@
    }
}

/// What an answer says.
pub fn spank_strerror(err: i32) -> (out: &'static str)
    ensures
        out@ == error_text(err),
{
    if err == ESPANK_SUCCESS {
        "Success"
    } else if err == ESPANK_BAD_ARG {
        "Bad argument"
    } else if err == ESPANK_NOT_TASK {
        "Not in task context"
    } else if err == ESPANK_ENV_EXISTS {
        "Environment variable exists"
    } else if err == ESPANK_ENV_NOEXIST {
        "No such environment variable"
    } else if err == ESPANK_NOSPACE {
        "Buffer too small"
    } else if err == ESPANK_NOT_REMOTE {
        "Valid only in remote context"
    } else if err == ESPANK_NOEXIST {
        "Id/pid does not exist on this node"
    } else if err == ESPANK_NOT_AVAIL {
        "Item not available from this callback"
    } else if err == ESPANK_NOT_LOCAL {
        "Valid only in local or allocator context"
    } else {
        "Generic error"
    }
}

/// What plugins may know of a job.
#[derive(Clone, Debug, Default)]
pub struct SpankContext {
    pub job_id: u32,
    pub uid: u32,
    pub gid: u32,
    pub step_id: u32,
    pub num_nodes: u32,
    pub node_id: u32,
    pub local_task_count: u32,
    pub total_task_count: u32,
    pub task_pid: u32,
}

/// What a [`SpankContext`] holds.
#[verifier::ext_equal]
pub struct SpankContextView {
    pub job_id: u32,
    pub uid: u32,
    pub gid: u32,
    pub step_id: u32,
    pub num_nodes: u32,
    pub node_id: u32,
    pub local_task_count: u32,
    pub total_task_count: u32,
    pub task_pid: u32,
}

impl View for SpankContext {
    type V = SpankContextView;

    open spec fn view(&self) -> SpankContextView {
        SpankContextView {
            job_id: self.job_id.deep_view(),
            uid: self.uid.deep_view(),
            gid: self.gid.deep_view(),
            step_id: self.step_id.deep_view(),
            num_nodes: self.num_nodes.deep_view(),
            node_id: self.node_id.deep_view(),
            local_task_count: self.local_task_count.deep_view(),
            total_task_count: self.total_task_count.deep_view(),
            task_pid: self.task_pid.deep_view(),
        }
    }
}

impl DeepView for SpankContext {
    type V = SpankContextView;

    open spec fn deep_view(&self) -> SpankContextView {
        self@
    }
}

impl Plain for SpankContext {
    fn equals(&self, other: &Self) -> (same: bool) {
        self.job_id.equals(&other.job_id)
            && self.uid.equals(&other.uid)
            && self.gid.equals(&other.gid)
            && self.step_id.equals(&other.step_id)
            && self.num_nodes.equals(&other.num_nodes)
            && self.node_id.equals(&other.node_id)
            && self.local_task_count.equals(&other.local_task_count)
            && self.total_task_count.equals(&other.total_task_count)
            && self.task_pid.equals(&other.task_pid)
    }

    fn copy_of(&self) -> (out: Self) {
        SpankContext {
            job_id: self.job_id.copy_of(),
            uid: self.uid.copy_of(),
            gid: self.gid.copy_of(),
            step_id: self.step_id.copy_of(),
            num_nodes: self.num_nodes.copy_of(),
            node_id: self.node_id.copy_of(),
            local_task_count: self.local_task_count.copy_of(),
            total_task_count: self.total_task_count.copy_of(),
            task_pid: self.task_pid.copy_of(),
        }
    }
}

/// What a plugin works on: a job, its environment, and the environment of the programs that control it.
#[derive(Clone, Debug, Default)]
pub struct SpankHandle {
    pub context: SpankContext,
    pub env: StrMap,
    /// Its keys have a prefix.
    pub job_control_env: StrMap,
}

/// What a [`SpankHandle`] holds.
#[verifier::ext_equal]
pub struct SpankHandleView {
    pub context: SpankContextView,
    pub env: Map<Seq<char>, Seq<char>>,
    pub job_control_env: Map<Seq<char>, Seq<char>>,
}

impl View for SpankHandle {
    type V = SpankHandleView;

    open spec fn view(&self) -> SpankHandleView {
        SpankHandleView {
            context: self.context.deep_view(),
            env: self.env.deep_view(),
            job_control_env: self.job_control_env.deep_view(),
        }
    }
}

impl DeepView for SpankHandle {
    type V = SpankHandleView;

    open spec fn deep_view(&self) -> SpankHandleView {
        self@
    }
}

impl Plain for SpankHandle {
    fn equals(&self, other: &Self) -> (same: bool) {
        self.context.equals(&other.context)
            && self.env.equals(&other.env)
            && self.job_control_env.equals(&other.job_control_env)
    }

    fn copy_of(&self) -> (out: Self) {
        SpankHandle {
            context: self.context.copy_of(),
            env: self.env.copy_of(),
            job_control_env: self.job_control_env.copy_of(),
        }
    }
}

/// A plugin that is to be loaded.
#[derive(Clone, Debug, Default)]
pub struct PlugstackEntry {
    pub required: bool,
    pub path: String,
    pub args: Vec<String>,
}

/// What a [`PlugstackEntry`] holds.
#[verifier::ext_equal]
pub struct PlugstackEntryView {
    pub required: bool,
    pub path: Seq<char>,
    pub args: Seq<Seq<char>>,
}

impl View for PlugstackEntry {
    type V = PlugstackEntryView;

    open spec fn view(&self) -> PlugstackEntryView {
        PlugstackEntryView {
            required: self.required.deep_view(),
            path: self.path.deep_view(),
            args: self.args.deep_view(),
        }
    }
}

impl DeepView for PlugstackEntry {
    type V = PlugstackEntryView;

    open spec fn deep_view(&self) -> PlugstackEntryView {
        self@
    }
}

impl Plain for PlugstackEntry {
    fn equals(&self, other: &Self) -> (same: bool) {
        self.required.equals(&other.required)
            && self.path.equals(&other.path)
            && self.args.equals(&other.args)
    }

    fn copy_of(&self) -> (out: Self) {
        PlugstackEntry {
            required: self.required.copy_of(),
            path: self.path.copy_of(),
            args: self.args.copy_of(),
        }
    }
}

/// A plugin that was loaded.
#[derive(Clone, Debug, Default)]
pub struct SpankPlugin {
    pub path: String,
    pub name: String,
    /// What every hook is called with.
    pub argv: Vec<String>,
}

/// What a [`SpankPlugin`] holds.
#[verifier::ext_equal]
pub struct SpankPluginView {
    pub path: Seq<char>,
    pub name: Seq<char>,
    pub argv: Seq<Seq<char>>,
}

impl View for SpankPlugin {
    type V = SpankPluginView;

    open spec fn view(&self) -> SpankPluginView {
        SpankPluginView {
            path: self.path.deep_view(),
            name: self.name.deep_view(),
            argv: self.argv.deep_view(),
        }
    }
}

impl DeepView for SpankPlugin {
    type V = SpankPluginView;

    open spec fn deep_view(&self) -> SpankPluginView {
        self@
    }
}

impl Plain for SpankPlugin {
    fn equals(&self, other: &Self) -> (same: bool) {
        self.path.equals(&other.path)
            && self.name.equals(&other.name)
            && self.argv.equals(&other.argv)
    }

    fn copy_of(&self) -> (out: Self) {
        SpankPlugin {
            path: self.path.copy_of(),
            name: self.name.copy_of(),
            argv: self.argv.copy_of(),
        }
    }
}

impl SpankHandle {
    /// The handle of a job with this environment.
    pub fn new(context: SpankContext, env: StrMap) -> (out: Self)
        ensures
            out@ == (SpankHandleView {
                context: context@,
                env: env@,
                job_control_env: Map::empty(),
            }),
    {
        SpankHandle { context, env, job_control_env: StrMap::new() }
    }
}

/// The value of an item that is known of a job.
pub open spec fn item_value(context: SpankContextView, item: i32) -> Option<u32> {
    if item == item_number(SpankItem::JobUid) {
        Some(context.uid)
    } else if item == item_number(SpankItem::JobGid) {
        Some(context.gid)
    } else if item == item_number(SpankItem::JobId) {
        Some(context.job_id)
    } else if item == item_number(SpankItem::JobStepId) {
        Some(context.step_id)
    } else if item == item_number(SpankItem::JobNnodes) {
        Some(context.num_nodes)
    } else if item == item_number(SpankItem::JobNodeid) {
        Some(context.node_id)
    } else if item == item_number(SpankItem::JobLocalTaskCount) {
        Some(context.local_task_count)
    } else if item == item_number(SpankItem::JobTotalTaskCount) {
        Some(context.total_task_count)
    } else if item == item_number(SpankItem::TaskPid) {
        Some(context.task_pid)
    } else {
        None
    }
}

/// The value of an item, or why it is not given: the number stands for nothing,
/// or for something that is not known.
pub open spec fn item_answer(context: SpankContextView, item: i32) -> Result<u32, i32> {
    match item_value(context, item) {
        Some(value) => Ok(value),
        None => if exists|known: SpankItem| #[trigger] item_number(known) == item {
            Err(ESPANK_NOT_AVAIL)
        } else {
            Err(ESPANK_BAD_ARG)
        },
    }
}

/// The value of an item, or the answer that says why it is not given.
pub fn spank_get_item(handle: &SpankHandle, item: i32) -> (out: Result<u32, i32>)
    ensures
        out == item_answer(handle@.context, item),
{
    match SpankItem::from_number(item) {
        None => Err(ESPANK_BAD_ARG),
        Some(known) => match known {
            SpankItem::JobUid => Ok(handle.context.uid),
            SpankItem::JobGid => Ok(handle.context.gid),
            SpankItem::JobId => Ok(handle.context.job_id),
            SpankItem::JobStepId => Ok(handle.context.step_id),
            SpankItem::JobNnodes => Ok(handle.context.num_nodes),
            SpankItem::JobNodeid => Ok(handle.context.node_id),
            SpankItem::JobLocalTaskCount => Ok(handle.context.local_task_count),
            SpankItem::JobTotalTaskCount => Ok(handle.context.total_task_count),
            SpankItem::TaskPid => Ok(handle.context.task_pid),
            SpankItem::JobNcpus
            | SpankItem::JobArgv
            | SpankItem::JobEnv
            | SpankItem::TaskId
            | SpankItem::TaskGlobalId
            | SpankItem::TaskExitStatus => Err(ESPANK_NOT_AVAIL),
        },
    }
}

/// An environment in which a variable was set, and the answer to that.
pub open spec fn variable_set(
    env: Map<Seq<char>, Seq<char>>,
    key: Seq<char>,
    value: Seq<char>,
    overwrite: i32,
) -> (Map<Seq<char>, Seq<char>>, i32) {
    if overwrite == 0 && env.contains_key(key) {
        (env, ESPANK_ENV_EXISTS)
    } else {
        (env.insert(key, value), ESPANK_SUCCESS)
    }
}

fn set_variable(env: &mut StrMap, key: String, value: String, overwrite: i32) -> (rc: i32)
    ensures
        (final(env)@, rc) == variable_set(old(env)@, key@, value@, overwrite),
{
    if overwrite == 0 && env.contains_key(key.as_str()) {
        return ESPANK_ENV_EXISTS;
    }
    env.insert(key, value);
    ESPANK_SUCCESS
}

/// Sets a variable of the job, unless it is there and may not be overwritten. A
/// name or a value that is missing is a bad argument.
pub fn spank_setenv(
    handle: &mut SpankHandle,
    var: Option<&str>,
    val: Option<&str>,
    overwrite: i32,
) -> (rc: i32)
    ensures
        match (var, val) {
            (Some(var), Some(val)) => {
                let (env, code) = variable_set(old(handle)@.env, var@, val@, overwrite);
                rc == code && final(handle)@ == (SpankHandleView { env, ..old(handle)@ })
            },
            _ => rc == ESPANK_BAD_ARG && final(handle)@ == old(handle)@,
        },
{
    match (var, val) {
        (Some(var), Some(val)) => set_variable(
            &mut handle.env,
            var.to_owned(),
            val.to_owned(),
            overwrite,
        ),
        _ => ESPANK_BAD_ARG,
    }
}

/// The bytes that a variable's value is copied as, with the zero that ends them,
/// or why it is not copied into a buffer of this size.
pub open spec fn value_copied(
    env: Map<Seq<char>, Seq<char>>,
    key: Seq<char>,
    len: i32,
) -> Result<Seq<u8>, i32> {
    match lookup(env, key) {
        None => Err(ESPANK_ENV_NOEXIST),
        Some(value) => if encode_utf8(value).len() + 1 > len {
            Err(ESPANK_NOSPACE)
        } else {
            Ok(encode_utf8(value).push(0u8))
        },
    }
}

/// The bytes of an outcome.
pub open spec fn copied_view(out: Result<Vec<u8>, i32>) -> Result<Seq<u8>, i32> {
    match out {
        Ok(bytes) => Ok(bytes@),
        Err(code) => Err(code),
    }
}

fn copy_env_value(env: &StrMap, key: &str, len: i32) -> (out: Result<Vec<u8>, i32>)
    requires
        len >= 0,
    ensures
        copied_view(out) == value_copied(env@, key@, len),
{
    let value = match env.get(key) {
        None => return Err(ESPANK_ENV_NOEXIST),
        Some(value) => value,
    };
    let source: &[u8] = value.as_str().as_bytes();
    let cap: usize = len as usize;
    if source.len() >= cap {
        return Err(ESPANK_NOSPACE);
    }
    let mut bytes: Vec<u8> = Vec::new();
    let mut i: usize = 0;
    while i < source.len()
        invariant
            i <= source@.len(),
            bytes@ == source@.take(i as int),
        decreases source@.len() - i,
    {
        bytes.push(source[i]);
        i = i + 1;
        proof {
            assert(source@.take(i as int) =~= source@.take(i - 1).push(source@[i - 1]));
        }
    }
    proof {
        assert(source@.take(i as int) =~= source@);
    }
    bytes.push(0);
    Ok(bytes)
}

/// The value of a variable of the job, for a buffer of this size. A name that is
/// missing, or a negative size, is a bad argument.
pub fn spank_getenv(handle: &SpankHandle, var: Option<&str>, len: i32) -> (out: Result<
    Vec<u8>,
    i32,
>)
    ensures
        copied_view(out) == match var {
            Some(var) => if len < 0 {
                Err::<Seq<u8>, i32>(ESPANK_BAD_ARG)
            } else {
                value_copied(handle@.env, var@, len)
            },
            None => Err::<Seq<u8>, i32>(ESPANK_BAD_ARG),
        },
{
    match var {
        Some(var) => {
            if len < 0 {
                return Err(ESPANK_BAD_ARG);
            }
            copy_env_value(&handle.env, var, len)
        },
        None => Err(ESPANK_BAD_ARG),
    }
}

/// Removes a variable of the job.
pub fn spank_unsetenv(handle: &mut SpankHandle, var: Option<&str>) -> (rc: i32)
    ensures
        match var {
            Some(var) => rc == ESPANK_SUCCESS && final(handle)@ == (SpankHandleView {
                env: old(handle)@.env.remove(var@),
                ..old(handle)@
            }),
            None => rc == ESPANK_BAD_ARG && final(handle)@ == old(handle)@,
        },
{
    match var {
        Some(var) => {
            handle.env.remove(var);
            ESPANK_SUCCESS
        },
        None => ESPANK_BAD_ARG,
    }
}

/// The key of a variable of the programs that control the job.
pub open spec fn control_key(name: Seq<char>) -> Seq<char> {
    "SPANK_"@ + name
}

/// Sets a variable of the programs that control the job, unless it is there and
/// may not be overwritten.
pub fn spank_job_control_setenv(
    handle: &mut SpankHandle,
    name: Option<&str>,
    value: Option<&str>,
    overwrite: i32,
) -> (rc: i32)
    ensures
        match (name, value) {
            (Some(name), Some(value)) => {
                let (env, code) = variable_set(
                    old(handle)@.job_control_env,
                    control_key(name@),
                    value@,
                    overwrite,
                );
                rc == code && final(handle)@ == (SpankHandleView {
                    job_control_env: env,
                    ..old(handle)@
                })
            },
            _ => rc == ESPANK_BAD_ARG && final(handle)@ == old(handle)@,
        },
{
    match (name, value) {
        (Some(name), Some(value)) => set_variable(
            &mut handle.job_control_env,
            join2("SPANK_", name),
            value.to_owned(),
            overwrite,
        ),
        _ => ESPANK_BAD_ARG,
    }
}

/// The value of a variable of the programs that control the job, for a buffer of
/// this size. Unlike for a variable of the job, a buffer without room is a bad
/// argument.
pub fn spank_job_control_getenv(handle: &SpankHandle, name: Option<&str>, len: i32) -> (out: Result<
    Vec<u8>,
    i32,
>)
    ensures
        copied_view(out) == match name {
            Some(name) => if len <= 0 {
                Err::<Seq<u8>, i32>(ESPANK_BAD_ARG)
            } else {
                value_copied(handle@.job_control_env, control_key(name@), len)
            },
            None => Err::<Seq<u8>, i32>(ESPANK_BAD_ARG),
        },
{
    match name {
        Some(name) => {
            if len <= 0 {
                return Err(ESPANK_BAD_ARG);
            }
            let key = join2("SPANK_", name);
            copy_env_value(&handle.job_control_env, key.as_str(), len)
        },
        None => Err(ESPANK_BAD_ARG),
    }
}

/// Removes a variable of the programs that control the job.
pub fn spank_job_control_unsetenv(handle: &mut SpankHandle, name: Option<&str>) -> (rc: i32)
    ensures
        match name {
            Some(name) => rc == ESPANK_SUCCESS && final(handle)@ == (SpankHandleView {
                job_control_env: old(handle)@.job_control_env.remove(control_key(name@)),
                ..old(handle)@
            }),
            None => rc == ESPANK_BAD_ARG && final(handle)@ == old(handle)@,
        },
{
    match name {
        Some(name) => {
            let key = join2("SPANK_", name);
            handle.job_control_env.remove(key.as_str());
            ESPANK_SUCCESS
        },
        None => ESPANK_BAD_ARG,
    }
}

/// A variable that was set is read back as it was set, into every buffer with
/// room for it; and a variable that may not be overwritten keeps its value.
pub proof fn law_variable_reads_back(
    env: Map<Seq<char>, Seq<char>>,
    key: Seq<char>,
    value: Seq<char>,
    overwrite: i32,
    len: i32,
)
    ensures
        ({
            let (after, code) = variable_set(env, key, value, overwrite);
            &&& code == ESPANK_SUCCESS && encode_utf8(value).len() < len ==> value_copied(
                after,
                key,
                len,
            ) == Ok::<Seq<u8>, i32>(encode_utf8(value).push(0u8))
            &&& code != ESPANK_SUCCESS ==> code == ESPANK_ENV_EXISTS && after == env
            &&& overwrite != 0 ==> code == ESPANK_SUCCESS
            &&& code == ESPANK_SUCCESS ==> value_copied(after.remove(key), key, len) == Err::<
                Seq<u8>,
                i32,
            >(ESPANK_ENV_NOEXIST)
        }),
{
}

/// Why a plugin could not be used.
#[derive(Debug, PartialEq, Eq)]
pub enum SpankError {
    HookFailed { plugin: String, hook: String, rc: i32 },
    LoadFailed(String),
}

/// What a [`SpankError`] holds.
pub enum SpankErrorView {
    HookFailed { plugin: Seq<char>, hook: Seq<char>, rc: i32 },
    LoadFailed(Seq<char>),
}

impl View for SpankError {
    type V = SpankErrorView;

    open spec fn view(&self) -> SpankErrorView {
        match self {
            SpankError::HookFailed { plugin, hook, rc } => SpankErrorView::HookFailed {
                plugin: plugin@,
                hook: hook@,
                rc: *rc,
            },
            SpankError::LoadFailed(reason) => SpankErrorView::LoadFailed(reason@),
        }
    }
}

/// What an error says.
pub open spec fn spank_error_text(error: SpankErrorView) -> Seq<char> {
    match error {
        SpankErrorView::HookFailed { plugin, hook, rc } => "SPANK hook "@ + hook + " in plugin "@
            + plugin + " returned "@ + signed_decimal(rc as int),
        SpankErrorView::LoadFailed(reason) => "plugin load failed: "@ + reason,
    }
}

impl SpankError {
    /// What the error says.
    pub fn message(&self) -> (out: String)
        ensures
            out@ == spank_error_text(self@),
    {
        match self {
            SpankError::HookFailed { plugin, hook, rc } => {
                let code = i64_text(*rc as i64);
                let head = join3("SPANK hook ", hook.as_str(), " in plugin ");
                let tail = join3(plugin.as_str(), " returned ", code.as_str());
                let out = join2(head.as_str(), tail.as_str());
                proof {
                    assert(out@ =~= spank_error_text(self@));
                }
                out
            },
            SpankError::LoadFailed(reason) => join2("plugin load failed: ", reason.as_str()),
        }
    }
}

/// The position of the last dot of a name.
pub open spec fn last_dot(name: Seq<char>) -> Option<nat>
    decreases name.len(),
{
    if name.len() == 0 {
        None
    } else if name.last() == '.' {
        Some((name.len() - 1) as nat)
    } else {
        last_dot(name.drop_last())
    }
}

/// The name of a file without its extension. A dot at its start begins none.
pub open spec fn stem_of(name: Seq<char>) -> Seq<char> {
    match last_dot(name) {
        Some(at) => if at == 0 {
            name
        } else {
            name.take(at as int)
        },
        None => name,
    }
}

/// The name of the plugin at a path: that of its file, without extension.
pub open spec fn plugin_name(path: Seq<char>) -> Seq<char> {
    let steps = steps_of(split_on(path, '/'));
    if steps.len() == 0 || steps.last() == ".."@ {
        "unknown"@
    } else {
        stem_of(steps.last())
    }
}

fn name_of_plugin(path: &str) -> (out: String)
    ensures
        out@ == plugin_name(path@),
{
    let parsed = GroupPath::parse(path);
    let n: usize = parsed.parts.len();
    if n == 0 {
        return "unknown".to_owned();
    }
    let name: &String = &parsed.parts[n - 1];
    proof {
        assert(parsed.parts.deep_view()[n - 1] == name@);
        assert(parsed.parts.deep_view().len() == n);
    }
    if same_text(name.as_str(), "..") {
        return "unknown".to_owned();
    }
    let chars: Vec<char> = chars_of(name.as_str());
    let mut at: usize = chars.len();
    proof {
        assert(chars@.take(at as int) =~= chars@);
    }
    while at > 0
        invariant
            at <= chars@.len(),
            chars@ == name@,
            last_dot(chars@) == last_dot(chars@.take(at as int)),
            plugin_name(path@) == stem_of(name@),
        decreases at,
    {
        proof {
            assert(chars@.take(at as int).drop_last() =~= chars@.take(at - 1));
            assert(chars@.take(at as int).last() == chars@[at - 1]);
        }
        if chars[at - 1] == '.' {
            if at == 1 {
                return name.clone();
            }
            proof {
                assert(chars@.subrange(0, at - 1) =~= chars@.take(at - 1));
            }
            return text_of(&chars, 0, at - 1);
        }
        at = at - 1;
    }
    name.clone()
}

/// Whether a text can be handed over as one that a zero ends.
pub open spec fn has_no_nul(text: Seq<char>) -> bool {
    forall|i: int| 0 <= i < text.len() ==> #[trigger] text[i] != '\0'
}

fn is_without_nul(text: &str) -> (yes: bool)
    ensures
        yes == has_no_nul(text@),
{
    let chars: Vec<char> = chars_of(text);
    let mut i: usize = 0;
    while i < chars.len()
        invariant
            i <= chars@.len(),
            chars@ == text@,
            forall|j: int| 0 <= j < i ==> #[trigger] text@[j] != '\0',
        decreases chars@.len() - i,
    {
        if chars[i] == '\0' {
            return false;
        }
        i = i + 1;
    }
    true
}

/// The arguments that can be handed over.
pub open spec fn usable_args(args: Seq<Seq<char>>) -> Seq<Seq<char>> {
    args.filter(|arg: Seq<char>| has_no_nul(arg))
}

/// The plugins that are loaded, in order.
#[derive(Debug)]
pub struct SpankHost {
    pub plugins: Vec<SpankPlugin>,
}

impl View for SpankHost {
    type V = Seq<SpankPluginView>;

    open spec fn view(&self) -> Seq<SpankPluginView> {
        self.plugins.deep_view()
    }
}

impl Default for SpankHost {
    fn default() -> (out: Self)
        ensures
            out@ == Seq::<SpankPluginView>::empty(),
    {
        SpankHost::new()
    }
}

/// What comes of calling a hook of the plugins in order, given what each
/// returned; a plugin without the hook returned nothing. The first that fails
/// decides.
pub open spec fn hook_outcome(
    plugins: Seq<SpankPluginView>,
    hook: SpankHook,
    returned: Seq<Option<i32>>,
) -> Result<(), SpankErrorView>
    decreases returned.len(),
{
    if returned.len() == 0 {
        Ok(())
    } else {
        match returned[0] {
            Some(rc) => if rc != 0 {
                Err(
                    SpankErrorView::HookFailed {
                        plugin: plugins[0].name,
                        hook: symbol_of(hook),
                        rc,
                    },
                )
            } else {
                hook_outcome(plugins.skip(1), hook, returned.skip(1))
            },
            None => hook_outcome(plugins.skip(1), hook, returned.skip(1)),
        }
    }
}

impl SpankHost {
    /// No plugin is loaded.
    pub fn new() -> (out: Self)
        ensures
            out@ == Seq::<SpankPluginView>::empty(),
    {
        let out = SpankHost { plugins: Vec::new() };
        proof {
            assert(out@ =~= Seq::<SpankPluginView>::empty());
        }
        out
    }

    /// Adds a plugin that was loaded from this path, with its arguments; those
    /// that cannot be handed over are left out.
    pub fn load_plugin(&mut self, path: &str, args: &Vec<String>)
        ensures
            final(self)@ == old(self)@.push(
                SpankPluginView {
                    path: path@,
                    name: plugin_name(path@),
                    argv: usable_args(args.deep_view()),
                },
            ),
    {
        let ghost given = args.deep_view();
        let ghost usable = |arg: Seq<char>| has_no_nul(arg);
        let mut argv: Vec<String> = Vec::new();
        let mut i: usize = 0;
        proof {
            reveal(Seq::filter);
            assert(given.take(0) =~= Seq::<Seq<char>>::empty());
            assert(argv.deep_view() =~= Seq::<Seq<char>>::empty());
        }
        while i < args.len()
            invariant
                i <= args@.len(),
                given == args.deep_view(),
                usable == (|arg: Seq<char>| has_no_nul(arg)),
                argv.deep_view() == given.take(i as int).filter(usable),
            decreases args@.len() - i,
        {
            proof {
                reveal(Seq::filter);
                assert(given.take(i + 1).drop_last() =~= given.take(i as int));
                assert(given.take(i + 1).last() == args@[i as int]@);
            }
            if is_without_nul(args[i].as_str()) {
                let ghost before = argv.deep_view();
                argv.push(args[i].clone());
                proof {
                    assert(argv.deep_view() =~= before.push(args@[i as int]@));
                }
            }
            i = i + 1;
        }
        proof {
            assert(given.take(i as int) =~= given);
        }
        let plugin = SpankPlugin { path: path.to_owned(), name: name_of_plugin(path), argv };
        let ghost before = self@;
        self.plugins.push(plugin);
        proof {
            assert(self@ =~= before.push(plugin@));
        }
    }

    /// What comes of calling a hook of the first plugins, given what each
    /// returned. The next plugin is called only while this is no error.
    pub fn invoke_hook(&self, hook: SpankHook, returned: &Vec<Option<i32>>) -> (out: Result<
        (),
        SpankError,
    >)
        requires
            returned@.len() <= self@.len(),
        ensures
            match out {
                Ok(_) => hook_outcome(self@, hook, returned@) == Ok::<(), SpankErrorView>(()),
                Err(error) => hook_outcome(self@, hook, returned@) == Err::<(), SpankErrorView>(
                    error@,
                ),
            },
    {
        let ghost all = self@;
        let mut i: usize = 0;
        proof {
            assert(all.skip(0) =~= all);
            assert(returned@.skip(0) =~= returned@);
        }
        while i < returned.len()
            invariant
                i <= returned@.len() <= all.len(),
                all == self@,
                all.len() == self.plugins@.len(),
                hook_outcome(all, hook, returned@) == hook_outcome(
                    all.skip(i as int),
                    hook,
                    returned@.skip(i as int),
                ),
            decreases returned@.len() - i,
        {
            proof {
                assert(all.skip(i as int)[0] == self.plugins@[i as int]@);
                assert(returned@.skip(i as int)[0] == returned@[i as int]);
                assert(all.skip(i as int).skip(1) =~= all.skip(i + 1));
                assert(returned@.skip(i as int).skip(1) =~= returned@.skip(i + 1));
            }
            if let Some(rc) = returned[i] {
                if rc != 0 {
                    return Err(
                        SpankError::HookFailed {
                            plugin: self.plugins[i].name.clone(),
                            hook: hook.symbol_name().to_owned(),
                            rc,
                        },
                    );
                }
            }
            i = i + 1;
        }
        Ok(())
    }

    /// How many plugins are loaded.
    pub fn plugin_count(&self) -> (n: usize)
        ensures
            n == self@.len(),
    {
        self.plugins.len()
    }
}

/// The plugin that a line of the list names; none for a comment, an empty line or
/// a line without a path.
pub open spec fn entry_of(line: Seq<char>) -> Option<PlugstackEntryView> {
    let text = trimmed(line);
    if text.len() == 0 || text[0] == '#' {
        None
    } else {
        match cut_at_space(text) {
            (_, None) => None,
            (kind, Some(rest)) => {
                let (path, args) = cut_at_space(rest);
                Some(
                    PlugstackEntryView {
                        required: kind == "required"@,
                        path,
                        args: match args {
                            Some(list) => words_of(list),
                            None => Seq::empty(),
                        },
                    },
                )
            },
        }
    }
}

/// The plugins that the lines of the list name.
pub open spec fn entries_of(list: Seq<Seq<char>>) -> Seq<PlugstackEntryView>
    decreases list.len(),
{
    if list.len() == 0 {
        Seq::empty()
    } else {
        let before = entries_of(list.drop_last());
        match entry_of(list.last()) {
            Some(entry) => before.push(entry),
            None => before,
        }
    }
}

fn parse_entry(line: &str) -> (out: Option<PlugstackEntry>)
    ensures
        out.deep_view() == entry_of(line@),
{
    let text = trim_text(line);
    let chars: Vec<char> = chars_of(text.as_str());
    if chars.len() == 0 || chars[0] == '#' {
        return None;
    }
    let (kind, rest) = cut_space(text.as_str());
    let rest: String = match rest {
        None => return None,
        Some(rest) => rest,
    };
    let (path, list) = cut_space(rest.as_str());
    let args: Vec<String> = match list {
        Some(list) => words(list.as_str()),
        None => {
            let none: Vec<String> = Vec::new();
            proof {
                assert(none.deep_view() =~= Seq::<Seq<char>>::empty());
            }
            none
        },
    };
    Some(PlugstackEntry { required: same_text(kind.as_str(), "required"), path, args })
}

/// The plugins that a list names, one per line: whether it is required, its path,
/// and its arguments.
pub fn parse_plugstack(content: &str) -> (out: Vec<PlugstackEntry>)
    ensures
        out.deep_view() == entries_of(lines_of(content@)),
{
    let all: Vec<String> = lines(content);
    let ghost list = lines_of(content@);
    let mut out: Vec<PlugstackEntry> = Vec::new();
    let mut i: usize = 0;
    proof {
        assert(list.take(0) =~= Seq::<Seq<char>>::empty());
        assert(out.deep_view() =~= Seq::<PlugstackEntryView>::empty());
    }
    while i < all.len()
        invariant
            i <= all@.len(),
            all.deep_view() == list,
            out.deep_view() == entries_of(list.take(i as int)),
        decreases all@.len() - i,
    {
        proof {
            assert(list[i as int] == all@[i as int]@);
            assert(list.take(i + 1).drop_last() =~= list.take(i as int));
            assert(list.take(i + 1).last() == all@[i as int]@);
        }
        if let Some(entry) = parse_entry(all[i].as_str()) {
            let ghost before = out.deep_view();
            out.push(entry);
            proof {
                assert(out.deep_view() =~= before.push(entry@));
            }
        }
        i = i + 1;
    }
    proof {
        assert(list.take(i as int) =~= list);
    }
    out
}

/// Each question about a job has its own number, and is answered with the value
/// it asks for. A question that is known but has no number for an answer is not
/// available; a number that is no question is a bad argument.
pub proof fn law_each_item_has_its_own_answer(context: SpankContextView, item: i32)
    ensures
        item_answer(context, 0) == Ok::<u32, i32>(context.uid),
        item_answer(context, 1) == Ok::<u32, i32>(context.gid),
        item_answer(context, 2) == Ok::<u32, i32>(context.job_id),
        item_answer(context, 3) == Ok::<u32, i32>(context.step_id),
        item_answer(context, 4) == Ok::<u32, i32>(context.num_nodes),
        item_answer(context, 5) == Ok::<u32, i32>(context.node_id),
        item_answer(context, 6) == Ok::<u32, i32>(context.local_task_count),
        item_answer(context, 7) == Ok::<u32, i32>(context.total_task_count),
        item_answer(context, 14) == Ok::<u32, i32>(context.task_pid),
        8 <= item <= 13 ==> item_answer(context, item) == Err::<u32, i32>(10),
        item < 0 || item > 14 ==> item_answer(context, item) == Err::<u32, i32>(2),
{
    assert(item_number(SpankItem::JobNcpus) == 8);
    assert(item_number(SpankItem::JobArgv) == 9);
    assert(item_number(SpankItem::JobEnv) == 10);
    assert(item_number(SpankItem::TaskId) == 11);
    assert(item_number(SpankItem::TaskGlobalId) == 12);
    assert(item_number(SpankItem::TaskExitStatus) == 13);
    assert forall|known: SpankItem| 0 <= #[trigger] item_number(known) <= 14 by {};
}

/// Setting a variable sets that variable and no other, unless it is there and
/// was not to be overwritten: then it stays, and the answer says so.
pub proof fn law_setting_changes_one_variable(
    env: Map<Seq<char>, Seq<char>>,
    key: Seq<char>,
    value: Seq<char>,
    overwrite: i32,
    other: Seq<char>,
)
    ensures
        ({
            let (after, code) = variable_set(env, key, value, overwrite);
            &&& after.contains_key(key)
            &&& env.contains_key(key) && overwrite == 0 ==> after[key] == env[key] && code == 4
            &&& !env.contains_key(key) || overwrite != 0 ==> after[key] == value && code == 0
            &&& other != key ==> after.contains_key(other) == env.contains_key(other)
            &&& other != key && env.contains_key(other) ==> after[other] == env[other]
        }),
{
}

/// A value is copied whole, with the byte that ends it, into a buffer that holds
/// both; a smaller one is refused, and so is a variable that is not there.
pub proof fn law_copied_value_is_whole_and_ended(
    env: Map<Seq<char>, Seq<char>>,
    key: Seq<char>,
    len: i32,
)
    ensures
        value_copied(env, key, len) is Ok <==> env.contains_key(key) && encode_utf8(env[key]).len()
            < len,
        value_copied(env, key, len) matches Ok(bytes) ==> {
            &&& bytes.len() <= len
            &&& bytes.len() > 0
            &&& bytes.last() == 0
            &&& bytes.drop_last() == encode_utf8(env[key])
        },
        !env.contains_key(key) ==> value_copied(env, key, len) == Err::<Seq<u8>, i32>(5),
        env.contains_key(key) && encode_utf8(env[key]).len() >= len ==> value_copied(env, key, len)
            == Err::<Seq<u8>, i32>(6),
{
    if value_copied(env, key, len) is Ok {
        assert((value_copied(env, key, len)->Ok_0).drop_last() =~= encode_utf8(env[key]));
    }
}

/// A job control variable stands under its name with a prefix, so that two of
/// them never meet.
pub proof fn law_control_variables_are_prefixed(a: Seq<char>, b: Seq<char>)
    ensures
        control_key(a).len() == a.len() + 6,
        control_key(a).take(6) == seq!['S', 'P', 'A', 'N', 'K', '_'],
        control_key(a).skip(6) == a,
        control_key(a) == control_key(b) ==> a == b,
{
    reveal_strlit("SPANK_");
    assert(control_key(a).take(6) =~= seq!['S', 'P', 'A', 'N', 'K', '_']);
    assert(control_key(a).skip(6) =~= a);
    assert(control_key(b).skip(6) =~= b);
}

/// A hook succeeds where no plugin that has it returned anything but zero; a
/// failure is that of the first plugin that did, by its name and its code.
pub proof fn law_first_failing_plugin_is_named(
    plugins: Seq<SpankPluginView>,
    hook: SpankHook,
    returned: Seq<Option<i32>>,
    k: int,
)
    requires
        plugins.len() == returned.len(),
        0 <= k <= returned.len(),
        forall|i: int|
            0 <= i < k ==> (#[trigger] returned[i]) is None || returned[i] == Some(0i32),
        k < returned.len() ==> returned[k] is Some && returned[k]->0 != 0,
    ensures
        k == returned.len() ==> hook_outcome(plugins, hook, returned) is Ok,
        k < returned.len() ==> hook_outcome(plugins, hook, returned) == Err::<(), SpankErrorView>(
            SpankErrorView::HookFailed {
                plugin: plugins[k].name,
                hook: symbol_of(hook),
                rc: returned[k]->0,
            },
        ),
    decreases returned.len(),
{
    if k > 0 {
        assert(returned[0] is None || returned[0] == Some(0i32));
        let p = plugins.skip(1);
        let r = returned.skip(1);
        assert forall|i: int| 0 <= i < k - 1 implies (#[trigger] r[i]) is None || r[i] == Some(
            0i32,
        ) by {
            assert(r[i] == returned[i + 1]);
        }
        if k < returned.len() {
            assert(r[k - 1] == returned[k]);
            assert(p[k - 1] == plugins[k]);
        }
        law_first_failing_plugin_is_named(p, hook, r, k - 1);
    }
}

/// The name of the entry point of a hook starts like all of them.
pub proof fn law_entry_points_have_one_prefix(hook: SpankHook)
    ensures
        symbol_of(hook).len() > 12,
        symbol_of(hook).take(12) == "slurm_spank_"@,
{
    reveal_strlit("slurm_spank_");
    reveal_strlit("slurm_spank_init");
    reveal_strlit("slurm_spank_init_post_opt");
    reveal_strlit("slurm_spank_local_user_init");
    reveal_strlit("slurm_spank_user_init");
    reveal_strlit("slurm_spank_task_init");
    reveal_strlit("slurm_spank_task_init_privileged");
    reveal_strlit("slurm_spank_task_post_fork");
    reveal_strlit("slurm_spank_task_exit");
    reveal_strlit("slurm_spank_job_epilog");
    reveal_strlit("slurm_spank_slurmd_exit");
    reveal_strlit("slurm_spank_exit");
    assert(symbol_of(hook).take(12) =~= "slurm_spank_"@);
}

/// Arguments that cannot be handed over are left out; the others keep their
/// order.
pub proof fn law_arguments_with_nul_are_left_out(args: Seq<Seq<char>>, arg: Seq<char>)
    ensures
        usable_args(args).contains(arg) <==> args.contains(arg) && !arg.contains('\0'),
        usable_args(args.push(arg)) == (if arg.contains('\0') {
            usable_args(args)
        } else {
            usable_args(args).push(arg)
        }),
        usable_args(Seq::empty()) == Seq::<Seq<char>>::empty(),
{
    let keep = |a: Seq<char>| has_no_nul(a);
    lemma_filter_members(args, keep, arg);
    if arg.contains('\0') {
        let i = choose|i: int| 0 <= i < arg.len() && arg[i] == '\0';
        assert(!has_no_nul(arg));
    } else {
        assert forall|i: int| 0 <= i < arg.len() implies #[trigger] arg[i] != '\0' by {
            if arg[i] == '\0' {
                assert(arg.contains('\0'));
            }
        }
        assert(has_no_nul(arg));
    }
    reveal(Seq::filter);
    assert(args.push(arg).drop_last() =~= args);
    assert(args.push(arg).last() == arg);
}

/// Whether a text is one word: not empty, and without white space.
pub open spec fn is_word(text: Seq<char>) -> bool {
    text.len() > 0 && forall|i: int| 0 <= i < text.len() ==> !is_space()(#[trigger] text[i])
}

/// A text is cut after its first word.
proof fn lemma_cut_after_word(word: Seq<char>, space: char, rest: Seq<char>)
    requires
        is_word(word),
        is_space()(space),
    ensures
        cut_at_space(word + seq![space] + rest) == (word, Some(rest)),
        cut_at_space(word) == (word, None::<Seq<char>>),
{
    let text = word + seq![space] + rest;
    let p = is_space();
    assert forall|j: int| 0 <= j < word.len() implies !p(#[trigger] text[j]) by {
        assert(text[j] == word[j]);
    }
    assert(text[word.len() as int] == space);
    lemma_position_is(text, p, word.len() as int);
    lemma_position_is(word, p, word.len() as int);
    assert(text.take(word.len() as int) =~= word);
    assert(text.skip(word.len() as int + 1) =~= rest);
}

/// A text without white space at its ends is trimmed.
proof fn lemma_nothing_to_trim(text: Seq<char>)
    requires
        text.len() > 0,
        !is_space()(text[0]),
        !is_space()(text.last()),
    ensures
        trimmed(text) == text,
{
    law_trimmed_loses_white_space_alone(text);
}

/// A line of two words names a plugin: the second word is its path, and it is
/// required where the first word says so.
pub proof fn law_plugin_line_is_read(kind: Seq<char>, space: char, path: Seq<char>)
    requires
        is_word(kind),
        is_word(path),
        is_space()(space),
        kind[0] != '#',
    ensures
        entry_of(kind + seq![space] + path) == Some(
            PlugstackEntryView { required: kind == "required"@, path, args: Seq::empty() },
        ),
{
    let line = kind + seq![space] + path;
    assert(line[0] == kind[0]);
    assert(line.last() == path[path.len() - 1]);
    lemma_nothing_to_trim(line);
    lemma_cut_after_word(kind, space, path);
    lemma_cut_after_word(path, space, Seq::empty());
}

/// What follows the path on a line are the plugin's arguments, word by word.
pub proof fn law_plugin_arguments_are_read(
    kind: Seq<char>,
    path: Seq<char>,
    space: char,
    rest: Seq<char>,
)
    requires
        is_word(kind),
        is_word(path),
        rest.len() > 0,
        is_space()(space),
        kind[0] != '#',
        !is_space()(rest.last()),
    ensures
        entry_of(kind + seq![space] + (path + seq![space] + rest)) == Some(
            PlugstackEntryView { required: kind == "required"@, path, args: words_of(rest) },
        ),
{
    let tail = path + seq![space] + rest;
    let line = kind + seq![space] + tail;
    assert(line[0] == kind[0]);
    assert(line.last() == rest.last());
    lemma_nothing_to_trim(line);
    lemma_cut_after_word(kind, space, tail);
    lemma_cut_after_word(path, space, rest);
}

/// A comment, an empty line and a line of one word name no plugin.
pub proof fn law_other_lines_name_no_plugin(line: Seq<char>)
    requires
        line.len() > 0,
        !is_space()(line[0]),
        !is_space()(line.last()),
        line[0] == '#' || is_word(line),
    ensures
        entry_of(line) is None,
        entry_of(Seq::empty()) is None,
{
    lemma_nothing_to_trim(line);
    if line[0] != '#' {
        lemma_cut_after_word(line, ' ', Seq::empty());
    }
    law_trimmed_loses_white_space_alone(Seq::empty());
    assert(trimmed(Seq::<char>::empty()).len() == 0);
}

/// The plugins of a file are those that its lines name, in order.
pub proof fn law_plugins_come_in_the_order_of_their_lines(list: Seq<Seq<char>>, line: Seq<char>)
    ensures
        entries_of(Seq::empty()).len() == 0,
        entry_of(line) matches Some(entry) ==> entries_of(list.push(line)) == entries_of(list).push(
            entry,
        ),
        entry_of(line) is None ==> entries_of(list.push(line)) == entries_of(list),
{
    assert(list.push(line).drop_last() =~= list);
    assert(list.push(line).last() == line);
}

/// A plugin is called by its file's name without the last suffix; a name that
/// has none, or is nothing but one, is kept whole.
pub proof fn law_plugin_is_called_by_its_file(stem: Seq<char>, suffix: Seq<char>)
    requires
        !suffix.contains('.'),
    ensures
        stem.len() > 0 ==> stem_of(stem + seq!['.'] + suffix) == stem,
        stem_of(seq!['.'] + suffix) == seq!['.'] + suffix,
        stem_of(suffix) == suffix,
{
    lemma_last_dot(stem, suffix);
    lemma_last_dot(Seq::empty(), suffix);
    lemma_no_dot(suffix);
    assert(Seq::<char>::empty() + seq!['.'] + suffix =~= seq!['.'] + suffix);
    assert((stem + seq!['.'] + suffix).take(stem.len() as int) =~= stem);
}

proof fn lemma_no_dot(s: Seq<char>)
    requires
        !s.contains('.'),
    ensures
        last_dot(s) is None,
    decreases s.len(),
{
    if s.len() > 0 {
        let init = s.drop_last();
        assert(s[s.len() - 1] == s.last());
        assert forall|i: int| 0 <= i < init.len() implies init[i] != '.' by {
            assert(init[i] == s[i]);
        }
        lemma_no_dot(init);
    }
}

proof fn lemma_last_dot(stem: Seq<char>, suffix: Seq<char>)
    requires
        !suffix.contains('.'),
    ensures
        last_dot(stem + seq!['.'] + suffix) == Some(stem.len()),
    decreases suffix.len(),
{
    let s = stem + seq!['.'] + suffix;
    if suffix.len() == 0 {
        assert(s.last() == '.');
    } else {
        let init = suffix.drop_last();
        assert(s.last() == suffix.last());
        assert(suffix[suffix.len() - 1] == suffix.last());
        assert forall|i: int| 0 <= i < init.len() implies init[i] != '.' by {
            assert(init[i] == suffix[i]);
        }
        assert(s.drop_last() =~= stem + seq!['.'] + init);
        lemma_last_dot(stem, init);
    }
}

/// A plugin is named after the last part of its path, wherever it lies.
pub proof fn law_plugin_name_is_the_files(dir: Seq<char>, file: Seq<char>)
    requires
        !file.contains('/'),
        file.len() > 0,
        file != "."@,
        file != ".."@,
    ensures
        plugin_name(dir + seq!['/'] + file) == stem_of(file),
        plugin_name(file) == stem_of(file),
{
    reveal_strlit(".");
    lemma_split_last(dir, file);
    let pieces = split_on(dir + seq!['/'] + file, '/');
    assert(pieces.last() == file);
    assert(steps_of(pieces).last() == file);
    lemma_split_none(file);
    let one = split_on(file, '/');
    assert(one.last() == file);
    assert(steps_of(one).last() == file);
}

proof fn lemma_split_none(file: Seq<char>)
    requires
        !file.contains('/'),
    ensures
        split_on(file, '/') == seq![file],
{
    let is_sep = char_is('/');
    assert forall|j: int| 0 <= j < file.len() implies !is_sep(#[trigger] file[j]) by {
        if file[j] == '/' {
            assert(file.contains('/'));
        }
    }
    lemma_position_is(file, is_sep, file.len() as int);
    assert(file.take(file.len() as int) =~= file);
}

proof fn lemma_split_last(dir: Seq<char>, file: Seq<char>)
    requires
        !file.contains('/'),
    ensures
        split_on(dir + seq!['/'] + file, '/').len() > 0,
        split_on(dir + seq!['/'] + file, '/').last() == file,
    decreases dir.len(),
{
    let is_sep = char_is('/');
    let s = dir + seq!['/'] + file;
    lemma_position(s, is_sep);
    let at = position(s, is_sep) as int;
    if at > dir.len() {
        assert(!is_sep(s[dir.len() as int]));
    }
    if at == dir.len() {
        assert(s.skip(at + 1) =~= file);
        lemma_split_none(file);
        assert(split_on(s, '/').last() == split_on(file, '/').last());
    } else {
        let rest = dir.skip(at + 1);
        assert(s.skip(at + 1) =~= rest + seq!['/'] + file);
        lemma_split_last(rest, file);
        assert(split_on(s, '/').last() == split_on(rest + seq!['/'] + file, '/').last());
    }
}

/// A code is put into words: success alone reads as success, each known failure
/// in words of its own, and any other code as a failure of no kind.
pub proof fn law_codes_are_put_into_words(err: i32)
    ensures
        error_text(0) == "Success"@,
        error_text(2) == "Bad argument"@,
        error_text(3) == "Not in task context"@,
        error_text(4) == "Environment variable exists"@,
        error_text(5) == "No such environment variable"@,
        error_text(6) == "Buffer too small"@,
        error_text(7) == "Valid only in remote context"@,
        error_text(8) == "Id/pid does not exist on this node"@,
        error_text(10) == "Item not available from this callback"@,
        error_text(11) == "Valid only in local or allocator context"@,
        err < 0 || err == 1 || err == 9 || err > 11 ==> error_text(err) == "Generic error"@,
{
}

} // verus!
