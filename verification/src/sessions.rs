//! Commands in, and output of, a running job; and the requests that a virtual
//! worker does not serve.

use vstd::prelude::*;
use crate::k8s::{Pod, PodView};
use crate::plain::Plain;
use crate::status::{outcome_view, refusal, Code, Status, StatusView};
use crate::text::same_text;

verus! {

/// How much of each output of a command is kept, in bytes.
pub const EXEC_BUFFER_BYTES: usize = 1048576;

/// How many lines of earlier output a stream starts with.
pub const LOG_TAIL_LINES: i64 = 100;

/// The text that bytes are read as, where bytes that are not UTF-8 are replaced.
pub uninterp spec fn utf8_lossy(bytes: Seq<u8>) -> Seq<char>;

/// The characters that ASCII bytes stand for.
pub open spec fn ascii_chars(bytes: Seq<u8>) -> Seq<char> {
    bytes.map_values(|b: u8| b as char)
}

/// `String::from_utf8_lossy` reads bytes as text; ASCII bytes are read as
/// themselves.
#[verifier::external_body]
fn from_utf8_lossy(bytes: &Vec<u8>) -> (out: String)
    ensures
        out@ == utf8_lossy(bytes@),
        (forall|i: int| 0 <= i < bytes@.len() ==> #[trigger] bytes@[i] < 128) ==> out@
            == ascii_chars(bytes@),
{
    String::from_utf8_lossy(bytes).into_owned()
}

/// Where a pod is found.
#[derive(Clone, Debug, Default)]
pub struct PodAddress {
    pub namespace: String,
    pub name: String,
}

/// What a [`PodAddress`] holds.
#[verifier::ext_equal]
pub struct PodAddressView {
    pub namespace: Seq<char>,
    pub name: Seq<char>,
}

impl View for PodAddress {
    type V = PodAddressView;

    open spec fn view(&self) -> PodAddressView {
        PodAddressView {
            namespace: self.namespace.deep_view(),
            name: self.name.deep_view(),
        }
    }
}

impl DeepView for PodAddress {
    type V = PodAddressView;

    open spec fn deep_view(&self) -> PodAddressView {
        self@
    }
}

impl Plain for PodAddress {
    fn equals(&self, other: &Self) -> (same: bool) {
        self.namespace.equals(&other.namespace)
            && self.name.equals(&other.name)
    }

    fn copy_of(&self) -> (out: Self) {
        PodAddress {
            namespace: self.namespace.copy_of(),
            name: self.name.copy_of(),
        }
    }
}

/// What came of a command in a job.
#[derive(Clone, Debug, Default)]
pub struct ExecInJobResponse {
    pub success: bool,
    pub exit_code: i32,
    pub stdout: String,
    pub stderr: String,
}

/// What an [`ExecInJobResponse`] holds.
#[verifier::ext_equal]
pub struct ExecInJobResponseView {
    pub success: bool,
    pub exit_code: i32,
    pub stdout: Seq<char>,
    pub stderr: Seq<char>,
}

impl View for ExecInJobResponse {
    type V = ExecInJobResponseView;

    open spec fn view(&self) -> ExecInJobResponseView {
        ExecInJobResponseView {
            success: self.success.deep_view(),
            exit_code: self.exit_code.deep_view(),
            stdout: self.stdout.deep_view(),
            stderr: self.stderr.deep_view(),
        }
    }
}

impl DeepView for ExecInJobResponse {
    type V = ExecInJobResponseView;

    open spec fn deep_view(&self) -> ExecInJobResponseView {
        self@
    }
}

impl Plain for ExecInJobResponse {
    fn equals(&self, other: &Self) -> (same: bool) {
        self.success.equals(&other.success)
            && self.exit_code.equals(&other.exit_code)
            && self.stdout.equals(&other.stdout)
            && self.stderr.equals(&other.stderr)
    }

    fn copy_of(&self) -> (out: Self) {
        ExecInJobResponse {
            success: self.success.copy_of(),
            exit_code: self.exit_code.copy_of(),
            stdout: self.stdout.copy_of(),
            stderr: self.stderr.copy_of(),
        }
    }
}

/// Where a pod is found.
pub open spec fn address_of(pod: PodView) -> Result<PodAddressView, StatusView> {
    match (pod.metadata.namespace, pod.metadata.name) {
        (None, _) => Err(refusal(Code::Internal, "exact Pod has no namespace"@)),
        (_, None) => Err(refusal(Code::Internal, "exact Pod has no name"@)),
        (Some(namespace), Some(name)) => Ok(PodAddressView { namespace, name }),
    }
}

/// Where a pod is found.
pub fn pod_address(pod: &Pod) -> (out: Result<PodAddress, Status>)
    ensures
        outcome_view(out) == address_of(pod@),
{
    match (&pod.metadata.namespace, &pod.metadata.name) {
        (None, _) => Err(Status::new(Code::Internal, "exact Pod has no namespace")),
        (_, None) => Err(Status::new(Code::Internal, "exact Pod has no name")),
        (Some(namespace), Some(name)) => Ok(
            PodAddress { namespace: namespace.clone(), name: name.clone() },
        ),
    }
}

/// The command to run: the one asked for, or a probe where none was.
pub open spec fn command_to_run(command: Seq<Seq<char>>) -> Seq<Seq<char>> {
    if command.len() == 0 {
        seq!["bash"@, "-c"@, "echo ok"@]
    } else {
        command
    }
}

/// The command to run: the one asked for, or a probe where none was.
pub fn exec_command(command: Vec<String>) -> (out: Vec<String>)
    ensures
        out.deep_view() == command_to_run(command.deep_view()),
{
    if command.len() == 0 {
        let mut out: Vec<String> = Vec::new();
        out.push("bash".to_owned());
        out.push("-c".to_owned());
        out.push("echo ok".to_owned());
        proof {
            assert(out.deep_view() =~= seq!["bash"@, "-c"@, "echo ok"@]);
        }
        return out;
    }
    command
}

/// How a command ended.
#[derive(Debug)]
pub enum ExecEnd {
    /// Nothing was promised about how it ends.
    NoStatus,
    /// The promise was not kept.
    ChannelClosed,
    /// It ended, with this verdict where there is one.
    Ended(Option<String>),
}

/// The exit code that a verdict stands for.
pub open spec fn exit_code_of(verdict: Option<Seq<char>>) -> i32 {
    if verdict == Some("Success"@) {
        0
    } else {
        1
    }
}

/// What is answered about a command that ended in this way.
pub open spec fn exec_answer(end: ExecEnd, stdout: Seq<char>, stderr: Seq<char>) -> Result<
    ExecInJobResponseView,
    StatusView,
> {
    match end {
        ExecEnd::NoStatus => Err(refusal(Code::Internal, "no exit status"@)),
        ExecEnd::ChannelClosed => Err(refusal(Code::Internal, "status channel closed"@)),
        ExecEnd::Ended(verdict) => {
            let exit_code = exit_code_of(verdict.deep_view());
            Ok(ExecInJobResponseView { success: exit_code == 0, exit_code, stdout, stderr })
        },
    }
}

/// What is answered about a command that ended in this way, with these outputs.
pub fn exec_response(end: ExecEnd, stdout: &Vec<u8>, stderr: &Vec<u8>) -> (out: Result<
    ExecInJobResponse,
    Status,
>)
    ensures
        outcome_view(out) == exec_answer(end, utf8_lossy(stdout@), utf8_lossy(stderr@)),
{
    let out = from_utf8_lossy(stdout);
    let err = from_utf8_lossy(stderr);
    exec_response_text(end, out, err)
}

/// What is answered about a command that ended in this way, with these outputs.
pub fn exec_response_text(end: ExecEnd, stdout: String, stderr: String) -> (out: Result<
    ExecInJobResponse,
    Status,
>)
    ensures
        outcome_view(out) == exec_answer(end, stdout@, stderr@),
{
    match end {
        ExecEnd::NoStatus => Err(Status::new(Code::Internal, "no exit status")),
        ExecEnd::ChannelClosed => Err(Status::new(Code::Internal, "status channel closed")),
        ExecEnd::Ended(verdict) => {
            let exit_code: i32 = match &verdict {
                Some(verdict) => if same_text(verdict.as_str(), "Success") {
                    0
                } else {
                    1
                },
                None => 1,
            };
            Ok(ExecInJobResponse { success: exit_code == 0, exit_code, stdout, stderr })
        },
    }
}

/// One piece of a job's output.
#[derive(Debug)]
pub struct StreamJobOutputChunk {
    pub data: Vec<u8>,
    pub eof: bool,
}

/// The piece that carries what was read: none, or nothing, is the end.
pub fn output_chunk(read: Option<Vec<u8>>) -> (out: StreamJobOutputChunk)
    ensures
        match read {
            Some(data) => out.data@ == data@ && out.eof == (data@.len() == 0),
            None => out.data@ == Seq::<u8>::empty() && out.eof,
        },
{
    match read {
        Some(data) => {
            let eof = data.len() == 0;
            StreamJobOutputChunk { data, eof }
        },
        None => StreamJobOutputChunk { data: Vec::new(), eof: true },
    }
}

/// A request that a virtual worker does not serve.
#[derive(Clone, Copy, Debug, PartialEq, Eq, Structural)]
pub enum UnservedRequest {
    PreparePmix,
    RunCommand,
    CancelStep,
    RegisterJobAllocation,
    InteractiveSession,
    ClusterComponent,
    Mesh,
}

/// Why a request is not served.
pub open spec fn unserved_reason(request: UnservedRequest) -> Seq<char> {
    match request {
        UnservedRequest::PreparePmix => "PMIx prepare is not supported on the K8s virtual agent"@,
        UnservedRequest::RunCommand => "RunCommand is not yet supported by the K8s virtual agent"@,
        UnservedRequest::CancelStep => "CancelStep is not yet supported by the K8s virtual agent"@,
        UnservedRequest::RegisterJobAllocation =>
            "RegisterJobAllocation is not yet supported by the K8s virtual agent"@,
        UnservedRequest::InteractiveSession => "interactive session not supported for K8s agent"@,
        UnservedRequest::ClusterComponent => "cluster components not supported for K8s agent"@,
        UnservedRequest::Mesh => "mesh not supported for K8s agent"@,
    }
}

/// The refusal of a request that is not served.
pub fn unserved(request: UnservedRequest) -> (out: Status)
    ensures
        out@ == refusal(Code::Unimplemented, unserved_reason(request)),
{
    let reason = match request {
        UnservedRequest::PreparePmix => "PMIx prepare is not supported on the K8s virtual agent",
        UnservedRequest::RunCommand => "RunCommand is not yet supported by the K8s virtual agent",
        UnservedRequest::CancelStep => "CancelStep is not yet supported by the K8s virtual agent",
        UnservedRequest::RegisterJobAllocation =>
            "RegisterJobAllocation is not yet supported by the K8s virtual agent",
        UnservedRequest::InteractiveSession => "interactive session not supported for K8s agent",
        UnservedRequest::ClusterComponent => "cluster components not supported for K8s agent",
        UnservedRequest::Mesh => "mesh not supported for K8s agent",
    };
    Status::new(Code::Unimplemented, reason)
}

/// A command that was run succeeded exactly where the cluster says so; what it
/// wrote is handed back as it is. One whose end is not known has no answer.
pub proof fn law_exit_is_the_one_reported(
    verdict: Option<String>,
    stdout: Seq<char>,
    stderr: Seq<char>,
)
    ensures
        exec_answer(ExecEnd::Ended(verdict), stdout, stderr) matches Ok(answer) && {
            &&& answer.stdout == stdout
            &&& answer.stderr == stderr
            &&& answer.success <==> verdict is Some && (verdict->0)@ == "Success"@
            &&& answer.success <==> answer.exit_code == 0
            &&& !answer.success ==> answer.exit_code == 1
        },
        exec_answer(ExecEnd::NoStatus, stdout, stderr) is Err,
        exec_answer(ExecEnd::ChannelClosed, stdout, stderr) is Err,
{
}

/// The command that is run is the one that was given, word for word; a request
/// without one is answered by a harmless one.
pub proof fn law_given_command_is_run(command: Seq<Seq<char>>)
    ensures
        command.len() > 0 ==> command_to_run(command) == command,
        command_to_run(command).len() > 0,
        command.len() == 0 ==> command_to_run(command) == seq!["bash"@, "-c"@, "echo ok"@],
{
}

/// A pod is addressed by its own namespace and name.
pub proof fn law_address_is_the_pods_own(pod: PodView)
    ensures
        address_of(pod) is Ok <==> pod.metadata.namespace is Some && pod.metadata.name is Some,
        address_of(pod) matches Ok(address) ==> pod.metadata.namespace == Some(address.namespace)
            && pod.metadata.name == Some(address.name),
{
}

} // verus!
