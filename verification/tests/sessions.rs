use spur::k8s::{ObjectMeta, Pod};
use spur::sessions::{
    exec_command, exec_response, exec_response_text, output_chunk, pod_address, unserved, ExecEnd,
    UnservedRequest,
};
use spur::status::Code;

#[test]
fn pods_are_addressed_by_namespace_and_name() {
    let mut pod = Pod {
        metadata: ObjectMeta {
            name: Some("pod-a".into()),
            namespace: Some("training".into()),
            ..Default::default()
        },
        ..Default::default()
    };
    let address = pod_address(&pod).unwrap();
    assert_eq!((address.namespace.as_str(), address.name.as_str()), ("training", "pod-a"));
    pod.metadata.name = None;
    assert!(pod_address(&pod).is_err());
}

#[test]
fn commands_default_to_a_shell() {
    assert_eq!(exec_command(vec!["ls".into()]), vec!["ls"]);
    assert!(!exec_command(vec![]).is_empty());
}

#[test]
fn output_is_read_as_text() {
    let answer = exec_response(
        ExecEnd::Ended(Some("Success".into())),
        &b"caf\xc3\xa9 \xff".to_vec(),
        &b"".to_vec(),
    )
    .unwrap();
    assert!(answer.success);
    assert_eq!(answer.exit_code, 0);
    assert_eq!(answer.stdout, "caf\u{e9} \u{fffd}");
    assert_eq!(answer.stderr, "");
}

#[test]
fn failed_commands_say_so() {
    let answer = exec_response_text(
        ExecEnd::Ended(Some("Failure".into())),
        "out".into(),
        "err".into(),
    )
    .unwrap();
    assert!(!answer.success);
    assert_ne!(answer.exit_code, 0);
    assert_eq!(answer.stdout, "out");
    assert_eq!(answer.stderr, "err");
    assert!(exec_response_text(ExecEnd::ChannelClosed, "".into(), "".into()).is_err());
    assert!(exec_response_text(ExecEnd::NoStatus, "".into(), "".into()).is_err());
}

#[test]
fn streams_end_with_an_empty_chunk() {
    let chunk = output_chunk(Some(vec![1, 2]));
    assert_eq!(chunk.data, vec![1, 2]);
    assert!(!chunk.eof);
    let end = output_chunk(None);
    assert!(end.data.is_empty());
    assert!(end.eof);
}

#[test]
fn requests_that_pods_cannot_serve_are_refused() {
    for request in [
        UnservedRequest::PreparePmix,
        UnservedRequest::RunCommand,
        UnservedRequest::CancelStep,
        UnservedRequest::RegisterJobAllocation,
        UnservedRequest::InteractiveSession,
        UnservedRequest::ClusterComponent,
        UnservedRequest::Mesh,
    ] {
        let status = unserved(request);
        assert_eq!(status.code, Code::Unimplemented);
        assert!(!status.message.is_empty());
    }
}
