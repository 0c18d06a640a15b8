use engenho_kubelet::backend::ExecOutcome;
use engenho_kubelet::exec_channel::{
    decode_from_client, encode, exit_status, negotiate, Channel, FrameError, SUBPROTOCOL_V5,
};
use engenho_kubelet::exec_session::{
    backend_failure_frame, percent_decode, plan, session_frames, ExecQuery, ExecRefusal,
};

const SUBPROTOCOL: &str = SUBPROTOCOL_V5;

#[test]
fn the_channel_bytes_are_upstreams_and_round_trip() {
    for (ch, byte) in [
        (Channel::Stdin, 0u8),
        (Channel::Stdout, 1),
        (Channel::Stderr, 2),
        (Channel::Error, 3),
        (Channel::Resize, 4),
    ] {
        assert_eq!(ch.as_byte(), byte, "{ch:?}");
        assert_eq!(Channel::from_byte(byte), Some(ch));
    }
}

#[test]
fn an_unknown_channel_is_refused_not_treated_as_stdout() {
    assert_eq!(Channel::from_byte(5), None);
    assert_eq!(decode_from_client(&[7, b'x']), Err(FrameError::UnknownChannel { byte: 7 }));
}

#[test]
fn a_client_may_not_write_to_stdout_or_forge_a_status() {
    for ch in [Channel::Stdout, Channel::Stderr, Channel::Error] {
        assert!(!ch.client_may_send(), "{ch:?}");
        assert_eq!(
            decode_from_client(&[ch.as_byte(), b'x']),
            Err(FrameError::ClientMayNotSend { channel: ch })
        );
    }
    assert!(Channel::Stdin.client_may_send());
    assert!(Channel::Resize.client_may_send());
}

#[test]
fn an_empty_frame_is_a_skip_not_a_fatal_error() {
    assert_eq!(decode_from_client(&[]), Err(FrameError::Empty));
}

#[test]
fn stdin_frames_decode_with_their_payload_intact() {
    let f = decode_from_client(&[0, b'l', b's', b'\n']).expect("decodes");
    assert_eq!(f.channel, Channel::Stdin);
    assert_eq!(f.payload, b"ls\n".to_vec());
}

#[test]
fn encoding_prefixes_the_channel_and_preserves_the_payload_exactly() {
    assert_eq!(encode(Channel::Stdout, b"hi"), vec![1, b'h', b'i']);
    assert_eq!(encode(Channel::Stderr, b"e"), vec![2, b'e']);
    assert_eq!(encode(Channel::Stdout, b""), vec![1]);
}

#[test]
fn what_is_encoded_on_a_client_channel_decodes_to_itself() {
    let bytes = encode(Channel::Stdin, b"echo hi\n");
    let f = decode_from_client(&bytes).unwrap();
    assert_eq!((f.channel, f.payload), (Channel::Stdin, b"echo hi\n".to_vec()));
}

#[test]
fn a_zero_exit_and_a_failure_are_different_objects() {
    let ok = exit_status(0);
    assert_eq!(ok.str_at("status"), Some("Success"));
    assert!(ok.get("reason").is_none(), "success carries no reason");

    let bad = exit_status(42);
    assert_eq!(bad.str_at("status"), Some("Failure"));
    assert_eq!(bad.str_at("reason"), Some("NonZeroExitCode"));
    let causes = bad.arr_at2("details", "causes").unwrap();
    assert_eq!(causes[0].str_at("reason"), Some("ExitCode"));
    assert_eq!(causes[0].str_at("message"), Some("42"));
}

#[test]
fn only_the_v5_subprotocol_is_accepted() {
    assert_eq!(negotiate("v5.channel.k8s.io"), Some(SUBPROTOCOL_V5));
    assert_eq!(negotiate("v5.channel.k8s.io, v4.channel.k8s.io"), Some(SUBPROTOCOL_V5));
    assert_eq!(negotiate("v4.channel.k8s.io,v3.channel.k8s.io"), None);
    assert_eq!(negotiate(""), None);
}

#[test]
fn frame_errors_say_what_is_wrong() {
    assert_eq!(FrameError::Empty.to_text(), "empty frame carries no channel byte");
    assert!(FrameError::UnknownChannel { byte: 7 }.to_text().contains('7'));
    assert!(FrameError::ClientMayNotSend { channel: Channel::Stdout }.to_text().contains("Stdout"));
}

// ---- sessions ----

fn q(raw: &str) -> ExecQuery {
    ExecQuery::parse(raw)
}

#[test]
fn a_repeated_command_parameter_keeps_every_word_in_order() {
    let parsed = q("command=sh&command=-c&command=ls+%2F");
    assert_eq!(parsed.command, vec!["sh", "-c", "ls /"]);
}

#[test]
fn percent_decoding_handles_plus_escapes_and_malformed_input() {
    assert_eq!(percent_decode("ls+%2Ftmp"), "ls /tmp");
    assert_eq!(percent_decode("%E2%9C%93"), "\u{2713}");
    assert_eq!(percent_decode("100%"), "100%");
    assert_eq!(percent_decode("a%zz"), "a%zz");
    assert_eq!(percent_decode("%+f"), "% f");
    assert_eq!(percent_decode("%4+"), "%4 ");
    assert_eq!(percent_decode("%4a%4A"), "JJ");
}

#[test]
fn an_unknown_parameter_is_ignored_not_rejected() {
    let parsed = q("command=ls&someFutureFlag=true");
    assert_eq!(parsed.command, vec!["ls"]);
}

#[test]
fn interactive_and_tty_are_refused_with_a_reason_each() {
    let sp = SUBPROTOCOL;
    let stdin = plan(&q("command=sh&stdin=true"), sp).unwrap_err();
    assert_eq!(stdin, ExecRefusal::StdinUnsupported);
    assert!(stdin.to_text().contains("to completion"), "{stdin:?}");

    let tty = plan(&q("command=sh&tty=true"), sp).unwrap_err();
    assert_eq!(tty, ExecRefusal::TtyUnsupported);
}

#[test]
fn dash_it_reports_the_stdin_limit_not_the_tty_one() {
    assert_eq!(
        plan(&q("command=sh&stdin=true&tty=true"), SUBPROTOCOL).unwrap_err(),
        ExecRefusal::StdinUnsupported
    );
}

#[test]
fn a_client_offering_no_v5_is_refused_before_anything_else() {
    assert_eq!(
        plan(&q("command=ls"), "v4.channel.k8s.io").unwrap_err(),
        ExecRefusal::SubprotocolUnsupported
    );
}

#[test]
fn an_empty_command_is_refused() {
    assert_eq!(plan(&q("stdout=true"), SUBPROTOCOL).unwrap_err(), ExecRefusal::NoCommand);
}

#[test]
fn asking_for_neither_channel_still_gets_both() {
    let p = plan(&q("command=ls"), SUBPROTOCOL).unwrap();
    assert!(p.want_stdout && p.want_stderr);
}

#[test]
fn asking_for_only_stderr_suppresses_stdout() {
    let p = plan(&q("command=ls&stderr=true"), SUBPROTOCOL).unwrap();
    assert!(!p.want_stdout, "stdout was not requested");
    assert!(p.want_stderr);

    let out = session_frames(
        &p,
        &ExecOutcome { exit_code: 0, stdout: "hidden".into(), stderr: "shown".into() },
    );
    let joined: Vec<u8> = out.concat();
    assert!(!joined.windows(6).any(|w| w == b"hidden"));
    assert!(joined.windows(5).any(|w| w == b"shown"));
}

#[test]
fn the_status_frame_is_always_last_and_always_present() {
    let p = plan(&q("command=true"), SUBPROTOCOL).unwrap();
    let frames = session_frames(&p, &ExecOutcome::success());
    assert_eq!(frames.len(), 1, "only the status frame");
    assert_eq!(frames[0][0], Channel::Error.as_byte());

    let frames = session_frames(
        &p,
        &ExecOutcome { exit_code: 0, stdout: "a".into(), stderr: "b".into() },
    );
    assert_eq!(frames.len(), 3);
    assert_eq!(frames.last().unwrap()[0], Channel::Error.as_byte());
}

#[test]
fn a_non_zero_exit_carries_the_code_kubectl_reads() {
    let p = plan(&q("command=false"), SUBPROTOCOL).unwrap();
    let frames = session_frames(&p, &ExecOutcome::failure(42));
    let status = frames.last().unwrap();
    let body: serde_json::Value =
        serde_json::from_slice(&status[1..]).expect("status frame is JSON");
    assert_eq!(body["status"], "Failure");
    let causes = body["details"]["causes"].as_array().expect("causes");
    assert!(
        causes.iter().any(|c| c["message"] == "42"),
        "exit code reaches the cause: {body}"
    );
}

#[test]
fn a_backend_failure_is_not_rendered_as_an_exit_code() {
    let frame = backend_failure_frame("no such container");
    let body: serde_json::Value = serde_json::from_slice(&frame[1..]).expect("JSON");
    assert_eq!(body["reason"], "InternalError");
    assert!(body.get("details").is_none(), "no exit-code cause: {body}");
    assert!(body["message"].as_str().unwrap().contains("no such"));
}

#[test]
fn quotes_in_a_failure_are_escaped() {
    let frame = backend_failure_frame("no \"x\"\n");
    let body: serde_json::Value = serde_json::from_slice(&frame[1..]).expect("JSON");
    assert_eq!(body["message"], "no \"x\"\n");
}
