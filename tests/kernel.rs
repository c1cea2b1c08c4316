use box_kernel::content::{kernel_info, status_content};
use box_kernel::json::Json;
use box_kernel::kernel::{
    classify_shell, plan_shell, reply_message, status_message, text_equal, ControlAction,
    ControlLoop, ExecutionCoordinator, ExecutionOutcome, ShellAction, ShellRequest,
};
use box_kernel::message::JupyterMessage;
use box_kernel::wire::RawMessage;

fn message(msg_type: &str, code: &str) -> JupyterMessage {
    let header = format!("{{\"msg_id\":\"m\",\"msg_type\":\"{}\",\"session\":\"s\"}}", msg_type);
    let content = format!("{{\"code\":\"{}\"}}", code);
    let raw = RawMessage {
        identities: vec![b"frontend".to_vec()],
        parts: vec![header.into_bytes(), b"{}".to_vec(), b"{}".to_vec(), content.into_bytes()],
    };
    JupyterMessage::from_raw_message(raw).unwrap()
}

fn parse(text: &str) -> serde_json::Value {
    serde_json::from_str(text).unwrap()
}

#[test]
fn kernel_info_request_plan() {
    let plan = plan_shell("kernel_info_request");
    assert_eq!(plan.len(), 3);
    assert!(matches!(plan[0], ShellAction::PublishStatus(true)));
    assert!(matches!(plan[2], ShellAction::PublishStatus(false)));
    match &plan[1] {
        ShellAction::Reply(c) => {
            let v = parse(&c.dump());
            assert_eq!(v["protocol_version"], "5.3");
            assert_eq!(v["status"], "ok");
            assert_eq!(v["language_info"]["codemirror_mode"]["tabSize"], 2);
        }
        _ => panic!("expected a reply"),
    }
}

#[test]
fn kernel_info_text() {
    assert_eq!(
        kernel_info().dump(),
        r#"{"protocol_version":"5.3","implementation":"box_kernel","implementation_version":"0.1.0","language_info":{"name":"javascript","version":"0.1.0","mimetype":"application/json","pygment_lexer":"javascript","codemirror_mode":{"name":"javascript","statementIndent":2,"tabSize":2,"smartIndent":false}},"banner":"Box 0.1.0","help_links":[],"status":"ok"}"#
    );
}

#[test]
fn busy_and_idle_status_messages() {
    let m = message("kernel_info_request", "");
    let busy = status_message(&m, true);
    let idle = status_message(&m, false);
    assert_eq!(busy.content(), r#"{"execution_state":"busy"}"#);
    assert_eq!(idle.content(), r#"{"execution_state":"idle"}"#);
    assert_eq!(parse(&busy.header())["msg_type"], "status");
    assert!(busy.identities().is_empty());
    assert_eq!(status_content(true).dump(), r#"{"execution_state":"busy"}"#);
}

#[test]
fn shell_dispatch_by_type() {
    assert_eq!(classify_shell("is_complete_request"), ShellRequest::IsComplete);
    assert_eq!(classify_shell("execute_request"), ShellRequest::Execute);
    assert_eq!(classify_shell("comm_msg"), ShellRequest::Unsupported);
    assert_eq!(classify_shell("comm_info_request"), ShellRequest::Unsupported);
    assert_eq!(classify_shell("complete_request"), ShellRequest::Unrecognized);

    let plan = plan_shell("is_complete_request");
    match &plan[1] {
        ShellAction::Reply(c) => assert_eq!(c.dump(), r#"{"status":"complete"}"#),
        _ => panic!("expected a reply"),
    }
    let plan = plan_shell("execute_request");
    assert!(matches!(plan[1], ShellAction::Execute));
    let plan = plan_shell("comm_msg");
    assert_eq!(plan.len(), 2);
    let plan = plan_shell("history_request");
    assert!(matches!(plan[1], ShellAction::ReportUnrecognized));
    assert_eq!(plan.len(), 3);
}

#[test]
fn control_shutdown_fires_once() {
    let mut control = ControlLoop::new();
    assert!(!control.shutdown_signalled());
    assert_eq!(control.handle("interrupt_request"), ControlAction::ReplyInterrupt);
    assert_eq!(control.handle("shutdown_request"), ControlAction::SignalShutdown);
    assert!(control.shutdown_signalled());
    assert_eq!(control.handle("shutdown_request"), ControlAction::AlreadyShuttingDown);
    assert_eq!(control.handle("other"), ControlAction::ReportUnrecognized);
    assert!(control.shutdown_signalled());
}

#[test]
fn interrupt_reply_is_empty() {
    let m = message("interrupt_request", "");
    let r = reply_message(&m, &Json::Object(vec![]));
    assert_eq!(r.content(), "{}");
    assert_eq!(parse(&r.header())["msg_type"], "interrupt_reply");
    assert_eq!(r.identities(), vec![b"frontend".to_vec()]);
}

#[test]
fn counter_counts_every_request() {
    let mut c = ExecutionCoordinator::new();
    assert_eq!(c.execution_count(), 0);
    let r1 = message("execute_request", "1+1");
    let input = c.begin(&r1);
    assert_eq!(input.content(), r#"{"execution_count":1,"code":"1+1"}"#);
    let (b, reply) = c.finish(&r1, &ExecutionOutcome::Failed("boom".to_string()));
    assert_eq!(b.content(), r#"{"ename":"Error","evalue":"boom","traceback":["boom"]}"#);
    assert_eq!(parse(&b.header())["msg_type"], "error");
    assert_eq!(reply.content(), r#"{"status":"error","execution_count":1}"#);
    let r2 = message("execute_request", "2");
    c.begin(&r2);
    let (b, reply) = c.finish(&r2, &ExecutionOutcome::Rendered("<table></table>".to_string()));
    assert_eq!(
        b.content(),
        r#"{"execution_count":2,"data":{"text/html":"<table></table>"},"metadata":{}}"#
    );
    assert_eq!(parse(&b.header())["msg_type"], "execute_result");
    assert_eq!(reply.content(), r#"{"status":"ok","execution_count":2}"#);
    assert_eq!(parse(&reply.header())["msg_type"], "execute_reply");
    assert_eq!(reply.identities(), vec![b"frontend".to_vec()]);
    assert_eq!(c.execution_count(), 2);
}

#[test]
fn session_state_carries_over_requests() {
    // A stand-in engine whose session keeps the views registered so far.
    let mut views: Vec<String> = Vec::new();
    let mut run = |code: &str| -> ExecutionOutcome {
        if code == "1+1" {
            views.push("registered_view_from_first".to_string());
            ExecutionOutcome::Rendered("2".to_string())
        } else if views.iter().any(|v| v == code) {
            ExecutionOutcome::Rendered(code.to_string())
        } else {
            ExecutionOutcome::Failed(format!("no view {}", code))
        }
    };
    let mut c = ExecutionCoordinator::new();
    let mut replies = Vec::new();
    for code in ["1+1", "registered_view_from_first"] {
        let req = message("execute_request", code);
        c.begin(&req);
        let outcome = run(&req.code());
        let (_, reply) = c.finish(&req, &outcome);
        replies.push(parse(&reply.content()));
    }
    assert_eq!(replies[0]["status"], "ok");
    assert_eq!(replies[1]["status"], "ok");
    assert_eq!(replies[1]["execution_count"], 2);
}

#[test]
fn text_equality() {
    assert!(text_equal("abc", "abc"));
    assert!(!text_equal("abc", "abd"));
    assert!(!text_equal("", "a"));
}
