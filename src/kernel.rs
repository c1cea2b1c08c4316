use vstd::prelude::*;
use vstd::string::*;

use crate::content::{
    error_content,
    execute_input_content,
    execute_reply_content,
    execute_result_content,
    is_complete_content,
    is_complete_reply_content,
    is_error_content,
    is_execute_input_content,
    is_execute_reply_content,
    is_execute_result_content,
    is_kernel_info_content,
    is_status_content,
    kernel_info,
    status_content,
};
use crate::json::{json_text, Json};
use crate::variables::{hocon_replaced, replace_hocon_parameters};
use crate::message::{
    derived_from,
    derived_header,
    empty_object_text,
    fresh_message_id,
    key_code,
    key_msg_type,
    member_or_empty,
    reply_type,
    timestamp_now,
    JupyterMessage,
    MessageView,
};

verus! {

/// `c` is a child of `m` of type `t`: no identities, `m`'s header as parent,
/// empty metadata, and the derived header with some id and date.
pub open spec fn is_child(c: MessageView, m: MessageView, t: Seq<char>) -> bool {
    &&& c.identities == Seq::<Seq<u8>>::empty()
    &&& c.parent_header == m.header
    &&& c.metadata == empty_object_text()
    &&& exists|id: Seq<char>, date: Seq<char>|
        c.header == #[trigger] derived_header(m.header, t, id, date) && derived_from(
            c.header,
            m.header,
            t,
            id,
            date,
        )
}

/// `c` is a reply to `m`: a child of the reply type routed back to `m`'s
/// identities.
pub open spec fn is_reply(c: MessageView, m: MessageView) -> bool {
    let t = reply_type(member_or_empty(m.header, key_msg_type()));
    &&& c.identities == m.identities
    &&& c.parent_header == m.header
    &&& c.metadata == empty_object_text()
    &&& exists|id: Seq<char>, date: Seq<char>|
        c.header == #[trigger] derived_header(m.header, t, id, date) && derived_from(
            c.header,
            m.header,
            t,
            id,
            date,
        )
}

/// A child of `request` of type `t` with `content`, under a fresh id and the
/// current time.
fn child_message(request: &JupyterMessage, t: &str, content: &Json) -> (r: JupyterMessage)
    ensures
        is_child(r@, request@, t@),
        r@.content == json_text(*content),
{
    let id = fresh_message_id();
    let date = timestamp_now();
    let m = request.new_message_with(t, id.as_str(), date.as_str());
    let r = m.with_content(content);
    proof {
        assert(r@.header == derived_header(request@.header, t@, id@, date@));
    }
    r
}

/// The reply to `request` with `content`, under a fresh id and the current
/// time.
pub fn reply_message(request: &JupyterMessage, content: &Json) -> (r: JupyterMessage)
    ensures
        is_reply(r@, request@),
        r@.content == json_text(*content),
{
    let id = fresh_message_id();
    let date = timestamp_now();
    let m = request.new_reply_with(id.as_str(), date.as_str());
    let r = m.with_content(content);
    proof {
        let t = reply_type(member_or_empty(request@.header, key_msg_type()));
        assert(r@.header == derived_header(request@.header, t, id@, date@));
    }
    r
}

/// The `status` broadcast that brackets the handling of `request`.
pub fn status_message(request: &JupyterMessage, busy: bool) -> (r: JupyterMessage)
    ensures
        is_child(r@, request@, "status"@),
        exists|j: Json|
            r@.content == #[trigger] json_text(j) && is_status_content(
                j,
                if busy {
                    "busy"@
                } else {
                    "idle"@
                },
            ),
{
    let c = status_content(busy);
    child_message(request, "status", &c)
}

/// Equality of two texts.
pub fn text_equal(a: &str, b: &str) -> (r: bool)
    ensures
        r == (a@ == b@),
{
    let n = a.unicode_len();
    if n != b.unicode_len() {
        return false;
    }
    let mut i: usize = 0;
    while i < n
        invariant
            n == a@.len(),
            n == b@.len(),
            i <= n,
            forall|k: int| 0 <= k < i ==> a@[k] == b@[k],
        decreases n - i,
    {
        if a.get_char(i) != b.get_char(i) {
            return false;
        }
        i = i + 1;
    }
    proof {
        assert(a@ =~= b@);
    }
    true
}

/// How the shell channel treats a message type.
#[derive(Clone, Copy, Debug, PartialEq, Eq, Structural)]
pub enum ShellRequest {
    KernelInfo,
    IsComplete,
    Execute,
    /// Known but not supported: ignored without a word.
    Unsupported,
    /// Unknown: reported to the operator and ignored.
    Unrecognized,
}

/// The treatment of the message type `t` on the shell channel.
pub open spec fn shell_request_of(t: Seq<char>) -> ShellRequest {
    if t == "kernel_info_request"@ {
        ShellRequest::KernelInfo
    } else if t == "is_complete_request"@ {
        ShellRequest::IsComplete
    } else if t == "execute_request"@ {
        ShellRequest::Execute
    } else if t == "comm_msg"@ || t == "comm_info_request"@ {
        ShellRequest::Unsupported
    } else {
        ShellRequest::Unrecognized
    }
}

/// The treatment of the message type `t` on the shell channel.
pub fn classify_shell(t: &str) -> (r: ShellRequest)
    ensures
        r == shell_request_of(t@),
{
    if text_equal(t, "kernel_info_request") {
        ShellRequest::KernelInfo
    } else if text_equal(t, "is_complete_request") {
        ShellRequest::IsComplete
    } else if text_equal(t, "execute_request") {
        ShellRequest::Execute
    } else if text_equal(t, "comm_msg") || text_equal(t, "comm_info_request") {
        ShellRequest::Unsupported
    } else {
        ShellRequest::Unrecognized
    }
}

/// One step of handling a shell message.
pub enum ShellAction {
    /// Publish a `status` broadcast on iopub: busy when `true`, idle when
    /// `false`.
    PublishStatus(bool),
    /// Send a reply with this content on the shell socket.
    Reply(Json),
    /// Hand the request to the execution coordinator, wait for its one reply
    /// and send that reply on the shell socket.
    Execute,
    /// Report the unrecognized message type to the operator.
    ReportUnrecognized,
}

/// The steps of handling a shell message of type `msg_type`, in order:
/// busy, the dispatch, idle. Execution requests are handed over one at a
/// time: the step blocks until the reply is back.
pub fn plan_shell(msg_type: &str) -> (r: Vec<ShellAction>)
    ensures
        ({
            let req = shell_request_of(msg_type@);
            &&& r@.len() == (if req == ShellRequest::Unsupported {
                2int
            } else {
                3int
            })
            &&& r@[0] == ShellAction::PublishStatus(true)
            &&& r@[r@.len() - 1] == ShellAction::PublishStatus(false)
            &&& req == ShellRequest::KernelInfo ==> r@[1] is Reply && is_kernel_info_content(
                r@[1]->Reply_0,
            )
            &&& req == ShellRequest::IsComplete ==> r@[1] is Reply && is_complete_content(
                r@[1]->Reply_0,
            )
            &&& req == ShellRequest::Execute ==> r@[1] == ShellAction::Execute
            &&& req == ShellRequest::Unrecognized ==> r@[1] == ShellAction::ReportUnrecognized
        }),
{
    let mut r: Vec<ShellAction> = Vec::new();
    r.push(ShellAction::PublishStatus(true));
    match classify_shell(msg_type) {
        ShellRequest::KernelInfo => r.push(ShellAction::Reply(kernel_info())),
        ShellRequest::IsComplete => r.push(ShellAction::Reply(is_complete_reply_content())),
        ShellRequest::Execute => r.push(ShellAction::Execute),
        ShellRequest::Unsupported => {},
        ShellRequest::Unrecognized => r.push(ShellAction::ReportUnrecognized),
    }
    r.push(ShellAction::PublishStatus(false));
    r
}

/// An effect of handling the `i`-th message on the shell channel.
pub enum ShellEvent {
    /// The busy `status` broadcast.
    Busy(nat),
    /// The coordinator's `execute_input` broadcast.
    ExecuteInput(nat),
    /// The coordinator's `execute_result` or `error` broadcast.
    Outcome(nat),
    /// The reply sent on the shell socket.
    Reply(nat),
    /// The idle `status` broadcast.
    Idle(nat),
}

/// The message that an event belongs to.
pub open spec fn event_message(e: ShellEvent) -> nat {
    match e {
        ShellEvent::Busy(i) => i,
        ShellEvent::ExecuteInput(i) => i,
        ShellEvent::Outcome(i) => i,
        ShellEvent::Reply(i) => i,
        ShellEvent::Idle(i) => i,
    }
}

/// The events of handling the `i`-th message, in the order of `plan_shell`'s
/// steps; the `Execute` step is the coordinator's `begin`, its `finish`
/// broadcast, and the sending of its reply.
pub open spec fn handling_events(i: nat, req: ShellRequest) -> Seq<ShellEvent> {
    match req {
        ShellRequest::Execute => seq![
            ShellEvent::Busy(i),
            ShellEvent::ExecuteInput(i),
            ShellEvent::Outcome(i),
            ShellEvent::Reply(i),
            ShellEvent::Idle(i),
        ],
        ShellRequest::KernelInfo => seq![ShellEvent::Busy(i), ShellEvent::Reply(i), ShellEvent::Idle(i)],
        ShellRequest::IsComplete => seq![ShellEvent::Busy(i), ShellEvent::Reply(i), ShellEvent::Idle(i)],
        _ => seq![ShellEvent::Busy(i), ShellEvent::Idle(i)],
    }
}

/// The events of the shell loop that handles messages of the treatments
/// `reqs`, one after another: it takes the next message only when the steps
/// of the previous one, the wait for an execution reply included, are done.
pub open spec fn shell_events(reqs: Seq<ShellRequest>) -> Seq<ShellEvent>
    decreases reqs.len(),
{
    if reqs.len() == 0 {
        Seq::empty()
    } else {
        shell_events(reqs.drop_last()) + handling_events((reqs.len() - 1) as nat, reqs.last())
    }
}

proof fn lemma_events_belong_to_handled(reqs: Seq<ShellRequest>)
    ensures
        forall|p: int|
            0 <= p < shell_events(reqs).len() ==> event_message(#[trigger] shell_events(reqs)[p])
                < reqs.len(),
    decreases reqs.len(),
{
    if reqs.len() > 0 {
        let n = (reqs.len() - 1) as nat;
        lemma_events_belong_to_handled(reqs.drop_last());
        let prev = shell_events(reqs.drop_last());
        let b = handling_events(n, reqs.last());
        assert forall|p: int| 0 <= p < shell_events(reqs).len() implies event_message(
            #[trigger] shell_events(reqs)[p],
        ) < reqs.len() by {
            if p >= prev.len() {
                assert(shell_events(reqs)[p] == b[p - prev.len()]);
                assert(event_message(b[p - prev.len()]) == n);
            } else {
                assert(shell_events(reqs)[p] == prev[p]);
            }
        }
    }
}

/// Ordering on the shell channel: the `execute_input` broadcast of a later
/// request never comes before the reply to an earlier one.
pub proof fn lemma_execute_input_after_earlier_reply(
    reqs: Seq<ShellRequest>,
    i: nat,
    j: nat,
    p: int,
    q: int,
)
    requires
        i < j,
        0 <= p < shell_events(reqs).len(),
        0 <= q < shell_events(reqs).len(),
        shell_events(reqs)[p] == ShellEvent::ExecuteInput(j),
        shell_events(reqs)[q] == ShellEvent::Reply(i),
    ensures
        q < p,
    decreases reqs.len(),
{
    let n = (reqs.len() - 1) as nat;
    let prev = shell_events(reqs.drop_last());
    let b = handling_events(n, reqs.last());
    let e = shell_events(reqs);
    assert(e == prev + b);
    lemma_events_belong_to_handled(reqs.drop_last());
    if p < prev.len() && q < prev.len() {
        assert(prev[p] == e[p]);
        assert(prev[q] == e[q]);
        lemma_execute_input_after_earlier_reply(reqs.drop_last(), i, j, p, q);
    } else if q >= prev.len() {
        assert(e[q] == b[q - prev.len()]);
        assert(event_message(b[q - prev.len()]) == n);
        if p >= prev.len() {
            assert(e[p] == b[p - prev.len()]);
            assert(event_message(b[p - prev.len()]) == n);
        } else {
            assert(e[p] == prev[p]);
        }
    }
}

/// What the control channel does with one message.
#[derive(Clone, Copy, Debug, PartialEq, Eq, Structural)]
pub enum ControlAction {
    /// Fire the shutdown signal.
    SignalShutdown,
    /// A shutdown was already signalled: nothing more to do.
    AlreadyShuttingDown,
    /// Send the (empty) interrupt reply and tell the user that running code
    /// cannot be interrupted.
    ReplyInterrupt,
    /// Report the unrecognized message type to the operator.
    ReportUnrecognized,
}

/// The state of the control loop: whether shutdown has been signalled.
pub struct ControlLoop {
    shutdown_signalled: bool,
}

impl ControlLoop {
    /// Whether shutdown has been signalled.
    pub closed spec fn signalled(&self) -> bool {
        self.shutdown_signalled
    }

    /// A control loop before any shutdown.
    pub fn new() -> (r: ControlLoop)
        ensures
            !r.signalled(),
    {
        ControlLoop { shutdown_signalled: false }
    }

    /// Whether shutdown has been signalled.
    pub fn shutdown_signalled(&self) -> (r: bool)
        ensures
            r == self.signalled(),
    {
        self.shutdown_signalled
    }

    /// Decides what to do with a control message of type `msg_type`. The
    /// signal fires on the first shutdown request only.
    pub fn handle(&mut self, msg_type: &str) -> (r: ControlAction)
        ensures
            msg_type@ == "shutdown_request"@ ==> final(self).signalled() && r == (if old(
                self,
            ).signalled() {
                ControlAction::AlreadyShuttingDown
            } else {
                ControlAction::SignalShutdown
            }),
            msg_type@ != "shutdown_request"@ ==> final(self).signalled() == old(self).signalled(),
            msg_type@ == "interrupt_request"@ ==> r == ControlAction::ReplyInterrupt,
            msg_type@ != "shutdown_request"@ && msg_type@ != "interrupt_request"@ ==> r
                == ControlAction::ReportUnrecognized,
    {
        proof {
            reveal_strlit("shutdown_request");
            reveal_strlit("interrupt_request");
            assert("shutdown_request"@[0] != "interrupt_request"@[0]);
        }
        if text_equal(msg_type, "shutdown_request") {
            if self.shutdown_signalled {
                ControlAction::AlreadyShuttingDown
            } else {
                self.shutdown_signalled = true;
                ControlAction::SignalShutdown
            }
        } else if text_equal(msg_type, "interrupt_request") {
            ControlAction::ReplyInterrupt
        } else {
            ControlAction::ReportUnrecognized
        }
    }
}

/// What the execution engine made of one request.
pub enum ExecutionOutcome {
    /// The result, rendered as HTML.
    Rendered(String),
    /// The error's display text.
    Failed(String),
}

/// The single-flight execution loop's state: the execution counter.
pub struct ExecutionCoordinator {
    execution_count: u32,
}

/// One step of the coordinator: taking in a request, or finishing one.
pub enum CoordinatorStep {
    Begin,
    Finish(bool),
}

/// The counter after `step` from `count`: taking in a request counts it;
/// finishing one, well or not, leaves the counter alone.
pub open spec fn counter_after_step(count: nat, step: CoordinatorStep) -> nat {
    match step {
        CoordinatorStep::Begin => count + 1,
        CoordinatorStep::Finish(_) => count,
    }
}

/// The counter after the steps `steps` from `count`.
pub open spec fn counter_after(count: nat, steps: Seq<CoordinatorStep>) -> nat
    decreases steps.len(),
{
    if steps.len() == 0 {
        count
    } else {
        counter_after_step(counter_after(count, steps.drop_last()), steps.last())
    }
}

/// The steps of handling requests with the outcomes `ok`, one after the
/// other: each is taken in, then finished.
pub open spec fn request_steps(ok: Seq<bool>) -> Seq<CoordinatorStep>
    decreases ok.len(),
{
    if ok.len() == 0 {
        Seq::empty()
    } else {
        request_steps(ok.drop_last()) + seq![CoordinatorStep::Begin, CoordinatorStep::Finish(ok.last())]
    }
}

/// From a new coordinator, `N` requests taken in and finished leave the
/// counter at `N`, however many of them failed.
pub proof fn lemma_counter_counts_requests(ok: Seq<bool>)
    ensures
        counter_after(0, request_steps(ok)) == ok.len(),
    decreases ok.len(),
{
    if ok.len() > 0 {
        lemma_counter_counts_requests(ok.drop_last());
        let before = request_steps(ok.drop_last());
        let s = request_steps(ok);
        assert(s.drop_last() == before.push(CoordinatorStep::Begin));
        assert(s.drop_last().drop_last() == before);
        assert(s.last() == CoordinatorStep::Finish(ok.last()));
        assert(s.drop_last().last() == CoordinatorStep::Begin);
        assert(counter_after(0, s.drop_last()) == counter_after(0, before) + 1);
    }
}

/// The pipeline configuration that the engine runs for a cell of code: the
/// code, with its placeholders moved inside strings, as the one element of a
/// stage list.
pub fn pipeline_config(code: &str) -> (r: String)
    ensures
        r@ == seq!['['] + hocon_replaced(code@) + seq![']'],
{
    proof {
        reveal_strlit("[");
        reveal_strlit("]");
    }
    let body = replace_hocon_parameters(code);
    let r = String::from_str("[").concat(body.as_str()).concat("]");
    r
}

impl ExecutionCoordinator {
    /// The execution counter.
    pub closed spec fn count(&self) -> nat {
        self.execution_count as nat
    }

    /// A coordinator that has executed nothing: the counter is 0.
    pub fn new() -> (r: ExecutionCoordinator)
        ensures
            r.count() == 0,
    {
        ExecutionCoordinator { execution_count: 0 }
    }

    /// The execution counter.
    pub fn execution_count(&self) -> (r: u32)
        ensures
            r == self.count(),
    {
        self.execution_count
    }

    /// Takes in an execute request: counts it and gives the `execute_input`
    /// broadcast with the new count and the request's code.
    pub fn begin(&mut self, request: &JupyterMessage) -> (r: JupyterMessage)
        requires
            old(self).count() < u32::MAX,
        ensures
            final(self).count() == counter_after_step(old(self).count(), CoordinatorStep::Begin),
            is_child(r@, request@, "execute_input"@),
            exists|j: Json|
                r@.content == #[trigger] json_text(j) && is_execute_input_content(
                    j,
                    final(self).count() as int,
                    member_or_empty(request@.content, key_code()),
                ),
    {
        self.execution_count = self.execution_count + 1;
        let code = request.code();
        let c = execute_input_content(self.execution_count, code.as_str());
        child_message(request, "execute_input", &c)
    }

    /// Finishes the request with `outcome`: the `execute_result` or `error`
    /// broadcast, and the one reply to send back. The counter is left alone.
    pub fn finish(&self, request: &JupyterMessage, outcome: &ExecutionOutcome) -> (r: (
        JupyterMessage,
        JupyterMessage,
    ))
        ensures
            match outcome {
                ExecutionOutcome::Rendered(html) => is_child(r.0@, request@, "execute_result"@)
                    && exists|j: Json|
                    r.0@.content == #[trigger] json_text(j) && is_execute_result_content(
                        j,
                        self.count() as int,
                        html@,
                    ),
                ExecutionOutcome::Failed(e) => is_child(r.0@, request@, "error"@) && exists|j: Json|
                    r.0@.content == #[trigger] json_text(j) && is_error_content(j, e@),
            },
            is_reply(r.1@, request@),
            exists|j: Json|
                r.1@.content == #[trigger] json_text(j) && is_execute_reply_content(
                    j,
                    outcome is Rendered,
                    self.count() as int,
                ),
    {
        match outcome {
            ExecutionOutcome::Rendered(html) => {
                let c = execute_result_content(self.execution_count, html.as_str());
                let broadcast = child_message(request, "execute_result", &c);
                let rc = execute_reply_content(true, self.execution_count);
                (broadcast, reply_message(request, &rc))
            },
            ExecutionOutcome::Failed(e) => {
                let c = error_content(e.as_str());
                let broadcast = child_message(request, "error", &c);
                let rc = execute_reply_content(false, self.execution_count);
                (broadcast, reply_message(request, &rc))
            },
        }
    }
}

} // verus!
