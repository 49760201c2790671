use vstd::prelude::*;
use vstd::string::StringSliceAdditionalSpecFns;
use vstd::utf8::encode_utf8;
use crate::bytes::{append_bytes, copy_bytes};
use crate::calc::{calculate, eval_line, CalcError};
use crate::json::{decimal_bytes, decimal_text, json_str_field, json_string_field};
use crate::message::{is_reply, status_text, HeaderModel, Message, MessageModel};

verus! {

/// The logical channels on which messages leave the kernel.
#[derive(Debug, Clone, Copy, PartialEq, Eq, Structural)]
pub enum Channel {
    Shell,
    Control,
    Iopub,
}

/// The request types that the kernel tells apart.
#[derive(Debug, Clone, Copy, PartialEq, Eq, Structural)]
pub enum RequestKind {
    KernelInfo,
    Execute,
    Shutdown,
    Other,
}

pub open spec fn request_kind(msg_type: Seq<char>) -> RequestKind {
    if msg_type == "kernel_info_request"@ {
        RequestKind::KernelInfo
    } else if msg_type == "execute_request"@ {
        RequestKind::Execute
    } else if msg_type == "shutdown_request"@ {
        RequestKind::Shutdown
    } else {
        RequestKind::Other
    }
}

/// The kind of a request, from its message type.
pub fn classify(msg_type: &String) -> (r: RequestKind)
    ensures
        r == request_kind(msg_type@),
{
    if *msg_type == "kernel_info_request".to_owned() {
        RequestKind::KernelInfo
    } else if *msg_type == "execute_request".to_owned() {
        RequestKind::Execute
    } else if *msg_type == "shutdown_request".to_owned() {
        RequestKind::Shutdown
    } else {
        RequestKind::Other
    }
}

/// The state that requests change: the execution counter and the
/// evaluator's stack, whose top is its last element.
pub struct KernelState {
    pub exec_count: u64,
    pub stack: Vec<i32>,
}

impl KernelState {
    pub fn new() -> (r: KernelState)
        ensures
            r.exec_count == 0,
            r.stack@ == Seq::<i32>::empty(),
    {
        KernelState { exec_count: 0, stack: Vec::new() }
    }
}

/// A message to be sent, and where.
pub struct Outgoing {
    pub channel: Channel,
    pub msg: Message,
}

/// What a handler sends in answer to a request: channel, type and content.
pub struct Planned {
    pub channel: Channel,
    pub msg_type: Seq<char>,
    pub content: Seq<u8>,
}

/// `out` holds replies to `request` as `plan` lays them out, in order.
pub open spec fn follows_plan(out: Seq<Outgoing>, request: MessageModel, plan: Seq<Planned>) -> bool {
    &&& out.len() == plan.len()
    &&& forall|i: int| 0 <= i < out.len() ==> {
        &&& (#[trigger] out[i]).channel == plan[i].channel
        &&& is_reply(out[i].msg@, request, plan[i].msg_type, plan[i].content)
    }
}

pub const KERNEL_INFO: &'static str = "{\"protocol_version\":\"5.0\",\"implementation\":\"calcurust\",\"implementation_version\":\"0.1\",\"language_info\":{\"name\":\"RPN\",\"version\":\"0.1\",\"mimetype\":\"text/plain\",\"file_extension\":\".txt\"},\"banner\":\"Reverse polish notation calculator\"}";

/// The static content of a kernel_info_reply.
pub open spec fn kernel_info_text() -> Seq<u8> {
    KERNEL_INFO.spec_bytes()
}

/// Content of an execute_result showing `value` as plain text.
pub open spec fn result_text(value: int, count: int) -> Seq<u8> {
    "{\"data\":{\"text/plain\":\"".spec_bytes() + decimal_text(value)
        + "\"},\"metadata\":{},\"execution_count\":".spec_bytes() + decimal_text(count)
        + "}".spec_bytes()
}

/// Content of a successful execute_reply.
pub open spec fn ok_reply_text(count: int) -> Seq<u8> {
    "{\"status\":\"ok\",\"execution_count\":".spec_bytes() + decimal_text(count) + "}".spec_bytes()
}

pub open spec fn error_name(e: CalcError) -> Seq<u8> {
    match e {
        CalcError::StackUnderflow => "StackUnderflow".spec_bytes(),
        CalcError::DivisionByZero => "DivisionByZero".spec_bytes(),
        CalcError::Overflow => "Overflow".spec_bytes(),
        CalcError::InvalidToken => "InvalidToken".spec_bytes(),
    }
}

/// Content of an execute_reply for an evaluation that failed.
pub open spec fn error_reply_text(e: CalcError, count: int) -> Seq<u8> {
    "{\"status\":\"error\",\"execution_count\":".spec_bytes() + decimal_text(count)
        + ",\"ename\":\"".spec_bytes() + error_name(e)
        + "\",\"evalue\":\"".spec_bytes() + error_name(e)
        + "\",\"traceback\":[]}".spec_bytes()
}

/// What an execute request sends, given the counter after it was raised, the
/// code it carried (if any), and the evaluation of that code.
pub open spec fn execute_plan(count: int, code: Option<Seq<char>>, after: (Seq<i32>, Option<CalcError>)) -> Seq<Planned> {
    match code {
        None => Seq::empty(),
        Some(_) => match after.1 {
            Some(e) => seq![Planned { channel: Channel::Shell, msg_type: "execute_reply"@, content: error_reply_text(e, count) }],
            None => if after.0.len() == 0 {
                Seq::empty()
            } else {
                seq![
                    Planned { channel: Channel::Iopub, msg_type: "execute_result"@, content: result_text(after.0.last() as int, count) },
                    Planned { channel: Channel::Shell, msg_type: "execute_reply"@, content: ok_reply_text(count) },
                ]
            },
        },
    }
}

/// The code of an execute request.
pub open spec fn request_code(m: MessageModel) -> Option<Seq<char>> {
    json_string_field(m.content, "code"@)
}

/// The stack and error after evaluating a request's code; the stack is
/// untouched when there is no code.
pub open spec fn evaluation(m: MessageModel, stack: Seq<i32>) -> (Seq<i32>, Option<CalcError>) {
    match request_code(m) {
        Some(code) => eval_line(stack, encode_utf8(code)),
        None => (stack, None),
    }
}

/// The replies of the handler for `m`, between the two status messages.
pub open spec fn handler_plan(m: MessageModel, count: int, stack: Seq<i32>) -> Seq<Planned> {
    match request_kind(m.header.msg_type) {
        RequestKind::KernelInfo => seq![Planned { channel: Channel::Shell, msg_type: "kernel_info_reply"@, content: kernel_info_text() }],
        RequestKind::Execute => execute_plan(count + 1, request_code(m), evaluation(m, stack)),
        _ => Seq::empty(),
    }
}

fn push_number(out: &mut Vec<u8>, n: i128)
    ensures
        final(out)@ == old(out)@ + decimal_text(n as int),
{
    append_bytes(out, decimal_bytes(n).as_slice());
}

fn error_name_bytes(e: CalcError) -> (r: &'static str)
    ensures
        r.spec_bytes() == error_name(e),
{
    match e {
        CalcError::StackUnderflow => "StackUnderflow",
        CalcError::DivisionByZero => "DivisionByZero",
        CalcError::Overflow => "Overflow",
        CalcError::InvalidToken => "InvalidToken",
    }
}

/// The kernel_info_reply to `msg`.
pub fn kernel_info(msg: &Message) -> (r: Message)
    ensures
        is_reply(r@, msg@, "kernel_info_reply"@, kernel_info_text()),
{
    Message::prepare_reply("kernel_info_reply", msg, copy_bytes(KERNEL_INFO.as_bytes()))
}

/// Handles an execute request: raises the counter, evaluates the code, and
/// answers with the result, or with the error that stopped evaluation.
pub fn execute(msg: &Message, state: &mut KernelState) -> (r: Vec<Outgoing>)
    requires
        old(state).exec_count < u64::MAX,
    ensures
        final(state).exec_count == old(state).exec_count + 1,
        final(state).stack@ == evaluation(msg@, old(state).stack@).0,
        follows_plan(r@, msg@, execute_plan(final(state).exec_count as int, request_code(msg@), evaluation(msg@, old(state).stack@))),
{
    state.exec_count = state.exec_count + 1;
    let count = state.exec_count;
    let mut out: Vec<Outgoing> = Vec::new();
    let code = match json_str_field(msg.content.as_slice(), "code") {
        Some(c) => c,
        None => {
            assert(out@ =~= Seq::<Outgoing>::empty());
            return out;
        },
    };
    let code_text = code.as_str();
    assert(code_text.spec_bytes() == encode_utf8(code@));
    match calculate(&mut state.stack, code_text) {
        Err(e) => {
            let mut content: Vec<u8> = Vec::new();
            append_bytes(&mut content, "{\"status\":\"error\",\"execution_count\":".as_bytes());
            push_number(&mut content, count as i128);
            append_bytes(&mut content, ",\"ename\":\"".as_bytes());
            append_bytes(&mut content, error_name_bytes(e).as_bytes());
            append_bytes(&mut content, "\",\"evalue\":\"".as_bytes());
            append_bytes(&mut content, error_name_bytes(e).as_bytes());
            append_bytes(&mut content, "\",\"traceback\":[]}".as_bytes());
            let reply = Message::prepare_reply("execute_reply", msg, content);
            out.push(Outgoing { channel: Channel::Shell, msg: reply });
        },
        Ok(_) => {
            let n = state.stack.len();
            if n > 0 {
                let top = state.stack[n - 1];
                let mut shown: Vec<u8> = Vec::new();
                append_bytes(&mut shown, "{\"data\":{\"text/plain\":\"".as_bytes());
                push_number(&mut shown, top as i128);
                append_bytes(&mut shown, "\"},\"metadata\":{},\"execution_count\":".as_bytes());
                push_number(&mut shown, count as i128);
                append_bytes(&mut shown, "}".as_bytes());
                let result = Message::prepare_reply("execute_result", msg, shown);
                out.push(Outgoing { channel: Channel::Iopub, msg: result });
                let mut content: Vec<u8> = Vec::new();
                append_bytes(&mut content, "{\"status\":\"ok\",\"execution_count\":".as_bytes());
                push_number(&mut content, count as i128);
                append_bytes(&mut content, "}".as_bytes());
                let reply = Message::prepare_reply("execute_reply", msg, content);
                out.push(Outgoing { channel: Channel::Shell, msg: reply });
            }
        },
    }
    out
}

/// `out` is a busy status, the replies of `plan`, then an idle status, all
/// answering `request`, the statuses on IOPub.
pub open spec fn bracketed(out: Seq<Outgoing>, request: MessageModel, plan: Seq<Planned>) -> bool {
    &&& out.len() == plan.len() + 2
    &&& out[0].channel == Channel::Iopub
    &&& is_reply(out[0].msg@, request, "status"@, status_text("busy"@))
    &&& out.last().channel == Channel::Iopub
    &&& is_reply(out.last().msg@, request, "status"@, status_text("idle"@))
    &&& follows_plan(out.subrange(1, out.len() - 1), request, plan)
}

/// The execution counter after handling a request of type `msg_type`.
pub open spec fn next_exec_count(count: int, msg_type: Seq<char>) -> int {
    if request_kind(msg_type) == RequestKind::Execute { count + 1 } else { count }
}

/// Every message sent while handling a request goes back to the identities
/// that sent it, in its session, with its header as parent header.
pub proof fn lemma_replies_keep_identity(out: Seq<Outgoing>, request: MessageModel, plan: Seq<Planned>)
    requires
        bracketed(out, request, plan),
    ensures
        forall|i: int| 0 <= i < out.len() ==> {
            &&& (#[trigger] out[i]).msg@.identities == request.identities
            &&& out[i].msg@.header.session == request.header.session
            &&& out[i].msg@.parent_header == Some(request.header)
        },
{
    let mid = out.subrange(1, out.len() - 1);
    assert forall|i: int| 0 <= i < out.len() implies {
        &&& (#[trigger] out[i]).msg@.identities == request.identities
        &&& out[i].msg@.header.session == request.header.session
        &&& out[i].msg@.parent_header == Some(request.header)
    } by {
        if 0 < i < out.len() - 1 {
            assert(mid[i - 1] == out[i]);
        }
    }
}

/// Handling a request sends a busy status first and an idle status last,
/// both answering the request, and no status in between.
pub proof fn lemma_status_bracketing(out: Seq<Outgoing>, request: MessageModel, count: int, stack: Seq<i32>)
    requires
        bracketed(out, request, handler_plan(request, count, stack)),
    ensures
        out.len() >= 2,
        out[0].msg@.header.msg_type == "status"@,
        out[0].msg@.content == status_text("busy"@),
        out[0].msg@.parent_header == Some(request.header),
        out.last().msg@.header.msg_type == "status"@,
        out.last().msg@.content == status_text("idle"@),
        out.last().msg@.parent_header == Some(request.header),
        forall|i: int| 0 < i < out.len() - 1 ==> (#[trigger] out[i]).msg@.header.msg_type != "status"@,
{
    let plan = handler_plan(request, count, stack);
    let mid = out.subrange(1, out.len() - 1);
    reveal_strlit("status");
    reveal_strlit("kernel_info_reply");
    reveal_strlit("execute_reply");
    reveal_strlit("execute_result");
    assert("kernel_info_reply"@.len() != "status"@.len());
    assert("execute_reply"@.len() != "status"@.len());
    assert("execute_result"@.len() != "status"@.len());
    assert forall|i: int| 0 <= i < plan.len() implies (#[trigger] plan[i]).msg_type == "kernel_info_reply"@
        || plan[i].msg_type == "execute_reply"@ || plan[i].msg_type == "execute_result"@ by {}
    assert forall|i: int| 0 < i < out.len() - 1 implies (#[trigger] out[i]).msg@.header.msg_type != "status"@ by {
        assert(mid[i - 1] == out[i]);
        assert(plan[i - 1].msg_type != "status"@);
    }
}

/// The execution counter after a run of requests of the given types.
pub open spec fn exec_count_after(count: int, types: Seq<Seq<char>>) -> int
    decreases types.len(),
{
    if types.len() == 0 {
        count
    } else {
        next_exec_count(exec_count_after(count, types.drop_last()), types.last())
    }
}

/// How many of the given request types are execute requests.
pub open spec fn execute_requests(types: Seq<Seq<char>>) -> int
    decreases types.len(),
{
    if types.len() == 0 {
        0
    } else {
        execute_requests(types.drop_last()) + if request_kind(types.last()) == RequestKind::Execute { 1int } else { 0 }
    }
}

/// Over any run of requests the counter grows by the number of execute
/// requests among them, whatever their outcome.
pub proof fn lemma_exec_count_counts(count: int, types: Seq<Seq<char>>)
    ensures
        exec_count_after(count, types) == count + execute_requests(types),
    decreases types.len(),
{
    if types.len() > 0 {
        lemma_exec_count_counts(count, types.drop_last());
    }
}

/// Over a run of calls, each of which moves the counter as
/// `dispatch_shell_msg` does, the counter grows by the number of execute
/// requests in the run; by the run's length where all of them are.
pub proof fn lemma_counter_over_run(counts: Seq<int>, types: Seq<Seq<char>>)
    requires
        counts.len() == types.len() + 1,
        forall|i: int| 0 <= i < types.len() ==> counts[i + 1] == next_exec_count(counts[i], #[trigger] types[i]),
    ensures
        counts.last() == counts[0] + execute_requests(types),
        (forall|i: int| 0 <= i < types.len() ==> request_kind(#[trigger] types[i]) == RequestKind::Execute)
            ==> counts.last() == counts[0] + types.len(),
    decreases types.len(),
{
    if types.len() > 0 {
        let c = counts.drop_last();
        let t = types.drop_last();
        assert forall|i: int| 0 <= i < t.len() implies c[i + 1] == next_exec_count(c[i], #[trigger] t[i]) by {
            assert(types[i] == t[i]);
        }
        lemma_counter_over_run(c, t);
        assert(counts.last() == next_exec_count(counts[types.len() - 1], types.last()));
    }
    lemma_all_execute(types);
}

proof fn lemma_all_execute(types: Seq<Seq<char>>)
    ensures
        (forall|i: int| 0 <= i < types.len() ==> request_kind(#[trigger] types[i]) == RequestKind::Execute)
            ==> execute_requests(types) == types.len(),
    decreases types.len(),
{
    if types.len() > 0 {
        let t = types.drop_last();
        if forall|i: int| 0 <= i < types.len() ==> request_kind(#[trigger] types[i]) == RequestKind::Execute {
            assert forall|i: int| 0 <= i < t.len() implies request_kind(#[trigger] t[i]) == RequestKind::Execute by {
                assert(types[i] == t[i]);
            }
            assert(request_kind(types[types.len() - 1]) == RequestKind::Execute);
        }
        lemma_all_execute(t);
    }
}

/// The status messages among `out`, in order, as content and parent header.
pub open spec fn statuses(out: Seq<Outgoing>) -> Seq<(Seq<u8>, Option<HeaderModel>)>
    decreases out.len(),
{
    if out.len() == 0 {
        Seq::empty()
    } else {
        statuses(out.drop_last()) + if out.last().msg@.header.msg_type == "status"@ {
            seq![(out.last().msg@.content, out.last().msg@.parent_header)]
        } else {
            Seq::empty()
        }
    }
}

/// The messages of a run of calls, one call after the other.
pub open spec fn run_messages(outs: Seq<Seq<Outgoing>>) -> Seq<Outgoing>
    decreases outs.len(),
{
    if outs.len() == 0 {
        Seq::empty()
    } else {
        run_messages(outs.drop_last()) + outs.last()
    }
}

/// A busy then an idle status for each request, in the order of the requests.
pub open spec fn status_pairs(requests: Seq<MessageModel>) -> Seq<(Seq<u8>, Option<HeaderModel>)>
    decreases requests.len(),
{
    if requests.len() == 0 {
        Seq::empty()
    } else {
        status_pairs(requests.drop_last()) + seq![
            (status_text("busy"@), Some(requests.last().header)),
            (status_text("idle"@), Some(requests.last().header)),
        ]
    }
}

proof fn lemma_statuses_append(a: Seq<Outgoing>, b: Seq<Outgoing>)
    ensures
        statuses(a + b) == statuses(a) + statuses(b),
    decreases b.len(),
{
    if b.len() == 0 {
        assert(a + b == a);
    } else {
        assert((a + b).drop_last() == a + b.drop_last());
        lemma_statuses_append(a, b.drop_last());
    }
}

proof fn lemma_statuses_none(out: Seq<Outgoing>)
    requires
        forall|i: int| 0 <= i < out.len() ==> (#[trigger] out[i]).msg@.header.msg_type != "status"@,
    ensures
        statuses(out) == Seq::<(Seq<u8>, Option<HeaderModel>)>::empty(),
    decreases out.len(),
{
    if out.len() > 0 {
        let t = out.drop_last();
        assert forall|i: int| 0 <= i < t.len() implies (#[trigger] t[i]).msg@.header.msg_type != "status"@ by {
            assert(out[i] == t[i]);
        }
        lemma_statuses_none(t);
        assert(out[out.len() - 1].msg@.header.msg_type != "status"@);
    }
}

proof fn lemma_statuses_one_call(out: Seq<Outgoing>, request: MessageModel, count: int, stack: Seq<i32>)
    requires
        bracketed(out, request, handler_plan(request, count, stack)),
    ensures
        statuses(out) == seq![
            (status_text("busy"@), Some(request.header)),
            (status_text("idle"@), Some(request.header)),
        ],
{
    lemma_status_bracketing(out, request, count, stack);
    let mid = out.subrange(1, out.len() - 1);
    assert forall|i: int| 0 <= i < mid.len() implies (#[trigger] mid[i]).msg@.header.msg_type != "status"@ by {
        assert(mid[i] == out[i + 1]);
    }
    lemma_statuses_none(mid);
    let first = out.subrange(0, 1);
    let last = out.subrange(out.len() - 1, out.len() as int);
    assert(out == first + mid + last);
    lemma_statuses_append(first + mid, last);
    lemma_statuses_append(first, mid);
    assert(first.drop_last() == Seq::<Outgoing>::empty());
    assert(last.drop_last() == Seq::<Outgoing>::empty());
    assert(statuses(Seq::<Outgoing>::empty()) == Seq::<(Seq<u8>, Option<HeaderModel>)>::empty());
    assert(statuses(first) =~= seq![(status_text("busy"@), Some(request.header))]);
    assert(statuses(last) =~= seq![(status_text("idle"@), Some(request.header))]);
}

/// Over a run of calls, each bracketed as `dispatch_shell_msg` ensures, the
/// status messages sent are exactly a busy and then an idle status for each
/// request in turn: no busy status is left open or interleaved with another.
pub proof fn lemma_status_pairs_over_run(
    outs: Seq<Seq<Outgoing>>,
    requests: Seq<MessageModel>,
    counts: Seq<int>,
    stacks: Seq<Seq<i32>>,
)
    requires
        outs.len() == requests.len(),
        counts.len() == requests.len(),
        stacks.len() == requests.len(),
        forall|i: int| 0 <= i < outs.len() ==> bracketed(#[trigger] outs[i], requests[i], handler_plan(requests[i], counts[i], stacks[i])),
    ensures
        statuses(run_messages(outs)) == status_pairs(requests),
    decreases outs.len(),
{
    if outs.len() > 0 {
        let n = outs.len() - 1;
        let o = outs.drop_last();
        let r = requests.drop_last();
        let c = counts.drop_last();
        let st = stacks.drop_last();
        assert forall|i: int| 0 <= i < o.len() implies bracketed(#[trigger] o[i], r[i], handler_plan(r[i], c[i], st[i])) by {
            assert(o[i] == outs[i] && r[i] == requests[i] && c[i] == counts[i] && st[i] == stacks[i]);
        }
        lemma_status_pairs_over_run(o, r, c, st);
        assert(bracketed(outs[n], requests[n], handler_plan(requests[n], counts[n], stacks[n])));
        lemma_statuses_one_call(outs[n], requests[n], counts[n], stacks[n]);
        lemma_statuses_append(run_messages(o), outs.last());
    }
}

/// The outcome of handling one request: the messages to send, in order, and
/// whether the kernel is to shut down afterwards.
pub struct Dispatch {
    pub outgoing: Vec<Outgoing>,
    pub shutdown: bool,
}

/// Handles one request: a busy status, the handler for its type, an idle
/// status.
pub fn dispatch_shell_msg(msg: &Message, state: &mut KernelState) -> (r: Dispatch)
    requires
        old(state).exec_count < u64::MAX,
    ensures
        r.shutdown == (request_kind(msg@.header.msg_type) == RequestKind::Shutdown),
        final(state).exec_count == next_exec_count(old(state).exec_count as int, msg@.header.msg_type),
        final(state).stack@ == if request_kind(msg@.header.msg_type) == RequestKind::Execute {
            evaluation(msg@, old(state).stack@).0
        } else {
            old(state).stack@
        },
        bracketed(r.outgoing@, msg@, handler_plan(msg@, old(state).exec_count as int, old(state).stack@)),
{
    let ghost plan = handler_plan(msg@, old(state).exec_count as int, old(state).stack@);
    let mut out: Vec<Outgoing> = Vec::new();
    out.push(Outgoing { channel: Channel::Iopub, msg: Message::status("busy", msg) });
    let kind = classify(&msg.header.msg_type);
    let mut shutdown = false;
    let mut replies: Vec<Outgoing> = Vec::new();
    match kind {
        RequestKind::KernelInfo => {
            replies.push(Outgoing { channel: Channel::Shell, msg: kernel_info(msg) });
        },
        RequestKind::Execute => {
            replies = execute(msg, state);
        },
        RequestKind::Shutdown => {
            shutdown = true;
        },
        RequestKind::Other => {},
    }
    assert(follows_plan(replies@, msg@, plan));
    out.append(&mut replies);
    out.push(Outgoing { channel: Channel::Iopub, msg: Message::status("idle", msg) });
    assert forall|i: int| 0 <= i < plan.len() implies #[trigger] out@.subrange(1, out@.len() - 1)[i] == out@[i + 1] by {}
    Dispatch { outgoing: out, shutdown }
}

} // verus!
