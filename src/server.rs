use vstd::prelude::*;
use vstd::string::StringSliceAdditionalSpecFns;
use crate::bytes::frames_view;
use crate::codec::{decoded, encode_msg, encoded, parse_msg, CodecError};
use crate::kernel::{evaluation, next_exec_count, request_kind, RequestKind, bracketed, dispatch_shell_msg, handler_plan, Channel, KernelState, Outgoing};

verus! {

/// The channels that bring input to the loop.
#[derive(Debug, Clone, Copy, PartialEq, Eq, Structural)]
pub enum Input {
    Shell,
    Control,
    Heartbeat,
}

/// The ready input channels in the order the loop serves them: Shell,
/// then Control, then Heartbeat.
pub open spec fn serve_order(shell: bool, control: bool, heartbeat: bool) -> Seq<Input> {
    (if shell { seq![Input::Shell] } else { Seq::empty() })
        + (if control { seq![Input::Control] } else { Seq::empty() })
        + (if heartbeat { seq![Input::Heartbeat] } else { Seq::empty() })
}

/// Which ready channels to serve in this round, one message each, in order.
pub fn ready_order(shell: bool, control: bool, heartbeat: bool) -> (r: Vec<Input>)
    ensures
        r@ == serve_order(shell, control, heartbeat),
{
    let mut r: Vec<Input> = Vec::new();
    if shell {
        r.push(Input::Shell);
    }
    if control {
        r.push(Input::Control);
    }
    if heartbeat {
        r.push(Input::Heartbeat);
    }
    assert(r@ =~= serve_order(shell, control, heartbeat));
    r
}

/// Frames to send on a channel.
pub struct Send {
    pub channel: Channel,
    pub frames: Vec<Vec<u8>>,
}

/// What the server loop does with one received frame sequence.
pub struct Step {
    pub sends: Vec<Send>,
    pub shutdown: bool,
    /// Why the frames were dropped, if they were.
    pub rejected: Option<CodecError>,
}

/// Where a message meant for `channel` goes when the request came in on
/// `from`: Shell replies go back on the request's own channel.
pub open spec fn route(channel: Channel, from: Channel) -> Channel {
    if channel == Channel::Shell { from } else { channel }
}

/// `sends` carries the messages of `out`, encoded under `key`, in order.
pub open spec fn sends_encode(sends: Seq<Send>, out: Seq<Outgoing>, from: Channel, key: Seq<u8>) -> bool {
    &&& sends.len() == out.len()
    &&& forall|i: int| 0 <= i < sends.len() ==> {
        &&& (#[trigger] sends[i]).channel == route(out[i].channel, from)
        &&& frames_view(sends[i].frames@) == encoded(out[i].msg@, key)
    }
}

/// The messages of `out`, each encoded under `key` and routed.
fn encode_all(out: &Vec<Outgoing>, from: Channel, key: &str) -> (r: Vec<Send>)
    ensures
        sends_encode(r@, out@, from, key.spec_bytes()),
{
    let mut sends: Vec<Send> = Vec::new();
    let mut i: usize = 0;
    while i < out.len()
        invariant
            i <= out@.len(),
            sends@.len() == i,
            forall|j: int| 0 <= j < i ==> {
                &&& (#[trigger] sends@[j]).channel == route(out@[j].channel, from)
                &&& frames_view(sends@[j].frames@) == encoded(out@[j].msg@, key.spec_bytes())
            },
        decreases out@.len() - i,
    {
        let o = &out[i];
        let channel = if o.channel == Channel::Shell { from } else { o.channel };
        sends.push(Send { channel, frames: encode_msg(&o.msg, key) });
        i = i + 1;
    }
    sends
}

/// Handles frames received on `from`: drops them, sending nothing and
/// changing nothing, when they do not decode or authenticate; else handles
/// the request and returns every message that answers it, encoded.
pub fn handle_frames(frames: Vec<Vec<u8>>, from: Channel, key: &str, state: &mut KernelState) -> (r: Step)
    requires
        old(state).exec_count < u64::MAX,
    ensures
        match decoded(frames_view(frames@), key.spec_bytes()) {
            Err(e) => {
                &&& r.rejected == Some(e)
                &&& r.sends@.len() == 0
                &&& !r.shutdown
                &&& final(state).exec_count == old(state).exec_count
                &&& final(state).stack@ == old(state).stack@
            },
            Ok(m) => {
                &&& r.rejected.is_none()
                &&& r.shutdown == (request_kind(m.header.msg_type) == RequestKind::Shutdown)
                &&& final(state).exec_count == next_exec_count(old(state).exec_count as int, m.header.msg_type)
                &&& final(state).stack@ == if request_kind(m.header.msg_type) == RequestKind::Execute {
                    evaluation(m, old(state).stack@).0
                } else {
                    old(state).stack@
                }
                &&& exists|out: Seq<Outgoing>| {
                    &&& bracketed(out, m, handler_plan(m, old(state).exec_count as int, old(state).stack@))
                    &&& #[trigger] sends_encode(r.sends@, out, from, key.spec_bytes())
                }
            },
        },
{
    let msg = match parse_msg(frames, key) {
        Ok(m) => m,
        Err(e) => {
            return Step { sends: Vec::new(), shutdown: false, rejected: Some(e) };
        },
    };
    let d = dispatch_shell_msg(&msg, state);
    let sends = encode_all(&d.outgoing, from, key);
    let ghost out = d.outgoing@;
    let r = Step { sends, shutdown: d.shutdown, rejected: None };
    assert(sends_encode(r.sends@, out, from, key.spec_bytes()));
    assert(bracketed(out, msg@, handler_plan(msg@, old(state).exec_count as int, old(state).stack@)));
    r
}

} // verus!
