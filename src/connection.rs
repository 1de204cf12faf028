//! The decisions of the connection engine: how long to keep trying to reach
//! the server at startup, and where the background reader sends each
//! message it decodes. The socket, the thread and the channel that carry them
//! out live with the program that owns the connection.

use vstd::prelude::*;
use crate::protocol::{Response, ResponseView};

verus! {

/// How the startup loop tries to reach the server: the number of attempts it
/// makes, and the pause between two of them.
#[derive(Debug, Clone, Copy, PartialEq, Eq, Structural)]
pub struct RetryPolicy {
    pub max_attempts: u32,
    pub backoff_ms: u64,
}

impl RetryPolicy {
    /// Ten attempts, one second apart.
    pub fn standard() -> (r: RetryPolicy)
        ensures
            r.max_attempts == 10,
            r.backoff_ms == 1000,
    {
        RetryPolicy { max_attempts: 10, backoff_ms: 1000 }
    }
}

/// What the startup loop does after a failed attempt.
#[derive(Debug, Clone, Copy, PartialEq, Eq, Structural)]
pub enum ConnectStep {
    /// Pause for the policy's backoff, then try again.
    Retry,
    /// The attempts are spent: startup has failed.
    GiveUp,
}

/// The state of the startup loop: how many attempts have failed so far.
#[derive(Debug, Clone, Copy, PartialEq, Eq, Structural)]
pub struct Startup {
    pub policy: RetryPolicy,
    pub failures: u32,
}

impl Startup {
    /// A startup loop that has made no attempt yet.
    pub fn new(policy: RetryPolicy) -> (r: Startup)
        ensures
            r.policy == policy,
            r.failures == 0,
    {
        Startup { policy, failures: 0 }
    }

    /// Whether the loop is still allowed to make an attempt.
    pub open spec fn may_attempt(self) -> bool {
        self.failures < self.policy.max_attempts
    }

    /// Records a failed attempt and decides what comes next: another attempt
    /// while fewer than `max_attempts` have failed, else giving up.
    pub fn on_failure(&mut self) -> (r: ConnectStep)
        requires
            old(self).may_attempt(),
        ensures
            final(self).policy == old(self).policy,
            final(self).failures == old(self).failures + 1,
            r == (if final(self).may_attempt() { ConnectStep::Retry } else { ConnectStep::GiveUp }),
    {
        self.failures = self.failures + 1;
        if self.failures < self.policy.max_attempts {
            ConnectStep::Retry
        } else {
            ConnectStep::GiveUp
        }
    }
}

/// Where the background reader sends a decoded message.
#[derive(Debug, Clone)]
pub enum Routed {
    /// A reply, handed to the foreground caller in arrival order.
    Reply(Response),
    /// The device list changed: the reader raises the shared flag and hands
    /// nothing over.
    DevicesUpdated,
}

pub enum RoutedView {
    Reply(ResponseView),
    DevicesUpdated,
}

impl View for Routed {
    type V = RoutedView;

    open spec fn view(&self) -> RoutedView {
        match self {
            Routed::Reply(r) => RoutedView::Reply(r@),
            Routed::DevicesUpdated => RoutedView::DevicesUpdated,
        }
    }
}

/// Whether a message is the device-list-updated notification.
pub open spec fn is_notification(r: ResponseView) -> bool {
    r is DeviceListUpdated
}

/// The reader's decision for one decoded message.
pub open spec fn route_of(r: ResponseView) -> RoutedView {
    if is_notification(r) {
        RoutedView::DevicesUpdated
    } else {
        RoutedView::Reply(r)
    }
}

/// Decides where the reader sends a decoded message: notifications raise the
/// flag, every other message is a reply.
pub fn route(r: Response) -> (out: Routed)
    ensures
        out@ == route_of(r@),
{
    match r {
        Response::DeviceListUpdated => Routed::DevicesUpdated,
        other => Routed::Reply(other),
    }
}

/// The replies that reach the foreground from a stream of messages, in order.
pub open spec fn replies_of(stream: Seq<ResponseView>) -> Seq<ResponseView>
    decreases stream.len(),
{
    if stream.len() == 0 {
        Seq::empty()
    } else {
        match route_of(stream.last()) {
            RoutedView::Reply(r) => replies_of(stream.drop_last()).push(r),
            RoutedView::DevicesUpdated => replies_of(stream.drop_last()),
        }
    }
}

/// Whether a stream of messages raises the devices-updated flag.
pub open spec fn raises_flag(stream: Seq<ResponseView>) -> bool {
    exists|i: int| 0 <= i < stream.len() && route_of(#[trigger] stream[i]) is DevicesUpdated
}

/// Reader routing keeps replies in arrival order and never hands a
/// notification to the foreground: the replies are exactly the stream's
/// non-notification messages, and the flag is raised exactly when the stream
/// holds a notification.
pub proof fn lemma_routing_order(stream: Seq<ResponseView>)
    ensures
        replies_of(stream) == stream.filter(|r: ResponseView| !is_notification(r)),
        forall|i: int| 0 <= i < replies_of(stream).len() ==> !is_notification(#[trigger] replies_of(stream)[i]),
        raises_flag(stream) <==> exists|i: int| 0 <= i < stream.len() && is_notification(#[trigger] stream[i]),
    decreases stream.len(),
{
    let f = |r: ResponseView| !is_notification(r);
    reveal(Seq::filter);
    if raises_flag(stream) {
        let i = choose|i: int| 0 <= i < stream.len() && route_of(#[trigger] stream[i]) is DevicesUpdated;
        assert(is_notification(stream[i]));
    }
    if exists|i: int| 0 <= i < stream.len() && is_notification(#[trigger] stream[i]) {
        let i = choose|i: int| 0 <= i < stream.len() && is_notification(#[trigger] stream[i]);
        assert(route_of(stream[i]) is DevicesUpdated);
    }
    if stream.len() == 0 {
        assert(stream.filter(f) =~= Seq::<ResponseView>::empty());
    } else {
        lemma_routing_order(stream.drop_last());
        let rs = replies_of(stream);
        let prev = replies_of(stream.drop_last());
        assert forall|i: int| 0 <= i < rs.len() implies !is_notification(#[trigger] rs[i]) by {
            if i < prev.len() {
                assert(rs[i] == prev[i]);
            }
        }
    }
}

} // verus!
