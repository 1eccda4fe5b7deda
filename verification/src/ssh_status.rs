//! Whether a host can be reached and lets us in.

use crate::probe::{transcript, MetricState, Reply, ReplyView, Request, RequestView, Step, StepView};
use vstd::prelude::*;
use vstd::string::*;

verus! {

/// Reachability of a host.
#[derive(Debug, Clone, PartialEq, Eq)]
pub enum SshStatus {
    Connected,
    Failed(String),
    Loading,
}

impl View for SshStatus {
    type V = MetricState<()>;

    open spec fn view(&self) -> MetricState<()> {
        match self {
            SshStatus::Connected => MetricState::Success(()),
            SshStatus::Failed(reason) => MetricState::Failure(reason@),
            SshStatus::Loading => MetricState::Loading,
        }
    }
}

/// The connectivity check after `replies`: it asks for a session, and the
/// reply decides.
pub open spec fn connection_probe(replies: Seq<ReplyView>) -> StepView<MetricState<()>> {
    if replies.len() == 0 {
        StepView::Need(RequestView::Connect)
    } else {
        match replies[0] {
            Ok(_) => StepView::Done(MetricState::Success(())),
            Err(reason) => StepView::Done(MetricState::Failure(reason)),
        }
    }
}

/// Where the connectivity check stands after `replies`.
pub fn verify_connection(replies: &Vec<Reply>) -> (r: Step<SshStatus>)
    ensures
        r@ == connection_probe(transcript(replies@)),
{
    if replies.len() == 0 {
        return Step::Need(Request::Connect);
    }
    match &replies[0] {
        Ok(_) => Step::Done(SshStatus::Connected),
        Err(reason) => Step::Done(SshStatus::Failed(reason.clone())),
    }
}

} // verus!
