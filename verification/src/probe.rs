//! The shape every collector shares: a collector never talks to a host. It
//! is a function of the replies received so far, and says either what to
//! ask the host next or what the collection has come to.

use vstd::prelude::*;
use vstd::string::*;

verus! {

/// What a collector asks its caller to do next.
#[derive(Debug, Clone, PartialEq, Eq)]
pub enum Request {
    /// Open an authenticated session to the host.
    Connect,
    /// Run this command line on the host and hand back what it printed.
    Run(String),
    /// Write `part / whole` as a percentage with one decimal and without
    /// a sign: a floating-point literal. `whole` is never 0.
    Percent { part: u64, whole: u64 },
}

/// A `Request` with its text as a sequence of characters.
pub enum RequestView {
    Connect,
    Run(Seq<char>),
    Percent { part: u64, whole: u64 },
}

impl View for Request {
    type V = RequestView;

    open spec fn view(&self) -> RequestView {
        match self {
            Request::Connect => RequestView::Connect,
            Request::Run(command) => RequestView::Run(command@),
            Request::Percent { part, whole } => RequestView::Percent { part: *part, whole: *whole },
        }
    }
}

/// Where a collection stands after the replies it was given.
#[derive(Debug, Clone, PartialEq, Eq)]
pub enum Step<T> {
    /// The caller performs the request and adds its reply to the replies.
    Need(Request),
    /// The collection is over with this result; further replies change nothing.
    Done(T),
}

/// A `Step` by the views of what it holds.
pub enum StepView<V> {
    Need(RequestView),
    Done(V),
}

impl<T: View> View for Step<T> {
    type V = StepView<T::V>;

    open spec fn view(&self) -> StepView<T::V> {
        match self {
            Step::Need(request) => StepView::Need(request@),
            Step::Done(value) => StepView::Done(value@),
        }
    }
}

/// The state of one metric of one host, by the view of its value.
pub enum MetricState<T> {
    /// An attempt has started and has not come to an end.
    Loading,
    /// The last attempt gave this value.
    Success(T),
    /// The last attempt failed for this reason.
    Failure(Seq<char>),
}

impl<T> MetricState<T> {
    /// Whether the state is one that an attempt ends in.
    pub open spec fn is_terminal(self) -> bool {
        !(self is Loading)
    }
}

/// The answer to a request: what the host printed, or why the request failed.
pub type Reply = Result<String, String>;

/// A reply as sequences of characters.
pub type ReplyView = Result<Seq<char>, Seq<char>>;

pub open spec fn reply_view(reply: Reply) -> ReplyView {
    match reply {
        Ok(text) => Ok(text@),
        Err(reason) => Err(reason@),
    }
}

/// The replies received so far, in order, as sequences of characters.
pub open spec fn transcript(replies: Seq<Reply>) -> Seq<ReplyView> {
    Seq::new(replies.len(), |i: int| reply_view(replies[i]))
}

/// `a` followed by `b`.
pub fn join(a: &str, b: &str) -> (r: String)
    ensures
        r@ == a@ + b@,
{
    String::from_str(a).concat(b)
}

} // verus!
