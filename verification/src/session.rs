//! The steps of a remote-shell session: opening and authenticating it,
//! and running one command in it.
//!
//! The steps themselves are carried out by the caller. The functions
//! here take the outcomes of the steps carried out so far and say which
//! step comes next, or how the whole has ended.

use crate::host::{HostView, SshHostInfo};
use crate::number::{decimal, u64_to_string};
use crate::probe::join;
use vstd::prelude::*;
use vstd::string::*;

verus! {

/// One step on the wire or on the local machine.
#[derive(Debug, Clone, PartialEq, Eq)]
pub enum Act {
    /// Open a TCP connection to `address`, which is `host:port`.
    OpenTcp { address: String },
    /// Make a session object.
    NewSession,
    /// Shake hands over the connection.
    Handshake,
    /// Tell whether `path` names a credential that exists and can be used.
    CheckIdentity { path: String },
    /// Get hold of the local credential agent.
    OpenAgent,
    /// Connect to the agent.
    ConnectAgent,
    /// Count the identities that the agent holds.
    ListIdentities,
    /// Try to authenticate as `user` with identity number `identity` of
    /// the agent, and tell whether the session is authenticated after it.
    Authenticate { user: String, identity: usize },
    /// Open a channel for a command.
    OpenChannel,
    /// Start `command` in the channel.
    Exec { command: String },
    /// Read what the command prints, to its end.
    ReadOutput,
    /// Wait until the channel is closed.
    WaitClose,
}

/// An `Act` by the characters of its texts.
pub enum ActView {
    OpenTcp { address: Seq<char> },
    NewSession,
    Handshake,
    CheckIdentity { path: Seq<char> },
    OpenAgent,
    ConnectAgent,
    ListIdentities,
    Authenticate { user: Seq<char>, identity: usize },
    OpenChannel,
    Exec { command: Seq<char> },
    ReadOutput,
    WaitClose,
}

impl View for Act {
    type V = ActView;

    open spec fn view(&self) -> ActView {
        match self {
            Act::OpenTcp { address } => ActView::OpenTcp { address: address@ },
            Act::NewSession => ActView::NewSession,
            Act::Handshake => ActView::Handshake,
            Act::CheckIdentity { path } => ActView::CheckIdentity { path: path@ },
            Act::OpenAgent => ActView::OpenAgent,
            Act::ConnectAgent => ActView::ConnectAgent,
            Act::ListIdentities => ActView::ListIdentities,
            Act::Authenticate { user, identity } => ActView::Authenticate {
                user: user@,
                identity: *identity,
            },
            Act::OpenChannel => ActView::OpenChannel,
            Act::Exec { command } => ActView::Exec { command: command@ },
            Act::ReadOutput => ActView::ReadOutput,
            Act::WaitClose => ActView::WaitClose,
        }
    }
}

/// How a step went.
#[derive(Debug, Clone, PartialEq, Eq)]
pub enum Outcome {
    /// The step was carried out and has nothing to tell.
    Done,
    /// The answer of a step that asks a question.
    Answer(bool),
    /// The number that a step counted.
    Count(usize),
    /// The text that a step read.
    Output(String),
    /// The step failed, for this reason.
    Failed(String),
}

/// An `Outcome` by the characters of its texts.
pub enum OutcomeView {
    Done,
    Answer(bool),
    Count(usize),
    Output(Seq<char>),
    Failed(Seq<char>),
}

impl View for Outcome {
    type V = OutcomeView;

    open spec fn view(&self) -> OutcomeView {
        match self {
            Outcome::Done => OutcomeView::Done,
            Outcome::Answer(yes) => OutcomeView::Answer(*yes),
            Outcome::Count(n) => OutcomeView::Count(*n),
            Outcome::Output(text) => OutcomeView::Output(text@),
            Outcome::Failed(reason) => OutcomeView::Failed(reason@),
        }
    }
}

impl DeepView for Outcome {
    type V = OutcomeView;

    open spec fn deep_view(&self) -> OutcomeView {
        self@
    }
}

/// Why a session could not be opened or a command not be run. Each
/// variant names the step that failed and holds what the step reported.
#[derive(Debug, Clone, PartialEq, Eq)]
pub enum RemoteError {
    Connect(String),
    Session(String),
    Handshake(String),
    /// The credential at this path does not exist or cannot be used.
    CredentialMissing(String),
    Agent(String),
    AgentConnect(String),
    AgentList(String),
    /// No identity of the agent was accepted.
    AuthFailed,
    Channel(String),
    Exec(String),
    Read(String),
    WaitClose(String),
}

/// A `RemoteError` by the characters of its texts.
pub enum RemoteErrorView {
    Connect(Seq<char>),
    Session(Seq<char>),
    Handshake(Seq<char>),
    CredentialMissing(Seq<char>),
    Agent(Seq<char>),
    AgentConnect(Seq<char>),
    AgentList(Seq<char>),
    AuthFailed,
    Channel(Seq<char>),
    Exec(Seq<char>),
    Read(Seq<char>),
    WaitClose(Seq<char>),
}

impl View for RemoteError {
    type V = RemoteErrorView;

    open spec fn view(&self) -> RemoteErrorView {
        match self {
            RemoteError::Connect(e) => RemoteErrorView::Connect(e@),
            RemoteError::Session(e) => RemoteErrorView::Session(e@),
            RemoteError::Handshake(e) => RemoteErrorView::Handshake(e@),
            RemoteError::CredentialMissing(path) => RemoteErrorView::CredentialMissing(path@),
            RemoteError::Agent(e) => RemoteErrorView::Agent(e@),
            RemoteError::AgentConnect(e) => RemoteErrorView::AgentConnect(e@),
            RemoteError::AgentList(e) => RemoteErrorView::AgentList(e@),
            RemoteError::AuthFailed => RemoteErrorView::AuthFailed,
            RemoteError::Channel(e) => RemoteErrorView::Channel(e@),
            RemoteError::Exec(e) => RemoteErrorView::Exec(e@),
            RemoteError::Read(e) => RemoteErrorView::Read(e@),
            RemoteError::WaitClose(e) => RemoteErrorView::WaitClose(e@),
        }
    }
}

/// The message of an error: the failed step, then what it reported.
pub open spec fn error_text(e: RemoteErrorView) -> Seq<char> {
    match e {
        RemoteErrorView::Connect(e) => "TCP error: "@ + e,
        RemoteErrorView::Session(e) => "Session error: "@ + e,
        RemoteErrorView::Handshake(e) => "Handshake error: "@ + e,
        RemoteErrorView::CredentialMissing(path) => "Identity file not found: "@ + path,
        RemoteErrorView::Agent(e) => "Agent error: "@ + e,
        RemoteErrorView::AgentConnect(e) => "Agent connect error: "@ + e,
        RemoteErrorView::AgentList(e) => "Agent list error: "@ + e,
        RemoteErrorView::AuthFailed => "SSH authentication failed"@,
        RemoteErrorView::Channel(e) => "Channel error: "@ + e,
        RemoteErrorView::Exec(e) => "Exec error: "@ + e,
        RemoteErrorView::Read(e) => "Read error: "@ + e,
        RemoteErrorView::WaitClose(e) => "Wait close error: "@ + e,
    }
}

impl RemoteError {
    /// The message of this error.
    pub fn message(&self) -> (r: String)
        ensures
            r@ == error_text(self@),
    {
        match self {
            RemoteError::Connect(e) => join("TCP error: ", e.as_str()),
            RemoteError::Session(e) => join("Session error: ", e.as_str()),
            RemoteError::Handshake(e) => join("Handshake error: ", e.as_str()),
            RemoteError::CredentialMissing(path) => join("Identity file not found: ", path.as_str()),
            RemoteError::Agent(e) => join("Agent error: ", e.as_str()),
            RemoteError::AgentConnect(e) => join("Agent connect error: ", e.as_str()),
            RemoteError::AgentList(e) => join("Agent list error: ", e.as_str()),
            RemoteError::AuthFailed => String::from_str("SSH authentication failed"),
            RemoteError::Channel(e) => join("Channel error: ", e.as_str()),
            RemoteError::Exec(e) => join("Exec error: ", e.as_str()),
            RemoteError::Read(e) => join("Read error: ", e.as_str()),
            RemoteError::WaitClose(e) => join("Wait close error: ", e.as_str()),
        }
    }
}

/// Where a sequence of steps stands.
#[derive(Debug, Clone, PartialEq, Eq)]
pub enum Progress {
    /// The caller carries out this step and adds its outcome to the outcomes.
    Do(Act),
    /// The steps have led to this text.
    Finished(String),
    /// A step has failed; no further step is taken.
    Failed(RemoteError),
}

/// A `Progress` by the views of what it holds.
pub enum ProgressView {
    Do(ActView),
    Finished(Seq<char>),
    Failed(RemoteErrorView),
}

impl View for Progress {
    type V = ProgressView;

    open spec fn view(&self) -> ProgressView {
        match self {
            Progress::Do(act) => ProgressView::Do(act@),
            Progress::Finished(text) => ProgressView::Finished(text@),
            Progress::Failed(e) => ProgressView::Failed(e@),
        }
    }
}

/// `host:port`.
pub open spec fn address_text(host: HostView) -> Seq<char> {
    host.ip + ":"@ + decimal(host.port as nat)
}

/// How many identities the outcome of listing them speaks of.
pub open spec fn identity_count(o: OutcomeView) -> usize {
    match o {
        OutcomeView::Count(n) => n,
        _ => 0,
    }
}

/// The authentication from identity number `k` on. The outcomes of the
/// attempts follow the seven outcomes of the steps before them. The
/// first identity that is accepted ends the steps; an attempt that is
/// refused or fails leads to the next identity, and after the last one
/// the authentication has failed.
pub open spec fn authentication(host: HostView, outcomes: Seq<OutcomeView>, n: usize, k: int)
    -> ProgressView
    decreases n - k,
{
    if k < 0 || k >= n {
        ProgressView::Failed(RemoteErrorView::AuthFailed)
    } else if outcomes.len() <= 7 + k {
        ProgressView::Do(ActView::Authenticate { user: host.user, identity: k as usize })
    } else if outcomes[7 + k] == OutcomeView::Answer(true) {
        ProgressView::Finished(Seq::empty())
    } else {
        authentication(host, outcomes, n, k + 1)
    }
}

/// Where the opening of a session to `host` stands after `outcomes`.
///
/// The steps, in order: TCP connection, session, handshake, check of the
/// host's identity file, agent, connection to the agent, list of its
/// identities, then one attempt for each identity. A failed step ends
/// the whole with the error of that step. The identity file counts as
/// missing unless the check answers yes.
pub open spec fn connection(host: HostView, outcomes: Seq<OutcomeView>) -> ProgressView {
    if outcomes.len() == 0 {
        ProgressView::Do(ActView::OpenTcp { address: address_text(host) })
    } else if outcomes[0] is Failed {
        ProgressView::Failed(RemoteErrorView::Connect(outcomes[0]->Failed_0))
    } else if outcomes.len() == 1 {
        ProgressView::Do(ActView::NewSession)
    } else if outcomes[1] is Failed {
        ProgressView::Failed(RemoteErrorView::Session(outcomes[1]->Failed_0))
    } else if outcomes.len() == 2 {
        ProgressView::Do(ActView::Handshake)
    } else if outcomes[2] is Failed {
        ProgressView::Failed(RemoteErrorView::Handshake(outcomes[2]->Failed_0))
    } else if outcomes.len() == 3 {
        ProgressView::Do(ActView::CheckIdentity { path: host.identity_file })
    } else if outcomes[3] != OutcomeView::Answer(true) {
        ProgressView::Failed(RemoteErrorView::CredentialMissing(host.identity_file))
    } else if outcomes.len() == 4 {
        ProgressView::Do(ActView::OpenAgent)
    } else if outcomes[4] is Failed {
        ProgressView::Failed(RemoteErrorView::Agent(outcomes[4]->Failed_0))
    } else if outcomes.len() == 5 {
        ProgressView::Do(ActView::ConnectAgent)
    } else if outcomes[5] is Failed {
        ProgressView::Failed(RemoteErrorView::AgentConnect(outcomes[5]->Failed_0))
    } else if outcomes.len() == 6 {
        ProgressView::Do(ActView::ListIdentities)
    } else if outcomes[6] is Failed {
        ProgressView::Failed(RemoteErrorView::AgentList(outcomes[6]->Failed_0))
    } else {
        authentication(host, outcomes, identity_count(outcomes[6]), 0)
    }
}

/// The text that the outcome of reading holds.
pub open spec fn output_text(o: OutcomeView) -> Seq<char> {
    match o {
        OutcomeView::Output(text) => text,
        _ => Seq::empty(),
    }
}

/// Where the run of `command` in an open session stands after `outcomes`.
///
/// The steps, in order: open a channel, start the command, read its
/// output, wait for the channel to close. A failed step ends the whole
/// with the error of that step; else the output that was read is the result.
pub open spec fn execution(command: Seq<char>, outcomes: Seq<OutcomeView>) -> ProgressView {
    if outcomes.len() == 0 {
        ProgressView::Do(ActView::OpenChannel)
    } else if outcomes[0] is Failed {
        ProgressView::Failed(RemoteErrorView::Channel(outcomes[0]->Failed_0))
    } else if outcomes.len() == 1 {
        ProgressView::Do(ActView::Exec { command })
    } else if outcomes[1] is Failed {
        ProgressView::Failed(RemoteErrorView::Exec(outcomes[1]->Failed_0))
    } else if outcomes.len() == 2 {
        ProgressView::Do(ActView::ReadOutput)
    } else if outcomes[2] is Failed {
        ProgressView::Failed(RemoteErrorView::Read(outcomes[2]->Failed_0))
    } else if outcomes.len() == 3 {
        ProgressView::Do(ActView::WaitClose)
    } else if outcomes[3] is Failed {
        ProgressView::Failed(RemoteErrorView::WaitClose(outcomes[3]->Failed_0))
    } else {
        ProgressView::Finished(output_text(outcomes[2]))
    }
}

/// The reason of outcome number `i`, if that step failed.
fn failure_at(outcomes: &Vec<Outcome>, i: usize) -> (r: Option<String>)
    requires
        i < outcomes.len(),
    ensures
        match r {
            Some(reason) => outcomes.deep_view()[i as int] == OutcomeView::Failed(reason@),
            None => !(outcomes.deep_view()[i as int] is Failed),
        },
{
    assert(outcomes.deep_view()[i as int] == outcomes@[i as int]@);
    match &outcomes[i] {
        Outcome::Failed(reason) => Some(reason.clone()),
        _ => None,
    }
}

/// Whether outcome number `i` is the answer yes.
fn is_yes(outcomes: &Vec<Outcome>, i: usize) -> (r: bool)
    requires
        i < outcomes.len(),
    ensures
        r == (outcomes.deep_view()[i as int] == OutcomeView::Answer(true)),
{
    assert(outcomes.deep_view()[i as int] == outcomes@[i as int]@);
    match &outcomes[i] {
        Outcome::Answer(yes) => *yes,
        _ => false,
    }
}

/// Where the opening of a session to `info` stands after `outcomes`.
pub fn connect_ssh_session(info: &SshHostInfo, outcomes: &Vec<Outcome>) -> (r: Progress)
    ensures
        r@ == connection(info@, outcomes.deep_view()),
{
    if outcomes.len() == 0 {
        let mut address = join(info.ip.as_str(), ":");
        address.append(u64_to_string(info.port as u64).as_str());
        return Progress::Do(Act::OpenTcp { address });
    }
    if let Some(e) = failure_at(outcomes, 0) {
        return Progress::Failed(RemoteError::Connect(e));
    }
    if outcomes.len() == 1 {
        return Progress::Do(Act::NewSession);
    }
    if let Some(e) = failure_at(outcomes, 1) {
        return Progress::Failed(RemoteError::Session(e));
    }
    if outcomes.len() == 2 {
        return Progress::Do(Act::Handshake);
    }
    if let Some(e) = failure_at(outcomes, 2) {
        return Progress::Failed(RemoteError::Handshake(e));
    }
    if outcomes.len() == 3 {
        return Progress::Do(Act::CheckIdentity { path: info.identity_file.clone() });
    }
    if !is_yes(outcomes, 3) {
        return Progress::Failed(RemoteError::CredentialMissing(info.identity_file.clone()));
    }
    if outcomes.len() == 4 {
        return Progress::Do(Act::OpenAgent);
    }
    if let Some(e) = failure_at(outcomes, 4) {
        return Progress::Failed(RemoteError::Agent(e));
    }
    if outcomes.len() == 5 {
        return Progress::Do(Act::ConnectAgent);
    }
    if let Some(e) = failure_at(outcomes, 5) {
        return Progress::Failed(RemoteError::AgentConnect(e));
    }
    if outcomes.len() == 6 {
        return Progress::Do(Act::ListIdentities);
    }
    if let Some(e) = failure_at(outcomes, 6) {
        return Progress::Failed(RemoteError::AgentList(e));
    }
    assert(outcomes.deep_view()[6] == outcomes@[6]@);
    let n: usize = match &outcomes[6] {
        Outcome::Count(n) => *n,
        _ => 0,
    };
    let mut k: usize = 0;
    while k < n
        invariant
            k <= n,
            outcomes.len() >= 7,
            connection(info@, outcomes.deep_view()) == authentication(
                info@,
                outcomes.deep_view(),
                n,
                0,
            ),
            authentication(info@, outcomes.deep_view(), n, k as int) == authentication(
                info@,
                outcomes.deep_view(),
                n,
                0,
            ),
        decreases n - k,
    {
        if outcomes.len() - 7 <= k {
            return Progress::Do(Act::Authenticate { user: info.user.clone(), identity: k });
        }
        if is_yes(outcomes, 7 + k) {
            return Progress::Finished(String::new());
        }
        k += 1;
    }
    Progress::Failed(RemoteError::AuthFailed)
}

/// Where the run of `command` stands after `outcomes`.
pub fn run_command(command: &str, outcomes: &Vec<Outcome>) -> (r: Progress)
    ensures
        r@ == execution(command@, outcomes.deep_view()),
{
    if outcomes.len() == 0 {
        return Progress::Do(Act::OpenChannel);
    }
    if let Some(e) = failure_at(outcomes, 0) {
        return Progress::Failed(RemoteError::Channel(e));
    }
    if outcomes.len() == 1 {
        return Progress::Do(Act::Exec { command: String::from_str(command) });
    }
    if let Some(e) = failure_at(outcomes, 1) {
        return Progress::Failed(RemoteError::Exec(e));
    }
    if outcomes.len() == 2 {
        return Progress::Do(Act::ReadOutput);
    }
    if let Some(e) = failure_at(outcomes, 2) {
        return Progress::Failed(RemoteError::Read(e));
    }
    if outcomes.len() == 3 {
        return Progress::Do(Act::WaitClose);
    }
    if let Some(e) = failure_at(outcomes, 3) {
        return Progress::Failed(RemoteError::WaitClose(e));
    }
    assert(outcomes.deep_view()[2] == outcomes@[2]@);
    match &outcomes[2] {
        Outcome::Output(text) => Progress::Finished(text.clone()),
        _ => Progress::Finished(String::new()),
    }
}

} // verus!
