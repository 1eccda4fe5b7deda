use fleetwatch::host::SshHostInfo;
use fleetwatch::session::{connect_ssh_session, run_command, Act, Outcome, Progress, RemoteError};
use fleetwatch::ssh_status::{verify_connection, SshStatus};
use fleetwatch::probe::Step;

fn host(identity_file: &str) -> SshHostInfo {
    SshHostInfo {
        id: "test".to_string(),
        name: "rebex_test".to_string(),
        ip: "test.rebex.net".to_string(),
        port: 22,
        user: "demo".to_string(),
        identity_file: identity_file.to_string(),
    }
}

fn failed(reason: &str) -> Outcome {
    Outcome::Failed(reason.to_string())
}

fn up_to_list(identities: usize) -> Vec<Outcome> {
    vec![
        Outcome::Done,
        Outcome::Done,
        Outcome::Done,
        Outcome::Answer(true),
        Outcome::Done,
        Outcome::Done,
        Outcome::Count(identities),
    ]
}

#[test]
fn session_is_opened_step_by_step() {
    let h = host("/home/demo/.ssh/id");
    let mut done: Vec<Outcome> = vec![];
    let expected = [
        Act::OpenTcp { address: "test.rebex.net:22".to_string() },
        Act::NewSession,
        Act::Handshake,
        Act::CheckIdentity { path: "/home/demo/.ssh/id".to_string() },
        Act::OpenAgent,
        Act::ConnectAgent,
        Act::ListIdentities,
        Act::Authenticate { user: "demo".to_string(), identity: 0 },
    ];
    let outcomes = up_to_list(1);
    for (i, act) in expected.iter().enumerate() {
        assert_eq!(connect_ssh_session(&h, &done), Progress::Do(act.clone()));
        if i < outcomes.len() {
            done.push(outcomes[i].clone());
        }
    }
    done.push(Outcome::Answer(true));
    assert_eq!(connect_ssh_session(&h, &done), Progress::Finished(String::new()));
}

#[test]
fn each_step_fails_with_its_own_error() {
    let h = host("/k");
    let good = up_to_list(0);
    let errors = [
        RemoteError::Connect("e".to_string()),
        RemoteError::Session("e".to_string()),
        RemoteError::Handshake("e".to_string()),
        RemoteError::CredentialMissing("/k".to_string()),
        RemoteError::Agent("e".to_string()),
        RemoteError::AgentConnect("e".to_string()),
        RemoteError::AgentList("e".to_string()),
    ];
    let messages = [
        "TCP error: e",
        "Session error: e",
        "Handshake error: e",
        "Identity file not found: /k",
        "Agent error: e",
        "Agent connect error: e",
        "Agent list error: e",
    ];
    for i in 0..7 {
        let mut done: Vec<Outcome> = good[..i].to_vec();
        done.push(failed("e"));
        done.push(Outcome::Done);
        assert_eq!(connect_ssh_session(&h, &done), Progress::Failed(errors[i].clone()), "step {}", i);
        assert_eq!(errors[i].message(), messages[i]);
    }
    assert_eq!(RemoteError::AuthFailed.message(), "SSH authentication failed");
    assert_eq!(RemoteError::Channel("c".to_string()).message(), "Channel error: c");
    assert_eq!(RemoteError::Exec("c".to_string()).message(), "Exec error: c");
    assert_eq!(RemoteError::Read("c".to_string()).message(), "Read error: c");
    assert_eq!(RemoteError::WaitClose("c".to_string()).message(), "Wait close error: c");
}

#[test]
fn missing_credential_is_a_failure_that_says_not_found() {
    let h = SshHostInfo {
        id: "h2".to_string(),
        name: "h2".to_string(),
        ip: "10.0.0.6".to_string(),
        port: 22,
        user: "demo".to_string(),
        identity_file: "/dev/null".to_string(),
    };
    let done = vec![Outcome::Done, Outcome::Done, Outcome::Done, Outcome::Answer(false)];
    let error = match connect_ssh_session(&h, &done) {
        Progress::Failed(error) => error,
        other => panic!("expected a failure, got {:?}", other),
    };
    assert_eq!(error, RemoteError::CredentialMissing("/dev/null".to_string()));
    assert!(error.message().contains("not found"));
    match verify_connection(&vec![Err(error.message())]) {
        Step::Done(SshStatus::Failed(reason)) => assert!(reason.contains("not found")),
        other => panic!("expected a failed status, got {:?}", other),
    }
}

#[test]
fn credential_counts_as_missing_unless_the_answer_is_yes() {
    let h = host("/k");
    for answer in [Outcome::Answer(false), Outcome::Done, Outcome::Count(1), failed("io")] {
        let done = vec![Outcome::Done, Outcome::Done, Outcome::Done, answer];
        assert_eq!(
            connect_ssh_session(&h, &done),
            Progress::Failed(RemoteError::CredentialMissing("/k".to_string()))
        );
    }
}

#[test]
fn identities_are_tried_in_order_until_one_is_accepted() {
    let h = host("/k");
    let mut done = up_to_list(3);
    assert_eq!(
        connect_ssh_session(&h, &done),
        Progress::Do(Act::Authenticate { user: "demo".to_string(), identity: 0 })
    );
    done.push(Outcome::Answer(false));
    assert_eq!(
        connect_ssh_session(&h, &done),
        Progress::Do(Act::Authenticate { user: "demo".to_string(), identity: 1 })
    );
    done.push(failed("refused"));
    assert_eq!(
        connect_ssh_session(&h, &done),
        Progress::Do(Act::Authenticate { user: "demo".to_string(), identity: 2 })
    );
    let mut accepted = done.clone();
    accepted.push(Outcome::Answer(true));
    assert_eq!(connect_ssh_session(&h, &accepted), Progress::Finished(String::new()));
    done.push(Outcome::Answer(false));
    assert_eq!(connect_ssh_session(&h, &done), Progress::Failed(RemoteError::AuthFailed));
    done.push(Outcome::Answer(true));
    assert_eq!(connect_ssh_session(&h, &done), Progress::Failed(RemoteError::AuthFailed));
}

#[test]
fn first_accepted_identity_ends_the_attempts() {
    let h = host("/k");
    let mut done = up_to_list(3);
    done.push(Outcome::Answer(true));
    done.push(Outcome::Answer(false));
    assert_eq!(connect_ssh_session(&h, &done), Progress::Finished(String::new()));
}

#[test]
fn agent_without_identities_cannot_authenticate() {
    let h = host("/k");
    assert_eq!(connect_ssh_session(&h, &up_to_list(0)), Progress::Failed(RemoteError::AuthFailed));
    let mut odd = up_to_list(0);
    odd[6] = Outcome::Done;
    assert_eq!(connect_ssh_session(&h, &odd), Progress::Failed(RemoteError::AuthFailed));
}

#[test]
fn test_connection_to_public_ssh_should_fail() {
    let info = host("/dev/null");
    let done = vec![Outcome::Done, Outcome::Done, Outcome::Done, Outcome::Answer(false)];
    let status = match connect_ssh_session(&info, &done) {
        Progress::Failed(error) => verify_connection(&vec![Err(error.message())]),
        Progress::Finished(text) => verify_connection(&vec![Ok(text)]),
        Progress::Do(act) => panic!("not over: {:?}", act),
    };
    assert!(matches!(status, Step::Done(SshStatus::Failed(_))), "Expected failure, got: {:?}", status);
}

#[test]
fn command_is_run_step_by_step() {
    let mut done: Vec<Outcome> = vec![];
    assert_eq!(run_command("uname -s", &done), Progress::Do(Act::OpenChannel));
    done.push(Outcome::Done);
    assert_eq!(
        run_command("uname -s", &done),
        Progress::Do(Act::Exec { command: "uname -s".to_string() })
    );
    done.push(Outcome::Done);
    assert_eq!(run_command("uname -s", &done), Progress::Do(Act::ReadOutput));
    done.push(Outcome::Output("Linux\n".to_string()));
    assert_eq!(run_command("uname -s", &done), Progress::Do(Act::WaitClose));
    done.push(Outcome::Done);
    assert_eq!(run_command("uname -s", &done), Progress::Finished("Linux\n".to_string()));
}

#[test]
fn command_fails_at_the_step_that_failed() {
    let steps = [
        RemoteError::Channel("e".to_string()),
        RemoteError::Exec("e".to_string()),
        RemoteError::Read("e".to_string()),
        RemoteError::WaitClose("e".to_string()),
    ];
    let good = [Outcome::Done, Outcome::Done, Outcome::Output("out".to_string()), Outcome::Done];
    for i in 0..4 {
        let mut done: Vec<Outcome> = good[..i].to_vec();
        done.push(failed("e"));
        assert_eq!(run_command("ls", &done), Progress::Failed(steps[i].clone()));
    }
    let silent = vec![Outcome::Done, Outcome::Done, Outcome::Done, Outcome::Done];
    assert_eq!(run_command("ls", &silent), Progress::Finished(String::new()));
}
