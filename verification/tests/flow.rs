use kube_ssm::aws::{Instance, Reservation};
use kube_ssm::error::{Error, ErrorKind};
use kube_ssm::flow::{start, step, FlowAction, FlowEvent, FlowState};
use kube_ssm::kube::{AuthInfo, Config, ExecConfig, ExecEnvVar, Kubeconfig, NamedContext, Node};
use kube_ssm::session::{ProcessOutcome, SessionCommand, SessionTarget};

fn kubeconfig() -> Kubeconfig {
    Kubeconfig {
        contexts: vec![
            NamedContext { name: "prod".to_string() },
            NamedContext { name: "staging".to_string() },
        ],
        current_context: None,
    }
}

fn config(url: &str) -> Config {
    Config {
        cluster_url: url.to_string(),
        auth_info: AuthInfo {
            exec_plugin: Some(ExecConfig {
                env: Some(vec![ExecEnvVar {
                    name: Some("AWS_PROFILE".to_string()),
                    value: Some("staging-admin".to_string()),
                }]),
            }),
        },
    }
}

fn reservations() -> Vec<Reservation> {
    vec![Reservation {
        instances: vec![Instance {
            instance_id: Some("i-0abc123".to_string()),
            private_dns_name: Some("ip-10-0-1-5.ec2.internal".to_string()),
        }],
    }]
}

fn target() -> SessionTarget {
    SessionTarget {
        instance_id: "i-0abc123".to_string(),
        region: "us-west-2".to_string(),
        profile: "staging-admin".to_string(),
    }
}

fn all_events() -> Vec<FlowEvent> {
    vec![
        FlowEvent::ContextInput { kubeconfig: kubeconfig(), line: "staging".to_string() },
        FlowEvent::NodesListed { config: config("a.us-west-2.b"), nodes: Vec::new() },
        FlowEvent::Proceed,
        FlowEvent::NodeInput { line: "ip-10-0-1-5.ec2.internal".to_string() },
        FlowEvent::InstancesListed { reservations: reservations() },
        FlowEvent::SessionEnded {
            outcome: ProcessOutcome::Ended { success: true, status: "exit status: 0".to_string() },
        },
        FlowEvent::Failed { error: Error::NodeListing { reason: "down".to_string() } },
    ]
}

fn waiting_states() -> Vec<FlowState> {
    vec![
        FlowState::SelectContext,
        FlowState::ListNodes,
        FlowState::ExtractCredentials { config: config("a.us-west-2.b"), nodes: Vec::new() },
        FlowState::SelectNode { profile: "p".to_string(), region: "us-west-2".to_string() },
        FlowState::ResolveInstance {
            node: "ip-10-0-1-5.ec2.internal".to_string(),
            profile: "p".to_string(),
            region: "us-west-2".to_string(),
        },
        FlowState::LaunchSession { target: target() },
    ]
}

#[test]
fn a_run_starts_by_prompting_for_a_context() {
    assert_eq!(start(), (FlowState::SelectContext, FlowAction::PromptContext));
}

#[test]
fn a_whole_run_ends_done() {
    let (state, action) = start();
    assert_eq!(action, FlowAction::PromptContext);

    let (state, action) = step(
        state,
        FlowEvent::ContextInput { kubeconfig: kubeconfig(), line: "staging\n".to_string() },
    );
    assert_eq!(state, FlowState::ListNodes);
    let mut chosen = kubeconfig();
    chosen.current_context = Some("staging".to_string());
    assert_eq!(action, FlowAction::ListNodes { kubeconfig: chosen });

    let endpoint = "https://0123456789ABCDEF.gr7.us-west-2.eks.amazonaws.com";
    let nodes = vec![
        Node { name: Some("ip-10-0-1-5.ec2.internal".to_string()) },
        Node { name: None },
        Node { name: Some("ip-10-0-2-7.ec2.internal".to_string()) },
    ];
    let (state, action) = step(state, FlowEvent::NodesListed { config: config(endpoint), nodes });
    let names = vec!["ip-10-0-1-5.ec2.internal".to_string(), "ip-10-0-2-7.ec2.internal".to_string()];
    assert_eq!(
        state,
        FlowState::ExtractCredentials { config: config(endpoint), nodes: names.clone() }
    );
    assert_eq!(action, FlowAction::Proceed);

    let (state, action) = step(state, FlowEvent::Proceed);
    assert_eq!(
        state,
        FlowState::SelectNode {
            profile: "staging-admin".to_string(),
            region: "us-west-2".to_string()
        }
    );
    assert_eq!(action, FlowAction::PromptNode { nodes: names });

    let (state, action) =
        step(state, FlowEvent::NodeInput { line: " ip-10-0-1-5.ec2.internal \n".to_string() });
    assert_eq!(
        state,
        FlowState::ResolveInstance {
            node: "ip-10-0-1-5.ec2.internal".to_string(),
            profile: "staging-admin".to_string(),
            region: "us-west-2".to_string(),
        }
    );
    assert_eq!(action, FlowAction::ListInstances { profile: "staging-admin".to_string() });

    let (state, action) = step(state, FlowEvent::InstancesListed { reservations: reservations() });
    assert_eq!(state, FlowState::LaunchSession { target: target() });
    assert_eq!(
        action,
        FlowAction::RunSession {
            instance_id: "i-0abc123".to_string(),
            command: SessionCommand {
                program: "aws".to_string(),
                args: vec![
                    "ssm".to_string(),
                    "start-session".to_string(),
                    "--target".to_string(),
                    "i-0abc123".to_string(),
                    "--profile".to_string(),
                    "staging-admin".to_string(),
                    "--region".to_string(),
                    "us-west-2".to_string(),
                ],
            },
        }
    );

    let (state, action) = step(
        state,
        FlowEvent::SessionEnded {
            outcome: ProcessOutcome::Ended { success: true, status: "exit status: 0".to_string() },
        },
    );
    assert_eq!(state, FlowState::Done);
    assert_eq!(action, FlowAction::Halt);
}

#[test]
fn an_unlisted_context_aborts_the_run() {
    let (state, action) = step(
        FlowState::SelectContext,
        FlowEvent::ContextInput { kubeconfig: kubeconfig(), line: "dev\n".to_string() },
    );
    assert_eq!(state, FlowState::Aborted);
    assert_eq!(
        action,
        FlowAction::Report { error: Error::ContextNotFound { context: "dev".to_string() } }
    );
}

#[test]
fn an_endpoint_without_a_region_aborts_the_run() {
    let endpoint = "https://kubernetes.default.svc";
    let (state, action) = step(
        FlowState::ExtractCredentials { config: config(endpoint), nodes: Vec::new() },
        FlowEvent::Proceed,
    );
    assert_eq!(state, FlowState::Aborted);
    assert_eq!(
        action,
        FlowAction::Report { error: Error::RegionNotFound { endpoint: endpoint.to_string() } }
    );
}

#[test]
fn a_configuration_without_a_profile_goes_on_with_the_empty_profile() {
    let bare = Config {
        cluster_url: "x.eu-west-1.y".to_string(),
        auth_info: AuthInfo { exec_plugin: None },
    };
    let (state, _) =
        step(FlowState::ExtractCredentials { config: bare, nodes: Vec::new() }, FlowEvent::Proceed);
    assert_eq!(
        state,
        FlowState::SelectNode { profile: String::new(), region: "eu-west-1".to_string() }
    );
}

#[test]
fn a_node_without_an_instance_aborts_the_run() {
    let (state, action) = step(
        FlowState::ResolveInstance {
            node: "ip-10-0-9-9.ec2.internal".to_string(),
            profile: "p".to_string(),
            region: "us-west-2".to_string(),
        },
        FlowEvent::InstancesListed { reservations: reservations() },
    );
    assert_eq!(state, FlowState::Aborted);
    assert_eq!(
        action,
        FlowAction::Report {
            error: Error::InstanceNotFound { node: "ip-10-0-9-9.ec2.internal".to_string() }
        }
    );
}

#[test]
fn a_session_that_exits_with_status_one_aborts_the_run() {
    let (state, action) = step(
        FlowState::LaunchSession { target: target() },
        FlowEvent::SessionEnded {
            outcome: ProcessOutcome::Ended { success: false, status: "exit status: 1".to_string() },
        },
    );
    assert_eq!(state, FlowState::Aborted);
    let error = match action {
        FlowAction::Report { error } => error,
        other => panic!("expected a report, got {:?}", other),
    };
    assert_eq!(error, Error::SessionExit { status: "exit status: 1".to_string() });
    assert_eq!(error.kind(), ErrorKind::ProcessLaunch);
    assert_eq!(
        error.diagnostic(),
        "Failed to start SSM session: AWS CLI returned non-zero exit status: exit status: 1"
    );
}

#[test]
fn no_second_session_is_attempted_after_a_failed_one() {
    let (mut state, _) = step(
        FlowState::LaunchSession { target: target() },
        FlowEvent::SessionEnded {
            outcome: ProcessOutcome::Ended { success: false, status: "exit status: 1".to_string() },
        },
    );
    for event in all_events() {
        let (next, action) = step(state, event);
        assert_eq!(next, FlowState::Aborted);
        assert_eq!(action, FlowAction::Halt);
        state = next;
    }
}

#[test]
fn a_session_that_does_not_start_aborts_the_run() {
    let (state, action) = step(
        FlowState::LaunchSession { target: target() },
        FlowEvent::SessionEnded {
            outcome: ProcessOutcome::NotStarted { reason: "not found".to_string() },
        },
    );
    assert_eq!(state, FlowState::Aborted);
    assert_eq!(
        action,
        FlowAction::Report { error: Error::SessionSpawn { reason: "not found".to_string() } }
    );
}

#[test]
fn a_failure_aborts_from_every_waiting_state() {
    for state in waiting_states() {
        let error = Error::InstanceListing { reason: "access denied".to_string() };
        let (next, action) = step(state, FlowEvent::Failed { error: error.clone() });
        assert_eq!(next, FlowState::Aborted);
        assert_eq!(action, FlowAction::Report { error });
    }
}

#[test]
fn the_failures_of_the_collaborators_are_reported_as_they_are() {
    let failures = vec![
        (FlowState::ListNodes, Error::ClientConfig { reason: "no such context".to_string() }),
        (FlowState::ListNodes, Error::ClientCreation { reason: "bad certificate".to_string() }),
        (FlowState::ListNodes, Error::NodeListing { reason: "connection refused".to_string() }),
        (
            FlowState::ResolveInstance {
                node: "n".to_string(),
                profile: "p".to_string(),
                region: "r".to_string(),
            },
            Error::InstanceListing { reason: "access denied".to_string() },
        ),
    ];
    for (state, error) in failures {
        assert_eq!(error.kind(), ErrorKind::Connectivity);
        let (next, action) = step(state, FlowEvent::Failed { error: error.clone() });
        assert_eq!(next, FlowState::Aborted);
        assert_eq!(action, FlowAction::Report { error });
    }
}

#[test]
fn a_finished_run_stays_finished() {
    for event in all_events() {
        assert_eq!(step(FlowState::Done, event.clone()), (FlowState::Done, FlowAction::Halt));
        assert_eq!(step(FlowState::Aborted, event), (FlowState::Aborted, FlowAction::Halt));
    }
}

#[test]
fn an_event_out_of_order_aborts_the_run() {
    let events = all_events();
    for (at, state) in waiting_states().into_iter().enumerate() {
        for (of, event) in events.iter().enumerate() {
            if of == at || of == 6 {
                continue;
            }
            let (next, action) = step(state.clone(), event.clone());
            assert_eq!(next, FlowState::Aborted);
            assert_eq!(action, FlowAction::Report { error: Error::UnexpectedEvent });
        }
    }
}

#[test]
fn a_session_is_asked_for_at_most_once_whatever_arrives() {
    let events = all_events();
    let orders: Vec<Vec<usize>> = vec![
        vec![0, 1, 2, 3, 4, 5, 4, 5],
        vec![0, 1, 2, 3, 4, 4, 4],
        vec![4, 4, 4],
        vec![0, 1, 2, 3, 4, 6, 4],
        vec![0, 0, 1, 2, 3, 4],
    ];
    for order in orders {
        let (mut state, _) = start();
        let mut sessions = 0;
        for at in order {
            let (next, action) = step(state, events[at].clone());
            if matches!(action, FlowAction::RunSession { .. }) {
                sessions += 1;
            }
            state = next;
        }
        assert!(sessions <= 1);
    }
}
