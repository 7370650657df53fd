use bytes::Bytes;
use herdr_queue::api::agents::{agent_not_found, agent_not_ready, AGENT_PROMPT_SUBMIT_DELAY_MS};
use herdr_queue::api::app::App;
use herdr_queue::api::host::{AgentPlace, HostCall, HostReply, RequestStep, TerminalSnapshot};
use herdr_queue::api::response::{
    AgentInfo, AgentPromptParams, AgentReadParams, AgentRenameParams, AgentSendKeysParams,
    AgentStartParams, AgentStatus, AgentTarget, ApiOutcome, ApiResponse, ErrorBody, ExplainValue,
    Explanation, ResponseResult,
};
use herdr_queue::api::state::{AppState, PaneSlot, TerminalState, Workspace};
use herdr_queue::detect::{Agent, AgentState};
use herdr_queue::queue::runtime::QueueRuntime;

const PLACE: AgentPlace = AgentPlace {
    ws_idx: 0,
    tab_idx: 0,
    pane_id: 7,
};

fn app_with_agent(agent: Option<Agent>, state: AgentState) -> App {
    App {
        state: AppState {
            workspaces: vec![Workspace {
                panes: vec![PaneSlot {
                    pane_id: 7,
                    terminal_id: 70,
                }],
            }],
            terminals: vec![TerminalState {
                id: 70,
                agent_instance_id: None,
                state,
                state_label: "idle".to_string(),
                effective_known_agent: agent,
                detected_agent: agent,
                effective_agent_label: None,
                managed_agent_launch_pending: false,
                full_lifecycle_hook_authority_active: false,
            }],
        },
        agent_queue: QueueRuntime::in_memory(),
        events: Vec::new(),
    }
}

/// A terminal host with one pane, which keeps what is written to it.
struct Host {
    names: Vec<String>,
    agent_name: Option<String>,
    manual_label: Option<String>,
    seen: bool,
    has_runtime: bool,
    hosts: bool,
    bracketed_paste: bool,
    focus_error: Option<String>,
    send_error: Option<String>,
    public_pane: Option<String>,
    sent: Vec<Bytes>,
    scheduled: Vec<(Bytes, u64)>,
    calls: usize,
}

impl Host {
    fn new() -> Self {
        Host {
            names: vec!["critic".to_string(), "pane-1".to_string()],
            agent_name: Some("critic".to_string()),
            manual_label: None,
            seen: true,
            has_runtime: true,
            hosts: true,
            bracketed_paste: false,
            focus_error: None,
            send_error: None,
            public_pane: Some("pane-1".to_string()),
            sent: Vec::new(),
            scheduled: Vec::new(),
            calls: 0,
        }
    }

    fn info(&self) -> AgentInfo {
        AgentInfo {
            name: self.agent_name.clone(),
            agent_status: if self.seen {
                AgentStatus::Idle
            } else {
                AgentStatus::Done
            },
            agent_instance_id: None,
        }
    }

    /// The label of the pane: the one given by hand, or else the agent's name.
    fn pane_label(&self) -> Option<&str> {
        self.manual_label.as_deref().or(self.agent_name.as_deref())
    }

    fn missing(target: &str) -> ErrorBody {
        ErrorBody {
            code: "agent_not_found".to_string(),
            message: format!("agent target {target} not found"),
        }
    }

    fn known(&self, target: &str) -> Result<(), ErrorBody> {
        if self.names.iter().any(|name| name == target) {
            Ok(())
        } else {
            Err(Host::missing(target))
        }
    }

    fn answer(&mut self, call: &HostCall) -> HostReply {
        self.calls += 1;
        match call {
            HostCall::CollectAgents => HostReply::Agents(vec![self.info()]),
            HostCall::Reconcile { .. } => HostReply::Reconciled,
            HostCall::Describe { target } => {
                HostReply::Described(self.known(target).map(|()| self.info()))
            }
            HostCall::Focus { target } => {
                let known = self.known(target);
                if known.is_ok() {
                    self.seen = true;
                }
                HostReply::Described(known.map(|()| self.info()))
            }
            HostCall::Rename { target, name } => {
                let known = self.known(target);
                if known.is_ok() {
                    self.agent_name = name.clone();
                }
                HostReply::Described(known.map(|()| self.info()))
            }
            HostCall::Start(params) => {
                HostReply::Started(Ok((self.info(), vec![params.kind.clone()])))
            }
            HostCall::Resolve { target } => {
                HostReply::Resolved(self.known(target).map(|()| PLACE))
            }
            HostCall::CheckHosting { at, .. } => {
                assert_eq!(*at, PLACE);
                HostReply::Hosting(if self.has_runtime {
                    Some(self.hosts)
                } else {
                    None
                })
            }
            HostCall::CheckRuntime { .. } => HostReply::Runtime(self.has_runtime),
            HostCall::EncodeFocusGained => HostReply::FocusEncoded(match &self.focus_error {
                Some(error) => Err(error.clone()),
                None => Ok(b"\x1b[I".to_vec()),
            }),
            HostCall::EncodeSubmission { text, .. } => HostReply::Submission {
                text: if self.bracketed_paste {
                    format!("\x1b[200~{text}\x1b[201~").into_bytes()
                } else {
                    text.clone().into_bytes()
                },
                enter: b"\r".to_vec(),
            },
            HostCall::EncodeKeys { keys, .. } => {
                let mut parts = Vec::new();
                for key in keys {
                    match key.as_str() {
                        "enter" => parts.push(b"\r".to_vec()),
                        "up" => parts.push(b"\x1b[A".to_vec()),
                        _ => return HostReply::KeysEncoded(Err(key.clone())),
                    }
                }
                HostReply::KeysEncoded(Ok(parts))
            }
            HostCall::SendBytes { bytes, .. } => HostReply::Sent(match &self.send_error {
                Some(error) => Err(error.clone()),
                None => {
                    self.sent.push(bytes.clone());
                    Ok(())
                }
            }),
            HostCall::SendBytesAfter {
                bytes, delay_ms, ..
            } => {
                self.scheduled.push((bytes.clone(), *delay_ms));
                HostReply::Scheduled
            }
            HostCall::DescribeAt { .. } => HostReply::DescribedAt(Some(self.info())),
            HostCall::Snapshot {
                source,
                format,
                lines,
                ..
            } => HostReply::Snapshot(if self.has_runtime {
                Some(TerminalSnapshot {
                    workspace_id: "ws-1".to_string(),
                    text: format!("{source} {format} {lines:?}"),
                    truncated: true,
                })
            } else {
                None
            }),
            HostCall::PublicIds { .. } => HostReply::PublicIds {
                pane: self.public_pane.clone(),
                tab: "tab-1".to_string(),
            },
            HostCall::ExplainScreen { .. } => {
                HostReply::Explained(serde_json::Value::String("screen".to_string()))
            }
        }
    }
}

fn drive(app: &App, host: &mut Host, mut step: RequestStep) -> ApiResponse {
    loop {
        match step {
            RequestStep::Done(response) => return response,
            RequestStep::Ask(pending) => {
                let reply = host.answer(&pending.call);
                step = app.resume(pending, reply);
            }
        }
    }
}

fn success(response: ApiResponse) -> ResponseResult {
    match response.outcome {
        ApiOutcome::Success(result) => result,
        ApiOutcome::Error(body) => panic!("{}: {}", body.code, body.message),
    }
}

fn error(response: ApiResponse) -> ErrorBody {
    match response.outcome {
        ApiOutcome::Success(_) => panic!("expected an error"),
        ApiOutcome::Error(body) => body,
    }
}

fn prompt(app: &App, host: &mut Host, id: &str, target: &str, text: &str) -> ApiResponse {
    let step = app.handle_agent_prompt(
        id.into(),
        AgentPromptParams {
            target: target.into(),
            text: text.into(),
        },
    );
    drive(app, host, step)
}

fn send_keys(app: &App, host: &mut Host, id: &str, keys: &[&str]) -> ApiResponse {
    let step = app.handle_agent_send_keys(
        id.into(),
        AgentSendKeysParams {
            target: "critic".into(),
            keys: keys.iter().map(|key| key.to_string()).collect(),
        },
    );
    drive(app, host, step)
}

#[test]
fn agent_prompt_sends_text_then_delays_enter() {
    let app = app_with_agent(Some(Agent::OpenCode), AgentState::Working);
    let mut host = Host::new();
    host.bracketed_paste = true;

    let response = prompt(&app, &mut host, "req", "pane-1", "A != B");
    assert_eq!(response.id, "req");
    let ResponseResult::AgentPrompted { agent, .. } = success(response) else {
        panic!("expected prompted response");
    };
    assert_eq!(agent.name.as_deref(), Some("critic"));
    assert_eq!(
        host.sent,
        [Bytes::from_static(b"\x1b[200~A != B\x1b[201~")]
    );
    assert_eq!(AGENT_PROMPT_SUBMIT_DELAY_MS, 300);
    assert_eq!(
        host.scheduled,
        [(Bytes::from_static(b"\r"), AGENT_PROMPT_SUBMIT_DELAY_MS)]
    );

    host.sent.clear();
    host.scheduled.clear();
    host.bracketed_paste = false;
    let raw = prompt(&app, &mut host, "req-raw", "critic", "A != B");
    assert!(matches!(success(raw), ResponseResult::AgentPrompted { .. }));
    assert_eq!(host.sent, [Bytes::from_static(b"A != B")]);
    assert_eq!(
        host.scheduled,
        [(Bytes::from_static(b"\r"), AGENT_PROMPT_SUBMIT_DELAY_MS)]
    );

    host.sent.clear();
    host.scheduled.clear();
    let rejected = prompt(&app, &mut host, "req-label", "opencode", "wrong target");
    assert_eq!(error(rejected).code, "agent_not_found");
    assert!(host.sent.is_empty());
    assert!(host.scheduled.is_empty());
}

#[test]
fn agent_prompt_rejects_blocked_agent_without_writing() {
    let app = app_with_agent(Some(Agent::GithubCopilot), AgentState::Blocked);
    let mut host = Host::new();
    let response = prompt(&app, &mut host, "req", "critic", "unrelated prompt");
    let body = error(response);
    assert_eq!(body.code, "agent_blocked");
    assert_eq!(
        body.message,
        "agent critic is blocked and requires interactive input"
    );
    assert!(
        host.sent.is_empty() && host.scheduled.is_empty(),
        "blocked prompt wrote or scheduled terminal input"
    );
}

#[test]
fn agent_prompt_focuses_copilot_before_submitting() {
    let app = app_with_agent(Some(Agent::GithubCopilot), AgentState::Idle);
    let mut host = Host::new();
    host.bracketed_paste = true;
    let response = prompt(&app, &mut host, "req", "critic", "A != B");
    assert!(matches!(
        success(response),
        ResponseResult::AgentPrompted { .. }
    ));
    assert_eq!(
        host.sent,
        [
            Bytes::from_static(b"\x1b[I"),
            Bytes::from_static(b"\x1b[200~A != B\x1b[201~"),
        ]
    );
    assert_eq!(host.scheduled, [(Bytes::from_static(b"\r"), 300)]);
}

#[test]
fn agent_send_keys_validates_every_key_before_writing() {
    let app = app_with_agent(Some(Agent::Pi), AgentState::Idle);
    let mut host = Host::new();
    let rejected = send_keys(&app, &mut host, "req-invalid", &["enter", "not-a-key"]);
    let body = error(rejected);
    assert_eq!(body.code, "invalid_key");
    assert_eq!(body.message, "unsupported key not-a-key");
    assert!(host.sent.is_empty());

    let sent = send_keys(&app, &mut host, "req-valid", &["up", "enter"]);
    assert!(matches!(success(sent), ResponseResult::Done {}));
    assert_eq!(host.sent, [Bytes::from_static(b"\x1b[A\r")]);
    assert!(host.scheduled.is_empty());
}

#[test]
fn agent_prompt_rejects_managed_agent_while_startup_is_pending() {
    let mut app = app_with_agent(Some(Agent::OpenCode), AgentState::Idle);
    app.state.terminals[0].managed_agent_launch_pending = true;
    let mut host = Host::new();
    let response = prompt(&app, &mut host, "req-pending", "critic", "A != B");
    assert_eq!(error(response).code, "agent_not_ready");
    assert!(host.sent.is_empty());
}

#[test]
fn agent_focus_marks_already_focused_done_agent_seen() {
    let app = app_with_agent(Some(Agent::Pi), AgentState::Idle);
    let mut host = Host::new();
    host.seen = false;
    assert_eq!(host.info().agent_status, AgentStatus::Done);
    let step = app.handle_agent_focus(
        "req".into(),
        AgentTarget {
            target: "pane-1".into(),
        },
    );
    assert!(matches!(
        &step,
        RequestStep::Ask(pending)
            if matches!(&pending.call, HostCall::Focus { target } if target == "pane-1")
    ));
    let ResponseResult::AgentInfo { agent } = success(drive(&app, &mut host, step)) else {
        panic!("expected agent info response");
    };
    assert_eq!(agent.agent_status, AgentStatus::Idle);
}

#[test]
fn agent_rename_does_not_replace_the_pane_label() {
    let app = app_with_agent(Some(Agent::Pi), AgentState::Idle);
    let mut host = Host::new();
    host.manual_label = Some("shell-pane".to_string());
    for name in [Some("critic".to_string()), None] {
        let step = app.handle_agent_rename(
            "req".into(),
            AgentRenameParams {
                target: "pane-1".into(),
                name: name.clone(),
            },
        );
        let ResponseResult::AgentInfo { agent } = success(drive(&app, &mut host, step)) else {
            panic!("expected agent info response");
        };
        assert_eq!(agent.name, name);
        assert_eq!(host.pane_label(), Some("shell-pane"));
    }
}

#[test]
fn empty_prompt_is_refused_without_asking_the_host() {
    let app = app_with_agent(Some(Agent::Pi), AgentState::Idle);
    let mut host = Host::new();
    let body = error(prompt(&app, &mut host, "req", "critic", ""));
    assert_eq!(body.code, "empty_agent_prompt");
    assert_eq!(body.message, "agent prompt must not be empty");
    assert_eq!(host.calls, 0);
}

#[test]
fn prompt_needs_a_known_agent_that_still_runs() {
    let mut host = Host::new();
    let unknown = app_with_agent(None, AgentState::Idle);
    let body = error(prompt(&unknown, &mut host, "req", "critic", "x"));
    assert_eq!(body.code, "agent_not_ready");
    assert_eq!(body.message, "agent critic is not an active named agent");

    let app = app_with_agent(Some(Agent::Pi), AgentState::Idle);
    host.hosts = false;
    let body = error(prompt(&app, &mut host, "req", "critic", "x"));
    assert_eq!(body.code, "agent_not_ready");
    assert_eq!(
        body.message,
        "agent critic is no longer the pane foreground process"
    );

    host.has_runtime = false;
    let body = error(prompt(&app, &mut host, "req", "critic", "x"));
    assert_eq!(body.code, "agent_not_found");
    assert_eq!(body.message, "agent target critic not found");
    assert!(host.sent.is_empty() && host.scheduled.is_empty());
}

#[test]
fn prompt_needs_a_terminal_in_the_pane() {
    let mut app = app_with_agent(Some(Agent::Pi), AgentState::Idle);
    app.state.terminals.clear();
    let body = error(prompt(&app, &mut Host::new(), "req", "critic", "x"));
    assert_eq!(body.code, "agent_not_found");
    app.state.workspaces[0].panes.clear();
    let body = error(prompt(&app, &mut Host::new(), "req", "critic", "x"));
    assert_eq!(body.code, "agent_not_found");
    app.state.workspaces.clear();
    let body = error(prompt(&app, &mut Host::new(), "req", "critic", "x"));
    assert_eq!(body.code, "agent_not_found");
}

#[test]
fn prompt_that_cannot_be_written_fails_and_schedules_nothing() {
    let app = app_with_agent(Some(Agent::GithubCopilot), AgentState::Idle);
    let mut host = Host::new();
    host.focus_error = Some("no encoder".to_string());
    let body = error(prompt(&app, &mut host, "req", "critic", "x"));
    assert_eq!(body.code, "agent_prompt_failed");
    assert_eq!(body.message, "no encoder");

    host.focus_error = None;
    host.send_error = Some("channel full".to_string());
    let body = error(prompt(&app, &mut host, "req", "critic", "x"));
    assert_eq!(body.code, "agent_prompt_failed");
    assert_eq!(body.message, "channel full");

    let other = app_with_agent(Some(Agent::Codex), AgentState::Idle);
    let body = error(prompt(&other, &mut host, "req", "critic", "x"));
    assert_eq!(body.code, "agent_prompt_failed");
    assert!(host.sent.is_empty() && host.scheduled.is_empty());
}

#[test]
fn agent_that_is_gone_after_the_prompt_is_not_found() {
    let app = app_with_agent(Some(Agent::Pi), AgentState::Idle);
    let mut host = Host::new();
    let mut step = app.handle_agent_prompt(
        "req".into(),
        AgentPromptParams {
            target: "critic".into(),
            text: "x".into(),
        },
    );
    let response = loop {
        match step {
            RequestStep::Done(response) => break response,
            RequestStep::Ask(pending) => {
                let reply = match pending.call {
                    HostCall::DescribeAt { .. } => HostReply::DescribedAt(None),
                    _ => host.answer(&pending.call),
                };
                step = app.resume(pending, reply);
            }
        }
    };
    assert_eq!(error(response).code, "agent_not_found");
    assert_eq!(host.scheduled.len(), 1);
}

#[test]
fn reply_to_another_call_leaves_the_request_where_it_is() {
    let app = app_with_agent(Some(Agent::Pi), AgentState::Idle);
    let step = app.handle_agent_list("req".into());
    let RequestStep::Ask(pending) = step else {
        panic!("expected a call");
    };
    let RequestStep::Ask(pending) = app.resume(pending, HostReply::Scheduled) else {
        panic!("expected the same call");
    };
    assert_eq!(pending.id, "req");
    assert!(matches!(pending.call, HostCall::CollectAgents));
}

#[test]
fn prompt_makes_no_more_than_eight_calls() {
    let mut host = Host::new();
    let copilot = app_with_agent(Some(Agent::GithubCopilot), AgentState::Idle);
    success(prompt(&copilot, &mut host, "req", "critic", "x"));
    assert_eq!(host.calls, 8);
    host.calls = 0;
    let other = app_with_agent(Some(Agent::Other(3)), AgentState::Unknown);
    success(prompt(&other, &mut host, "req", "critic", "x"));
    assert_eq!(host.calls, 6);
}

#[test]
fn keys_need_an_agent_that_runs() {
    let mut host = Host::new();
    let mut app = app_with_agent(None, AgentState::Idle);
    assert_eq!(
        error(send_keys(&app, &mut host, "req", &["up"])).code,
        "agent_not_ready"
    );
    app.state.terminals.clear();
    assert_eq!(
        error(send_keys(&app, &mut host, "req", &["up"])).code,
        "agent_not_ready"
    );
    app.state.workspaces.clear();
    assert_eq!(
        error(send_keys(&app, &mut host, "req", &["up"])).code,
        "agent_not_found"
    );

    let app = app_with_agent(Some(Agent::Pi), AgentState::Blocked);
    host.hosts = false;
    let body = error(send_keys(&app, &mut host, "req", &["up"]));
    assert_eq!(body.code, "agent_not_ready");
    assert_eq!(body.message, "agent critic is not an active named agent");
    host.has_runtime = false;
    assert_eq!(
        error(send_keys(&app, &mut host, "req", &["up"])).code,
        "agent_not_found"
    );
    assert!(host.sent.is_empty());
}

#[test]
fn keys_go_to_a_blocked_agent_and_their_failure_is_told() {
    let app = app_with_agent(Some(Agent::Pi), AgentState::Blocked);
    let mut host = Host::new();
    assert!(matches!(
        success(send_keys(&app, &mut host, "req", &[])),
        ResponseResult::Done {}
    ));
    assert_eq!(host.sent, [Bytes::new()]);
    host.send_error = Some("closed".to_string());
    let body = error(send_keys(&app, &mut host, "req", &["enter"]));
    assert_eq!(body.code, "agent_send_keys_failed");
    assert_eq!(body.message, "closed");
}

fn read(app: &App, host: &mut Host, target: &str) -> ApiResponse {
    let step = app.handle_agent_read(
        "req".into(),
        AgentReadParams {
            target: target.into(),
            source: "recent".into(),
            format: "text".into(),
            lines: Some(5),
        },
    );
    drive(app, host, step)
}

#[test]
fn read_tells_what_is_on_the_screen() {
    let app = app_with_agent(Some(Agent::Pi), AgentState::Idle);
    let mut host = Host::new();
    let ResponseResult::PaneRead { read: screen } = success(read(&app, &mut host, "critic"))
    else {
        panic!("expected a read");
    };
    assert_eq!(screen.pane_id, "pane-1");
    assert_eq!(screen.workspace_id, "ws-1");
    assert_eq!(screen.tab_id, "tab-1");
    assert_eq!(screen.source, "recent");
    assert_eq!(screen.format, "text");
    assert_eq!(screen.text, "recent text Some(5)");
    assert_eq!(screen.revision, 0);
    assert!(screen.truncated);
    assert!(host.sent.is_empty() && host.scheduled.is_empty());

    host.public_pane = None;
    let ResponseResult::PaneRead { read: screen } = success(read(&app, &mut host, "critic"))
    else {
        panic!("expected a read");
    };
    assert_eq!(screen.pane_id, "critic");

    host.has_runtime = false;
    assert_eq!(
        error(read(&app, &mut host, "critic")).code,
        "agent_not_found"
    );
    assert_eq!(
        error(read(&app, &mut host, "nobody")).message,
        "agent target nobody not found"
    );
}

fn explain(app: &App, host: &mut Host, target: &str) -> ApiResponse {
    let step = app.handle_agent_explain(
        "req".into(),
        AgentTarget {
            target: target.into(),
        },
    );
    drive(app, host, step)
}

#[test]
fn explanation_of_a_hooked_agent_skips_the_screen() {
    let mut app = app_with_agent(Some(Agent::Pi), AgentState::Working);
    app.state.terminals[0].full_lifecycle_hook_authority_active = true;
    app.state.terminals[0].state_label = "working".to_string();
    let mut host = Host::new();
    let ResponseResult::AgentExplain {
        explain: Explanation::HookAuthority(fields),
    } = success(explain(&app, &mut host, "critic"))
    else {
        panic!("expected a hook explanation");
    };
    let null = ExplainValue::Null;
    let no = ExplainValue::Bool(false);
    let expected = [
        ("agent", &ExplainValue::Text("unknown".to_string())),
        ("state", &ExplainValue::Text("working".to_string())),
        ("manifest_source", &null),
        ("manifest_version", &null),
        ("cached_remote_version", &null),
        ("local_override_shadowing_remote", &no),
        ("remote_update_status", &null),
        ("remote_update_error", &null),
        ("matched_rule", &null),
        ("visible_idle", &no),
        ("visible_blocker", &no),
        ("visible_working", &no),
        ("screen_detection_skipped", &ExplainValue::Bool(true)),
        (
            "screen_detection_skip_reason",
            &ExplainValue::Text("full_lifecycle_hook_authority".to_string()),
        ),
        ("skip_state_update", &no),
        ("skipped_update_reason", &null),
        ("fallback_reason", &null),
        ("warning", &null),
        ("evaluated_rules", &ExplainValue::EmptyList),
    ];
    assert_eq!(fields.len(), expected.len());
    for (field, (name, value)) in fields.iter().zip(expected) {
        assert_eq!(field.name, name);
        assert_eq!(&field.value, value);
    }

    app.state.terminals[0].effective_agent_label = Some("pi".to_string());
    let ResponseResult::AgentExplain {
        explain: Explanation::HookAuthority(fields),
    } = success(explain(&app, &mut host, "critic"))
    else {
        panic!("expected a hook explanation");
    };
    assert_eq!(fields[0].value, ExplainValue::Text("pi".to_string()));
}

#[test]
fn explanation_of_another_agent_comes_from_the_screen() {
    let mut app = app_with_agent(None, AgentState::Idle);
    let mut host = Host::new();
    let body = error(explain(&app, &mut host, "critic"));
    assert_eq!(body.code, "agent_explain_unavailable");
    assert_eq!(
        body.message,
        "agent target critic does not have a detected agent label"
    );
    app.state.terminals[0].detected_agent = Some(Agent::Codex);
    let ResponseResult::AgentExplain {
        explain: Explanation::Screen(value),
    } = success(explain(&app, &mut host, "critic"))
    else {
        panic!("expected a screen explanation");
    };
    assert_eq!(value, serde_json::Value::String("screen".to_string()));

    app.state.terminals.clear();
    assert_eq!(
        error(explain(&app, &mut host, "critic")).code,
        "agent_not_found"
    );
    host.has_runtime = false;
    assert_eq!(
        error(explain(&app, &mut host, "critic")).code,
        "agent_not_found"
    );
}

#[test]
fn agents_are_listed_told_of_and_started() {
    let app = app_with_agent(Some(Agent::Pi), AgentState::Idle);
    let mut host = Host::new();
    let step = app.handle_agent_list("list".into());
    let response = drive(&app, &mut host, step);
    assert_eq!(response.id, "list");
    let ResponseResult::AgentList { agents } = success(response) else {
        panic!("expected a list");
    };
    assert_eq!(agents.len(), 1);

    let step = app.handle_agent_get(
        "get".into(),
        AgentTarget {
            target: "critic".into(),
        },
    );
    assert!(matches!(
        &step,
        RequestStep::Ask(pending)
            if matches!(&pending.call, HostCall::Reconcile { target } if target == "critic")
    ));
    let ResponseResult::AgentInfo { agent } = success(drive(&app, &mut host, step)) else {
        panic!("expected agent info");
    };
    assert_eq!(agent.name.as_deref(), Some("critic"));

    let step = app.handle_agent_get(
        "get".into(),
        AgentTarget {
            target: "nobody".into(),
        },
    );
    assert_eq!(
        error(drive(&app, &mut host, step)),
        Host::missing("nobody")
    );

    let step = app.handle_agent_start(
        "start".into(),
        AgentStartParams {
            name: "builder".into(),
            kind: "codex".into(),
            pane_id: "pane-1".into(),
            args: Vec::new(),
            timeout_ms: None,
        },
    );
    let ResponseResult::AgentStarted { argv, .. } = success(drive(&app, &mut host, step)) else {
        panic!("expected a start");
    };
    assert_eq!(argv, ["codex"]);
}

#[test]
fn refusals_have_these_texts() {
    let not_ready = error(agent_not_ready("req".into(), "x"));
    assert_eq!(not_ready.code, "agent_not_ready");
    assert_eq!(not_ready.message, "agent x is not an active named agent");
    let not_found = error(agent_not_found("req".into(), "x"));
    assert_eq!(not_found.code, "agent_not_found");
    assert_eq!(not_found.message, "agent target x not found");
}
