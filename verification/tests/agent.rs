use t_ide::agent::approval::{ApprovalKind, Decision};
use t_ide::agent::session::{AgentSession, SessionLock, SessionStatus};
use t_ide::agent::session::SessionStatus::{Complete, Idle, Interrupted, Running, WaitingApproval};
use t_ide::agent::{
    approval_kind, completion_request, decision_for, event_after, settled_status, strip_code_fence, ActionOutcome,
    AgentAction, AgentRun, RunEvent, RunPhase, RunStep, SYSTEM_PROMPT,
};
use t_ide::IdeError;

fn session(status: SessionStatus) -> AgentSession {
    AgentSession {
        id: 1,
        project_id: 1,
        provider_id: 1,
        status,
        prompt_text: "do the thing".to_string(),
        origin_device_id: None,
        created_at: "2024-01-01T00:00:00+00:00".to_string(),
        updated_at: "2024-01-01T00:00:00+00:00".to_string(),
        completed_at: None,
    }
}

fn write(path: &str) -> AgentAction {
    AgentAction::WriteFile { path: path.to_string(), contents: "hello".to_string() }
}

#[test]
fn enforces_status_transitions() {
    assert!(Idle.can_transition_to(Running));
    assert!(Running.can_transition_to(WaitingApproval));
    assert!(WaitingApproval.can_transition_to(Running));
    assert!(Running.can_transition_to(Complete));
    assert!(!Idle.can_transition_to(WaitingApproval));
    assert!(!Complete.can_transition_to(Running));
    assert!(!Interrupted.can_transition_to(Complete));
}

#[test]
fn only_reads_and_messages_are_read_only() {
    assert!(AgentAction::ReadFile { path: "a".into() }.is_read_only());
    assert!(AgentAction::Message { text: "a".into() }.is_read_only());
    assert!(!AgentAction::WriteFile { path: "a".into(), contents: String::new() }.is_read_only());
    assert!(!AgentAction::RunCommand { command: "rm -rf /".into() }.is_read_only());
}

#[test]
fn global_lock_admits_one_holder_and_releases_on_drop() {
    let mut lock = SessionLock::new();
    let guard = lock.acquire(1, || "demo".into()).unwrap();
    assert_eq!(lock.current(), Some(1));
    assert!(matches!(lock.acquire(2, || "demo".into()), Err(IdeError::SessionBusy { .. })));
    // The same session cannot take the slot twice either.
    assert!(matches!(lock.acquire(1, || "demo".into()), Err(IdeError::SessionBusy { .. })));
    lock.release(guard);
    assert_eq!(lock.current(), None);
    lock.acquire(2, || "demo".into()).unwrap();
}

#[test]
fn busy_lock_names_the_project_of_the_holder() {
    let mut lock = SessionLock::new();
    let _guard = lock.acquire(7, || "first".into()).unwrap();
    match lock.acquire(8, || "first".into()) {
        Err(IdeError::SessionBusy { project }) => assert_eq!(project, "first"),
        other => panic!("expected SessionBusy, got {other:?}"),
    }
    assert_eq!(lock.current(), Some(7));
}

#[test]
fn a_stale_guard_leaves_the_slot_alone() {
    let mut lock = SessionLock::new();
    let first = lock.acquire(1, || "demo".into()).unwrap();
    assert_eq!(first.session_id(), 1);
    lock.release(first);
    let _second = lock.acquire(2, || "demo".into()).unwrap();
    let mut other = SessionLock::new();
    let stale = other.acquire(1, || "demo".into()).unwrap();
    lock.release(stale);
    assert_eq!(lock.current(), Some(2));
}

#[test]
fn strips_a_code_fence_around_the_plan() {
    assert_eq!(strip_code_fence("```json\n{ \"actions\": [] }\n```"), "{ \"actions\": [] }");
    assert_eq!(strip_code_fence("```\r\n{}\n```  "), "{}");
    assert_eq!(strip_code_fence("{ \"summary\": \"s\" }"), "{ \"summary\": \"s\" }");
    assert_eq!(strip_code_fence("```json\n{}"), "{}");
    assert_eq!(strip_code_fence("sorry, I cannot"), "sorry, I cannot");
}

#[test]
fn file_actions_ask_for_file_changes_and_commands_for_commands() {
    assert_eq!(approval_kind(&AgentAction::ReadFile { path: "a".into() }), ApprovalKind::FileChange);
    assert_eq!(approval_kind(&write("a")), ApprovalKind::FileChange);
    assert_eq!(approval_kind(&AgentAction::DeleteFile { path: "a".into() }), ApprovalKind::FileChange);
    assert_eq!(approval_kind(&AgentAction::RunCommand { command: "ls".into() }), ApprovalKind::Command);
}

#[test]
fn the_model_gets_the_instructions_and_the_task() {
    let request = completion_request("llama3".to_string(), "/tmp/project", "look around");
    assert_eq!(request.model, "llama3");
    assert_eq!(request.messages.len(), 2);
    assert_eq!(request.messages[0].role, "system");
    assert_eq!(request.messages[0].content, SYSTEM_PROMPT);
    assert_eq!(request.messages[1].role, "user");
    assert_eq!(request.messages[1].content, "Project folder: /tmp/project\n\nTask: look around");
}

#[test]
fn a_finished_session_cannot_run() {
    assert!(matches!(AgentRun::start(&session(SessionStatus::Complete), false), Err(IdeError::SessionNotActive)));
    assert!(matches!(AgentRun::start(&session(SessionStatus::Interrupted), false), Err(IdeError::SessionNotActive)));
    let run = AgentRun::start(&session(SessionStatus::Idle), false).unwrap();
    assert_eq!(run.phase(), RunPhase::AwaitingPlan);
}

#[test]
fn approved_changes_are_performed_in_order() {
    let mut run = AgentRun::start(&session(SessionStatus::Idle), false).unwrap();
    let plan = vec![write("greeting.txt"), AgentAction::RunCommand { command: "echo ran-in-project".into() }];
    assert_eq!(run.advance(RunEvent::Planned { actions: plan }, false), RunStep::Ask { index: 0 });
    assert_eq!(
        run.advance(RunEvent::Decided { decision: Decision::Approved }, false),
        RunStep::Perform { index: 0, automatic: false }
    );
    assert_eq!(run.advance(RunEvent::Done, false), RunStep::Ask { index: 1 });
    assert_eq!(
        run.advance(RunEvent::Decided { decision: Decision::Approved }, false),
        RunStep::Perform { index: 1, automatic: false }
    );
    assert_eq!(run.advance(RunEvent::Done, false), RunStep::Finish { status: SessionStatus::Complete });
    assert_eq!(run.phase(), RunPhase::Finished { status: SessionStatus::Complete });
}

#[test]
fn a_denied_change_is_skipped() {
    let mut run = AgentRun::start(&session(SessionStatus::Idle), false).unwrap();
    assert_eq!(run.advance(RunEvent::Planned { actions: vec![write("denied.txt")] }, false), RunStep::Ask { index: 0 });
    assert_eq!(
        run.advance(RunEvent::Decided { decision: Decision::Denied }, false),
        RunStep::Finish { status: SessionStatus::Complete }
    );
}

#[test]
fn reads_skip_approval_only_when_the_project_opts_in() {
    let plan = vec![AgentAction::ReadFile { path: "notes.txt".into() }];
    let mut opted_in = AgentRun::start(&session(SessionStatus::Idle), true).unwrap();
    assert_eq!(
        opted_in.advance(RunEvent::Planned { actions: plan.clone() }, false),
        RunStep::Perform { index: 0, automatic: true }
    );
    let mut opted_out = AgentRun::start(&session(SessionStatus::Idle), false).unwrap();
    assert_eq!(opted_out.advance(RunEvent::Planned { actions: plan }, false), RunStep::Ask { index: 0 });
}

#[test]
fn changes_are_asked_for_even_when_reads_are_auto_approved() {
    let mut run = AgentRun::start(&session(SessionStatus::Idle), true).unwrap();
    let plan = vec![AgentAction::Message { text: "hi".into() }, AgentAction::DeleteFile { path: "a".into() }];
    assert_eq!(run.advance(RunEvent::Planned { actions: plan }, false), RunStep::Say { index: 0 });
    assert_eq!(run.advance(RunEvent::Done, false), RunStep::Ask { index: 1 });
}

#[test]
fn cancelling_interrupts_the_run() {
    let mut waiting = AgentRun::start(&session(SessionStatus::Running), false).unwrap();
    assert_eq!(waiting.advance(RunEvent::Cancelled, true), RunStep::Finish { status: SessionStatus::Interrupted });

    // A cancellation while an approval is pending answers it with a denial,
    // and the run stops before the next action.
    let mut deciding = AgentRun::start(&session(SessionStatus::Running), false).unwrap();
    deciding.advance(RunEvent::Planned { actions: vec![write("a"), write("b")] }, false);
    assert_eq!(
        deciding.advance(RunEvent::Decided { decision: Decision::Denied }, true),
        RunStep::Finish { status: SessionStatus::Interrupted }
    );

    // An approval that arrives after the cancellation does not run the action.
    let mut approved = AgentRun::start(&session(SessionStatus::Running), false).unwrap();
    approved.advance(RunEvent::Planned { actions: vec![write("a")] }, false);
    assert_eq!(
        approved.advance(RunEvent::Decided { decision: Decision::Approved }, true),
        RunStep::Finish { status: SessionStatus::Interrupted }
    );
}

#[test]
fn a_failed_reply_completes_the_run_and_a_finished_run_stays_finished() {
    let mut run = AgentRun::start(&session(SessionStatus::Idle), false).unwrap();
    assert_eq!(run.advance(RunEvent::Decided { decision: Decision::Approved }, false), RunStep::Wait);
    assert_eq!(run.advance(RunEvent::Failed, false), RunStep::Finish { status: SessionStatus::Complete });
    assert_eq!(run.advance(RunEvent::Cancelled, true), RunStep::Finish { status: SessionStatus::Complete });
    assert_eq!(run.phase(), RunPhase::Finished { status: SessionStatus::Complete });
}

#[test]
fn an_empty_plan_completes_at_once() {
    let mut run = AgentRun::start(&session(SessionStatus::Idle), false).unwrap();
    assert_eq!(run.advance(RunEvent::Planned { actions: vec![] }, false), RunStep::Finish { status: SessionStatus::Complete });
    assert!(run.actions().is_empty());
}

#[test]
fn an_action_outcome_decides_how_the_run_goes_on() {
    assert_eq!(event_after(ActionOutcome::Ran { cancelled: false }), RunEvent::Done);
    assert_eq!(event_after(ActionOutcome::Ran { cancelled: true }), RunEvent::Cancelled);
    assert_eq!(event_after(ActionOutcome::Failed { recorded: true }), RunEvent::Done);
    assert_eq!(event_after(ActionOutcome::Failed { recorded: false }), RunEvent::Failed);
}

#[test]
fn an_interrupted_run_completes_when_its_cancellation_cannot_be_recorded() {
    assert_eq!(settled_status(Interrupted, true), Interrupted);
    assert_eq!(settled_status(Interrupted, false), Complete);
    assert_eq!(settled_status(Complete, false), Complete);
    assert_eq!(settled_status(Complete, true), Complete);
}

#[test]
fn cancelled_or_unanswered_requests_count_as_denied() {
    assert_eq!(decision_for(true, Some(Decision::Approved)), Decision::Denied);
    assert_eq!(decision_for(false, None), Decision::Denied);
    assert_eq!(decision_for(false, Some(Decision::Approved)), Decision::Approved);
    assert_eq!(decision_for(false, Some(Decision::Denied)), Decision::Denied);
}
