//! Agent engine.
//!
//! An agent run turns a developer prompt into the model's plan of actions,
//! takes them one at a time inside the project sandbox with explicit
//! approval for anything that changes the machine, and stops when the plan
//! is done, the run fails, or the developer cancels it. [`AgentRun`] makes
//! every decision of a run; the program around it talks to the model, waits
//! for approvals, touches files and records the transcript.

pub mod approval;
pub mod provider;
pub mod session;

use vstd::prelude::*;
use crate::error::{IdeError, Result};
use crate::agent::approval::{ApprovalKind, Decision};
use crate::agent::provider::{CompletionRequest, ProviderMessage};
use crate::agent::session::{AgentSession, SessionStatus, spec_is_terminal};
use crate::storage::Database;
use crate::storage::pairing::{read_device, stored_device};
use crate::storage::transcripts::{EntryType, EntryRow, TranscriptRepository, next_order_index, entry_of_row, entry_type_from_text};
use crate::network::protocol::{ServerMessage, TranscriptEntryPayload};
use crate::text::{concat2, concat3, spec_trim, spec_starts_with, starts_with, trim,
    is_white_space, trim_end};

verus! {

/// Instructions handed to the model. The engine only understands the JSON
/// action plan described here, so the contract is stated explicitly.
pub const SYSTEM_PROMPT: &'static str = "You are the T-ide coding agent. You work strictly inside the user's project folder. Reply with a single JSON object and nothing else, shaped as: {\"reasoning\": \"...\", \"actions\": [{\"type\": \"read_file\", \"path\": \"relative/path\"}, {\"type\": \"write_file\", \"path\": \"relative/path\", \"contents\": \"...\"}, {\"type\": \"delete_file\", \"path\": \"relative/path\"}, {\"type\": \"run_command\", \"command\": \"...\"}, {\"type\": \"message\", \"text\": \"...\"}], \"summary\": \"...\"}. Never reference paths outside the project folder.";

/// A single step the model asked the agent to perform.
#[derive(Debug, Clone, PartialEq, Eq)]
pub enum AgentAction {
    /// Read-only action: subject to the project's auto-approve setting.
    ReadFile { path: String },
    WriteFile { path: String, contents: String },
    DeleteFile { path: String },
    RunCommand { command: String },
    /// Plain text for the transcript; performs no work.
    Message { text: String },
}

/// Whether an action only reads state.
pub open spec fn spec_is_read_only(a: AgentAction) -> bool {
    a is ReadFile || a is Message
}

impl AgentAction {
    /// Whether the action only reads state.
    pub fn is_read_only(&self) -> (b: bool)
        ensures
            b == spec_is_read_only(*self),
    {
        match self {
            AgentAction::ReadFile { .. } => true,
            AgentAction::Message { .. } => true,
            _ => false,
        }
    }
}

/// The approval a non-message action asks for.
pub open spec fn spec_approval_kind(a: AgentAction) -> ApprovalKind {
    match a {
        AgentAction::RunCommand { .. } => ApprovalKind::Command,
        AgentAction::Message { .. } => ApprovalKind::Command,
        _ => ApprovalKind::FileChange,
    }
}

/// The kind of approval request an action makes: file operations ask for a
/// file change, commands (and messages) for a command.
pub fn approval_kind(action: &AgentAction) -> (k: ApprovalKind)
    ensures
        k == spec_approval_kind(*action),
{
    match action {
        AgentAction::RunCommand { .. } => ApprovalKind::Command,
        AgentAction::Message { .. } => ApprovalKind::Command,
        _ => ApprovalKind::FileChange,
    }
}

/// The model's answer to a prompt.
#[derive(Debug, Clone, PartialEq, Eq)]
pub struct AgentPlan {
    pub reasoning: String,
    pub actions: Vec<AgentAction>,
    pub summary: String,
}

/// `s` without leading carriage returns and line feeds.
pub open spec fn skip_line_breaks(s: Seq<char>) -> Seq<char>
    decreases s.len(),
{
    if s.len() > 0 && (s[0] == '\r' || s[0] == '\n') {
        skip_line_breaks(s.drop_first())
    } else {
        s
    }
}

/// A model reply without the Markdown code fence around it: a reply that
/// starts with three backticks loses them, an optional `json` tag, the line
/// breaks after it, trailing white space, and a closing fence; what is left
/// is trimmed. Any other reply is kept as it is.
pub open spec fn spec_strip_code_fence(reply: Seq<char>) -> Seq<char> {
    let fence = seq!['`', '`', '`'];
    if !spec_starts_with(reply, fence) {
        reply
    } else {
        let rest = reply.skip(3);
        let rest = if spec_starts_with(rest, seq!['j', 's', 'o', 'n']) { rest.skip(4) } else { rest };
        let rest = trim_end(skip_line_breaks(rest));
        let rest = if rest.len() >= 3 && rest.skip(rest.len() - 3) == fence {
            rest.take(rest.len() - 3)
        } else {
            rest
        };
        spec_trim(rest)
    }
}

/// Whether `s` ends with `suffix`.
fn ends_with(s: &str, suffix: &str) -> (b: bool)
    ensures
        b == (suffix@.len() <= s@.len() && s@.skip(s@.len() - suffix@.len()) == suffix@),
{
    let n = s.unicode_len();
    let m = suffix.unicode_len();
    if m > n {
        return false;
    }
    let mut i: usize = 0;
    while i < m
        invariant
            n == s@.len(),
            m == suffix@.len(),
            m <= n,
            i <= m,
            forall|j: int| 0 <= j < i ==> s@[n - m + j] == suffix@[j],
        decreases m - i,
    {
        if s.get_char(n - m + i) != suffix.get_char(i) {
            assert(s@.skip(n - m)[i as int] != suffix@[i as int]);
            return false;
        }
        i = i + 1;
    }
    assert(s@.skip(n - m) =~= suffix@);
    true
}

/// A reply with its Markdown code fence removed.
pub fn strip_code_fence(reply: &str) -> (r: String)
    ensures
        r@ == spec_strip_code_fence(reply@),
{
    proof {
        reveal_strlit("```");
        reveal_strlit("json");
        assert("```"@ =~= seq!['`', '`', '`']);
        assert("json"@ =~= seq!['j', 's', 'o', 'n']);
    }
    if !starts_with(reply, "```") {
        return reply.to_string();
    }
    let n = reply.unicode_len();
    let mut i: usize = 3;
    let rest = reply.substring_char(3, n);
    proof { assert(rest@ =~= reply@.skip(3)); }
    if starts_with(rest, "json") {
        i = 7;
    }
    let ghost tagged = if spec_starts_with(reply@.skip(3), seq!['j', 's', 'o', 'n']) { reply@.skip(7) } else { reply@.skip(3) };
    proof {
        if spec_starts_with(reply@.skip(3), seq!['j', 's', 'o', 'n']) {
            assert(reply@.skip(3).skip(4) =~= reply@.skip(7));
        }
        assert(reply@.skip(i as int) =~= tagged);
    }
    while i < n && (reply.get_char(i) == '\r' || reply.get_char(i) == '\n')
        invariant
            n == reply@.len(),
            i <= n,
            skip_line_breaks(tagged) == skip_line_breaks(reply@.skip(i as int)),
        decreases n - i,
    {
        assert(reply@.skip(i as int).drop_first() =~= reply@.skip(i + 1));
        i = i + 1;
    }
    assert(skip_line_breaks(reply@.skip(i as int)) == reply@.skip(i as int));
    let body = reply.substring_char(i, n);
    proof { assert(body@ =~= reply@.skip(i as int)); }
    let body = trim_end_text(body);
    let m = body.unicode_len();
    proof {
        assert(body@ == trim_end(skip_line_breaks(tagged)));
        assert(spec_starts_with(reply@, seq!['`', '`', '`']));
    }
    let fenced = ends_with(body.as_str(), "```");
    proof {
        assert(fenced == (body@.len() >= 3 && body@.skip(body@.len() - 3) == seq!['`', '`', '`']));
    }
    if fenced {
        let inner = body.as_str().substring_char(0, m - 3);
        proof { assert(inner@ =~= body@.take(m - 3)); }
        trim(inner)
    } else {
        trim(body.as_str())
    }
}

/// `s` without its trailing white space.
fn trim_end_text(s: &str) -> (r: String)
    ensures
        r@ == trim_end(s@),
{
    let n = s.unicode_len();
    let mut j: usize = n;
    assert(s@.subrange(0, n as int) =~= s@);
    while j > 0 && is_white_space(s.get_char(j - 1))
        invariant
            n == s@.len(),
            j <= n,
            trim_end(s@) == trim_end(s@.subrange(0, j as int)),
        decreases j,
    {
        assert(s@.subrange(0, j as int).drop_last() =~= s@.subrange(0, j - 1));
        j = j - 1;
    }
    let t = s.substring_char(0, j);
    t.to_string()
}

/// The user message of a prompt: the project folder, then the task.
pub open spec fn spec_user_message(root: Seq<char>, prompt: Seq<char>) -> Seq<char> {
    "Project folder: "@ + root + "\n\nTask: "@ + prompt
}

/// The request a prompt sends to the model: the system instructions, then
/// the user message.
pub fn completion_request(model: String, root: &str, prompt: &str) -> (r: CompletionRequest)
    ensures
        r.model == model,
        r.messages@.len() == 2,
        r.messages@[0].role@ == "system"@,
        r.messages@[0].content@ == SYSTEM_PROMPT@,
        r.messages@[1].role@ == "user"@,
        r.messages@[1].content@ == spec_user_message(root@, prompt@),
{
    let head = concat3("Project folder: ", root, "\n\nTask: ");
    let user = concat2(head.as_str(), prompt);
    let mut messages: Vec<ProviderMessage> = Vec::new();
    messages.push(ProviderMessage { role: "system".to_string(), content: SYSTEM_PROMPT.to_string() });
    messages.push(ProviderMessage { role: "user".to_string(), content: user });
    CompletionRequest { model, messages }
}

/// Where a run stands.
#[derive(Debug, Clone, Copy, PartialEq, Eq, Structural)]
pub enum RunPhase {
    /// Waiting for the model's plan.
    AwaitingPlan,
    /// Waiting for a decision on the action at `index`.
    Deciding { index: usize },
    /// Carrying out the action at `index`.
    Performing { index: usize },
    /// The run is over and the session takes `status`.
    Finished { status: SessionStatus },
}

/// What happened since the last step.
#[derive(Debug, Clone, PartialEq, Eq)]
pub enum RunEvent {
    /// The model replied with a plan of `actions`.
    Planned { actions: Vec<AgentAction> },
    /// The run failed: the model, its reply, or the transcript store.
    Failed,
    /// The action waiting for a decision was approved or denied.
    Decided { decision: Decision },
    /// The current action is over; if it failed, the error is recorded.
    Done,
    /// The developer cancelled the run while the program was waiting.
    Cancelled,
}

/// What the program does next.
#[derive(Debug, Clone, Copy, PartialEq, Eq, Structural)]
pub enum RunStep {
    /// Keep waiting for the event the run is waiting for.
    Wait,
    /// Record the message action at `index` in the transcript.
    Say { index: usize },
    /// Ask for approval of the action at `index`.
    Ask { index: usize },
    /// Carry out the action at `index`; `automatic` when it needed no
    /// request because it only reads and the project auto-approves reads.
    Perform { index: usize, automatic: bool },
    /// Stop and give the session `status`.
    Finish { status: SessionStatus },
}

/// How carrying out an action ended.
#[derive(Debug, Clone, Copy, PartialEq, Eq, Structural)]
pub enum ActionOutcome {
    /// The action ran; `cancelled` when it was a command that the developer
    /// stopped.
    Ran { cancelled: bool },
    /// The action failed; `recorded` when the failure made it into the
    /// transcript.
    Failed { recorded: bool },
}

/// The event an action's outcome leads to: a failed action whose failure
/// was recorded lets the run go on, one that could not be recorded fails
/// the run, and a stopped command cancels it.
pub open spec fn spec_event_after(outcome: ActionOutcome) -> RunEvent {
    match outcome {
        ActionOutcome::Ran { cancelled } => if cancelled { RunEvent::Cancelled } else { RunEvent::Done },
        ActionOutcome::Failed { recorded } => if recorded { RunEvent::Done } else { RunEvent::Failed },
    }
}

/// The event that follows an action.
pub fn event_after(outcome: ActionOutcome) -> (e: RunEvent)
    ensures
        e == spec_event_after(outcome),
{
    match outcome {
        ActionOutcome::Ran { cancelled } => if cancelled { RunEvent::Cancelled } else { RunEvent::Done },
        ActionOutcome::Failed { recorded } => if recorded { RunEvent::Done } else { RunEvent::Failed },
    }
}

/// The status a finished run leaves its session in. An interrupted run
/// stays interrupted once its cancellation is in the transcript; when that
/// could not be recorded, the run completes instead.
pub fn settled_status(status: SessionStatus, cancellation_recorded: bool) -> (s: SessionStatus)
    ensures
        s == (if status is Interrupted && !cancellation_recorded { SessionStatus::Complete } else { status }),
{
    match status {
        SessionStatus::Interrupted => if cancellation_recorded { SessionStatus::Interrupted } else { SessionStatus::Complete },
        other => other,
    }
}

/// The decision a run acts on while it waits for approval: the answer that
/// came, unless the developer cancelled the run; a request cancelled, or
/// left without an answer when its window passed, counts as denied.
pub fn decision_for(cancelled: bool, answer: Option<Decision>) -> (d: Decision)
    ensures
        cancelled ==> d == Decision::Denied,
        !cancelled ==> d == (match answer { Some(a) => a, None => Decision::Denied }),
{
    if cancelled {
        return Decision::Denied;
    }
    match answer {
        Some(a) => a,
        None => Decision::Denied,
    }
}

/// The state of a run as contracts see it.
pub struct RunState {
    pub actions: Seq<AgentAction>,
    pub auto_approve_read_only: bool,
    pub phase: RunPhase,
}

/// The phase and step of taking up the action at `i`, checking first for a
/// cancellation.
pub open spec fn spec_take_action(actions: Seq<AgentAction>, auto: bool, i: int, cancelled: bool) -> (RunPhase, RunStep) {
    if cancelled {
        (RunPhase::Finished { status: SessionStatus::Interrupted }, RunStep::Finish { status: SessionStatus::Interrupted })
    } else if i >= actions.len() {
        (RunPhase::Finished { status: SessionStatus::Complete }, RunStep::Finish { status: SessionStatus::Complete })
    } else if actions[i] is Message {
        (RunPhase::Performing { index: i as usize }, RunStep::Say { index: i as usize })
    } else if spec_is_read_only(actions[i]) && auto {
        (RunPhase::Performing { index: i as usize }, RunStep::Perform { index: i as usize, automatic: true })
    } else {
        (RunPhase::Deciding { index: i as usize }, RunStep::Ask { index: i as usize })
    }
}

/// The state after an event and the step that follows, `cancelled` telling
/// whether the developer has cancelled the run.
pub open spec fn spec_transition(s: RunState, event: RunEvent, cancelled: bool) -> (RunState, RunStep) {
    let interrupted = RunPhase::Finished { status: SessionStatus::Interrupted };
    let complete = RunPhase::Finished { status: SessionStatus::Complete };
    let with_phase = |p: RunPhase| RunState { phase: p, ..s };
    match s.phase {
        RunPhase::Finished { status } => (s, RunStep::Finish { status }),
        RunPhase::AwaitingPlan => match event {
            RunEvent::Planned { actions } => {
                let (p, step) = spec_take_action(actions@, s.auto_approve_read_only, 0, cancelled);
                (RunState { actions: actions@, auto_approve_read_only: s.auto_approve_read_only, phase: p }, step)
            },
            RunEvent::Failed => (with_phase(complete), RunStep::Finish { status: SessionStatus::Complete }),
            RunEvent::Cancelled => (with_phase(interrupted), RunStep::Finish { status: SessionStatus::Interrupted }),
            _ => (s, RunStep::Wait),
        },
        RunPhase::Deciding { index } => match event {
            RunEvent::Decided { decision } => {
                if decision == Decision::Approved {
                    if cancelled {
                        (with_phase(interrupted), RunStep::Finish { status: SessionStatus::Interrupted })
                    } else {
                        (with_phase(RunPhase::Performing { index }), RunStep::Perform { index, automatic: false })
                    }
                } else {
                    let (p, step) = spec_take_action(s.actions, s.auto_approve_read_only, index + 1, cancelled);
                    (with_phase(p), step)
                }
            },
            RunEvent::Done => {
                let (p, step) = spec_take_action(s.actions, s.auto_approve_read_only, index + 1, cancelled);
                (with_phase(p), step)
            },
            RunEvent::Failed => (with_phase(complete), RunStep::Finish { status: SessionStatus::Complete }),
            RunEvent::Cancelled => (with_phase(interrupted), RunStep::Finish { status: SessionStatus::Interrupted }),
            _ => (s, RunStep::Wait),
        },
        RunPhase::Performing { index } => match event {
            RunEvent::Done => {
                let (p, step) = spec_take_action(s.actions, s.auto_approve_read_only, index + 1, cancelled);
                (with_phase(p), step)
            },
            RunEvent::Failed => (with_phase(complete), RunStep::Finish { status: SessionStatus::Complete }),
            RunEvent::Cancelled => (with_phase(interrupted), RunStep::Finish { status: SessionStatus::Interrupted }),
            _ => (s, RunStep::Wait),
        },
    }
}

/// The action index a step concerns, when it concerns one.
pub open spec fn step_index(step: RunStep) -> Option<int> {
    match step {
        RunStep::Say { index } => Some(index as int),
        RunStep::Ask { index } => Some(index as int),
        RunStep::Perform { index, .. } => Some(index as int),
        _ => None,
    }
}

/// A denied action is skipped and the run goes on with the next action of
/// the plan: the run is not over while actions are left, and the step that
/// follows concerns the next action; only a denial of the last action
/// completes the run.
pub proof fn lemma_denial_skips_to_the_next_action(s: RunState, index: usize)
    requires
        well_formed(s),
        s.phase == (RunPhase::Deciding { index }),
    ensures
        ({
            let (t, step) = spec_transition(s, RunEvent::Decided { decision: Decision::Denied }, false);
            &&& t.actions == s.actions
            &&& index + 1 < s.actions.len() ==> !(t.phase is Finished) && step_index(step) == Some(index + 1)
                && phase_index(t.phase) == Some(index + 1)
            &&& index + 1 == s.actions.len() ==> t.phase == (RunPhase::Finished { status: SessionStatus::Complete })
                && step == (RunStep::Finish { status: SessionStatus::Complete })
        }),
{
}

/// Every decision of one prompt run.
pub struct AgentRun {
    actions: Vec<AgentAction>,
    auto_approve_read_only: bool,
    phase: RunPhase,
}

impl View for AgentRun {
    type V = RunState;

    closed spec fn view(&self) -> RunState {
        RunState { actions: self.actions@, auto_approve_read_only: self.auto_approve_read_only, phase: self.phase }
    }
}

/// The action index a phase is at, when it is at one.
pub open spec fn phase_index(p: RunPhase) -> Option<int> {
    match p {
        RunPhase::Deciding { index } => Some(index as int),
        RunPhase::Performing { index } => Some(index as int),
        _ => None,
    }
}

/// The phase stays within the plan, which fits in memory.
pub open spec fn well_formed(s: RunState) -> bool {
    &&& s.actions.len() <= usize::MAX
    &&& phase_index(s.phase) matches Some(i) ==> 0 <= i < s.actions.len()
}

/// A plan that arrives fits in memory.
pub open spec fn plan_fits(event: RunEvent) -> bool {
    event matches RunEvent::Planned { actions } ==> actions@.len() <= usize::MAX
}

proof fn lemma_take_action(actions: Seq<AgentAction>, auto: bool, i: int, cancelled: bool)
    requires
        0 <= i <= actions.len() <= usize::MAX,
    ensures
        ({
            let (p, step) = spec_take_action(actions, auto, i, cancelled);
            &&& phase_index(p) matches Some(j) ==> j == i && j < actions.len()
            &&& cancelled ==> p == (RunPhase::Finished { status: SessionStatus::Interrupted })
            &&& !(step is Wait)
            &&& step matches RunStep::Perform { index, automatic } ==> index == i && automatic
                && spec_is_read_only(actions[i]) && auto && p == (RunPhase::Performing { index })
            &&& step matches RunStep::Ask { index } ==> index == i && p == (RunPhase::Deciding { index })
                && !(actions[i] is Message) && !(spec_is_read_only(actions[i]) && auto)
            &&& step matches RunStep::Say { index } ==> index == i && p == (RunPhase::Performing { index })
            &&& (step is Finish) == (p is Finished)
        }),
{
}

impl AgentRun {
    #[verifier::type_invariant]
    spec fn inv(self) -> bool {
        well_formed(self@)
    }

    /// Start a run for `session`, in a project that auto-approves read-only
    /// actions when `auto_approve_read_only` is set. A session that is
    /// already over cannot run.
    pub fn start(session: &AgentSession, auto_approve_read_only: bool) -> (r: Result<AgentRun>)
        ensures
            spec_is_terminal(session.status) ==> r is Err && r->Err_0 is SessionNotActive,
            !spec_is_terminal(session.status) ==> r is Ok && r->Ok_0@ == (RunState {
                actions: Seq::empty(),
                auto_approve_read_only,
                phase: RunPhase::AwaitingPlan,
            }),
    {
        if session.status.is_terminal() {
            return Err(IdeError::SessionNotActive);
        }
        let r = AgentRun { actions: Vec::new(), auto_approve_read_only, phase: RunPhase::AwaitingPlan };
        assert(r@.actions =~= Seq::<AgentAction>::empty());
        Ok(r)
    }

    /// The planned actions.
    pub fn actions(&self) -> (r: &Vec<AgentAction>)
        ensures
            r@ == self@.actions,
    {
        &self.actions
    }

    /// Where the run stands.
    pub fn phase(&self) -> (r: RunPhase)
        ensures
            r == self@.phase,
            well_formed(self@),
    {
        proof { use_type_invariant(self); }
        self.phase
    }

    /// Take an event and say what to do next. `cancelled` tells whether the
    /// developer has cancelled the run; it is looked at before each action
    /// and after each approval, as the run checks for cancellation there.
    pub fn advance(&mut self, event: RunEvent, cancelled: bool) -> (step: RunStep)
        ensures
            (final(self)@, step) == spec_transition(old(self)@, event, cancelled),
    {
        proof { use_type_invariant(&*self); }
        let auto = self.auto_approve_read_only;
        match self.phase {
            RunPhase::Finished { status } => RunStep::Finish { status },
            RunPhase::AwaitingPlan => match event {
                RunEvent::Planned { actions } => {
                    let planned = actions.len();
                    assert(planned == actions@.len());
                    let (p, step) = take_action(&actions, auto, 0, cancelled);
                    *self = AgentRun { actions, auto_approve_read_only: auto, phase: p };
                    step
                },
                RunEvent::Failed => self.finish(SessionStatus::Complete),
                RunEvent::Cancelled => self.finish(SessionStatus::Interrupted),
                _ => RunStep::Wait,
            },
            RunPhase::Deciding { index } => match event {
                RunEvent::Decided { decision } => {
                    if decision == Decision::Approved {
                        if cancelled {
                            self.finish(SessionStatus::Interrupted)
                        } else {
                            self.set_phase(RunPhase::Performing { index });
                            RunStep::Perform { index, automatic: false }
                        }
                    } else {
                        self.next_action(index, cancelled)
                    }
                },
                RunEvent::Done => self.next_action(index, cancelled),
                RunEvent::Failed => self.finish(SessionStatus::Complete),
                RunEvent::Cancelled => self.finish(SessionStatus::Interrupted),
                _ => RunStep::Wait,
            },
            RunPhase::Performing { index } => match event {
                RunEvent::Done => self.next_action(index, cancelled),
                RunEvent::Failed => self.finish(SessionStatus::Complete),
                RunEvent::Cancelled => self.finish(SessionStatus::Interrupted),
                _ => RunStep::Wait,
            },
        }
    }

    fn set_phase(&mut self, p: RunPhase)
        requires
            well_formed(RunState { phase: p, ..old(self)@ }),
        ensures
            final(self)@ == (RunState { phase: p, ..old(self)@ }),
    {
        self.phase = p;
    }

    fn finish(&mut self, status: SessionStatus) -> (step: RunStep)
        ensures
            final(self)@ == (RunState { phase: RunPhase::Finished { status }, ..old(self)@ }),
            step == (RunStep::Finish { status }),
    {
        proof { use_type_invariant(&*self); }
        self.set_phase(RunPhase::Finished { status });
        RunStep::Finish { status }
    }

    fn next_action(&mut self, index: usize, cancelled: bool) -> (step: RunStep)
        requires
            index < old(self)@.actions.len(),
        ensures
            ({
                let (p, s) = spec_take_action(old(self)@.actions, old(self)@.auto_approve_read_only, index + 1, cancelled);
                final(self)@ == (RunState { phase: p, ..old(self)@ }) && step == s
            }),
    {
        proof { use_type_invariant(&*self); }
        let n = self.actions.len();
        assert(index < n);
        let (p, step) = take_action(&self.actions, self.auto_approve_read_only, index + 1, cancelled);
        self.set_phase(p);
        step
    }
}

/// The phase and step of taking up the action at `i`.
fn take_action(actions: &Vec<AgentAction>, auto: bool, i: usize, cancelled: bool) -> (r: (RunPhase, RunStep))
    requires
        i <= actions@.len(),
    ensures
        r == spec_take_action(actions@, auto, i as int, cancelled),
        phase_index(r.0) matches Some(j) ==> 0 <= j < actions@.len(),
{
    if cancelled {
        (RunPhase::Finished { status: SessionStatus::Interrupted }, RunStep::Finish { status: SessionStatus::Interrupted })
    } else if i >= actions.len() {
        (RunPhase::Finished { status: SessionStatus::Complete }, RunStep::Finish { status: SessionStatus::Complete })
    } else {
        match &actions[i] {
            AgentAction::Message { .. } => (RunPhase::Performing { index: i }, RunStep::Say { index: i }),
            a => {
                if a.is_read_only() && auto {
                    (RunPhase::Performing { index: i }, RunStep::Perform { index: i, automatic: true })
                } else {
                    (RunPhase::Deciding { index: i }, RunStep::Ask { index: i })
                }
            },
        }
    }
}



/// Whether `m` streams a transcript entry of `session_id` of type
/// `entry_type` holding `content`, stored in `rows`, with the name of the
/// device it came from.
pub open spec fn streams_entry(rows: Map<(crate::storage::rows::Table, i64), crate::storage::rows::StoredRow>, m: ServerMessage,
    session_id: i64, entry_type: EntryType, origin_device_id: Option<i64>, content: Seq<char>) -> bool {
    match m {
        ServerMessage::TranscriptEntryMessage { session_id: sid, entry } => {
            &&& sid == session_id
            &&& entry.entry_type == entry_type
            &&& entry.content@ == content
            &&& origin_device_id is None ==> entry.origin_device_name is None
            &&& origin_device_id matches Some(d) ==> entry.origin_device_name is Some
                && stored_device(rows, d) is Some
                && entry.origin_device_name->0@ == stored_device(rows, d)->0.device_name@
        },
        _ => false,
    }
}

/// Whether `after` is `before` with one more entry of `session_id`, the one
/// that `m` streams, stored under the next order index of the session.
pub open spec fn appended_streamed(
    before: Map<(crate::storage::rows::Table, i64), crate::storage::rows::StoredRow>,
    after: Map<(crate::storage::rows::Table, i64), crate::storage::rows::StoredRow>,
    m: ServerMessage,
    session_id: i64,
) -> bool {
    match m {
        ServerMessage::TranscriptEntryMessage { entry, .. } => exists|id: i64, row: EntryRow|
            #[trigger] crate::storage::rows::row_inserted(before, after, (crate::storage::rows::Table::Entries, id),
                crate::storage::rows::StoredRow::Entry(row))
            && row.session_id == session_id && row.order_index == entry.order_index
            && next_order_index(before, session_id, entry.order_index as int)
            && row.content@ == entry.content@ && row.created_at@ == entry.created_at@
            && entry_type_from_text(row.entry_type@) == Some(entry.entry_type),
        _ => false,
    }
}

/// Append an entry to the transcript of `session_id` and give the frame that
/// streams it to every connected client, naming the device it came from.
pub fn record(db: &mut Database, session_id: i64, entry_type: EntryType, origin_device_id: Option<i64>, content: &str) -> (r: Result<ServerMessage>)
    ensures
        r matches Ok(m) ==> streams_entry(final(db).rows(), m, session_id, entry_type, origin_device_id, content@),
        r matches Ok(m) ==> appended_streamed(old(db).rows(), final(db).rows(), m, session_id),
        r matches Err(e) ==> e is Database || e is Validation || e is NotFound,
        r matches Err(e) && e is Validation ==> next_order_index(old(db).rows(), session_id, i64::MAX as int + 1),
        r matches Err(e) && e is NotFound ==> origin_device_id is Some
            && stored_device(old(db).rows(), origin_device_id->0) is None,
        !next_order_index(old(db).rows(), session_id, i64::MAX as int + 1)
            && (origin_device_id is Some ==> stored_device(old(db).rows(), origin_device_id->0) is Some)
            ==> r is Ok || r->Err_0 is Database,
        r is Err ==> final(db).rows() == old(db).rows() || exists|id: i64, row: EntryRow|
            #[trigger] crate::storage::rows::row_inserted(old(db).rows(), final(db).rows(),
                (crate::storage::rows::Table::Entries, id), crate::storage::rows::StoredRow::Entry(row))
            && row.session_id == session_id,
{
    let ghost before = db.rows();
    let appended = {
        let mut repo = TranscriptRepository::new(db);
        repo.append(session_id, entry_type, origin_device_id, content)
    };
    let entry = match appended {
        Ok(e) => e,
        Err(e) => return Err(e),
    };
    let ghost row = choose|row: EntryRow| crate::storage::rows::row_inserted(before, db.rows(),
        (crate::storage::rows::Table::Entries, entry.id), crate::storage::rows::StoredRow::Entry(row));
    proof {
        assert(db.rows()[(crate::storage::rows::Table::Entries, entry.id)] == crate::storage::rows::StoredRow::Entry(row));
        assert(entry_of_row(row) == Some(entry));
        if origin_device_id is Some {
            assert(stored_device(db.rows(), origin_device_id->0) == stored_device(before, origin_device_id->0));
        }
        assert(crate::storage::rows::row_inserted(before, db.rows(), (crate::storage::rows::Table::Entries, entry.id),
            crate::storage::rows::StoredRow::Entry(row)));
    }
    let origin_device_name = match origin_device_id {
        Some(device_id) => {
            let device = match read_device(db, device_id) {
                Ok(d) => d,
                Err(e) => return Err(e),
            };
            Some(device.device_name)
        },
        None => None,
    };
    let m = ServerMessage::TranscriptEntryMessage {
        session_id,
        entry: TranscriptEntryPayload::new(&entry, origin_device_name),
    };
    proof {
        assert(crate::storage::rows::row_inserted(before, db.rows(), (crate::storage::rows::Table::Entries, entry.id),
            crate::storage::rows::StoredRow::Entry(row)));
    }
    Ok(m)
}

/// A finished run stays finished: every event leaves it as it is and only
/// repeats its final status.
pub proof fn lemma_finished_run_stays_finished(s: RunState, event: RunEvent, cancelled: bool)
    requires
        s.phase is Finished,
    ensures
        spec_transition(s, event, cancelled).0 == s,
        spec_transition(s, event, cancelled).1 == (RunStep::Finish { status: s.phase->status }),
{
}

/// Nothing that changes the machine runs without an explicit approval: an
/// action is carried out automatically only when it reads and the project
/// auto-approves reads, and otherwise only right after it was approved while
/// the run was not cancelled.
pub proof fn lemma_changes_need_approval(s: RunState, event: RunEvent, cancelled: bool)
    requires
        well_formed(s),
        plan_fits(event),
    ensures
        ({
            let (t, step) = spec_transition(s, event, cancelled);
            step matches RunStep::Perform { index, automatic } ==> {
                &&& 0 <= index < t.actions.len()
                &&& t.phase == (RunPhase::Performing { index })
                &&& automatic ==> spec_is_read_only(t.actions[index as int]) && t.auto_approve_read_only
                &&& !automatic ==> s.phase == (RunPhase::Deciding { index }) && event == (RunEvent::Decided {
                    decision: Decision::Approved,
                }) && !cancelled
            }
        }),
{
    match s.phase {
        RunPhase::AwaitingPlan => {
            if let RunEvent::Planned { actions } = event {
                lemma_take_action(actions@, s.auto_approve_read_only, 0, cancelled);
            }
        },
        RunPhase::Deciding { index } => {
            lemma_take_action(s.actions, s.auto_approve_read_only, index + 1, cancelled);
        },
        RunPhase::Performing { index } => {
            lemma_take_action(s.actions, s.auto_approve_read_only, index + 1, cancelled);
        },
        RunPhase::Finished { .. } => {},
    }
}

/// Approval is asked only for actions that change something or for reads in
/// a project that does not auto-approve them; messages are never asked for.
pub proof fn lemma_asks_only_when_needed(s: RunState, event: RunEvent, cancelled: bool)
    requires
        well_formed(s),
        plan_fits(event),
    ensures
        ({
            let (t, step) = spec_transition(s, event, cancelled);
            step matches RunStep::Ask { index } ==> {
                &&& 0 <= index < t.actions.len()
                &&& t.phase == (RunPhase::Deciding { index })
                &&& !(t.actions[index as int] is Message)
                &&& !(spec_is_read_only(t.actions[index as int]) && t.auto_approve_read_only)
            }
        }),
{
    match s.phase {
        RunPhase::AwaitingPlan => {
            if let RunEvent::Planned { actions } = event {
                lemma_take_action(actions@, s.auto_approve_read_only, 0, cancelled);
            }
        },
        RunPhase::Deciding { index } => {
            lemma_take_action(s.actions, s.auto_approve_read_only, index + 1, cancelled);
        },
        RunPhase::Performing { index } => {
            lemma_take_action(s.actions, s.auto_approve_read_only, index + 1, cancelled);
        },
        RunPhase::Finished { .. } => {},
    }
}

/// Once the developer has cancelled, no further action is taken up: the run
/// either keeps waiting or stops, and it stops as interrupted unless the
/// event was a failure.
pub proof fn lemma_cancellation_interrupts(s: RunState, event: RunEvent)
    requires
        !(s.phase is Finished),
    ensures
        ({
            let (t, step) = spec_transition(s, event, true);
            &&& !(step is Say || step is Ask || step is Perform)
            &&& !(step is Wait) && !(event is Failed) ==> t.phase == (RunPhase::Finished { status: SessionStatus::Interrupted })
            &&& event is Cancelled ==> t.phase == (RunPhase::Finished { status: SessionStatus::Interrupted })
        }),
{
}

/// Whether the action index moves forward by at most one.
pub open spec fn index_moves_forward(p: RunPhase, q: RunPhase) -> bool {
    match (phase_index(p), phase_index(q)) {
        (Some(i), Some(j)) => i <= j <= i + 1,
        _ => true,
    }
}

/// Actions are taken up in plan order, each once: the index never goes back
/// and never skips an action, and the plan itself only changes when it
/// arrives.
pub proof fn lemma_actions_in_plan_order(s: RunState, event: RunEvent, cancelled: bool)
    requires
        well_formed(s),
        plan_fits(event),
    ensures
        ({
            let (t, step) = spec_transition(s, event, cancelled);
            &&& index_moves_forward(s.phase, t.phase)
            &&& !(s.phase is AwaitingPlan) ==> t.actions == s.actions
            &&& t.auto_approve_read_only == s.auto_approve_read_only
            &&& well_formed(t)
        }),
{
    match s.phase {
        RunPhase::AwaitingPlan => {
            if let RunEvent::Planned { actions } = event {
                lemma_take_action(actions@, s.auto_approve_read_only, 0, cancelled);
            }
        },
        RunPhase::Deciding { index } => {
            lemma_take_action(s.actions, s.auto_approve_read_only, index + 1, cancelled);
        },
        RunPhase::Performing { index } => {
            lemma_take_action(s.actions, s.auto_approve_read_only, index + 1, cancelled);
        },
        RunPhase::Finished { .. } => {},
    }
}

} // verus!
