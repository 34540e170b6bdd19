use vstd::prelude::*;
use crate::invite::{InviteOutcome, InviteReply, OutcomeView, classify, outcome_of};
use crate::record::{ChannelRecord, RecordView, views_of};
use crate::store::StoreError;
use crate::text::{ends_with_text, is_suffix_of, same_text};

verus! {

/// The operation asked for on the command line.
#[derive(Debug, PartialEq, Eq)]
pub enum Command {
    /// Fetch the directory and append it to the store, keeping channels whose
    /// name holds `filter` (all of them when it is empty).
    List { filter: String },
    /// Stage the store and invite `user_id` to every staged channel.
    Invite { user_id: String },
    /// Anything else: reported with a usage hint, with no side effect.
    Unknown { name: String },
}

/// Reads the operation name. `list` (or its older name `channels`) lists,
/// `invite` invites; any other name is unknown.
pub fn parse_command(name: String, user_id: String, filter: String) -> (r: Command)
    ensures
        (name@ == "list"@ || name@ == "channels"@) ==> r == (Command::List { filter }),
        (name@ != "list"@ && name@ != "channels"@ && name@ == "invite"@) ==> r == (Command::Invite { user_id }),
        (name@ != "list"@ && name@ != "channels"@ && name@ != "invite"@) ==> r == (Command::Unknown { name }),
{
    if same_text(name.as_str(), "list") || same_text(name.as_str(), "channels") {
        Command::List { filter }
    } else if same_text(name.as_str(), "invite") {
        Command::Invite { user_id }
    } else {
        Command::Unknown { name }
    }
}

/// The message for an unknown operation name, with a usage hint.
pub fn unknown_command_message(name: &str) -> (r: String)
    ensures
        r@ == name@ + ": unknown command\nRun 'chinviter help' for usage."@,
{
    let mut r = String::from_str(name);
    r.append(": unknown command\nRun 'chinviter help' for usage.");
    r
}

/// Why an invite run stopped without finishing.
#[derive(Clone, Copy, Debug, PartialEq, Eq, Structural)]
pub enum RunError {
    /// No user id was given.
    MissingUser,
    /// The acting user's profile could not be resolved.
    LookupFailed,
    /// The acting user's email is outside the allowed domain.
    DomainRejected,
    /// The staging copy or the read of the staged rows failed.
    Store(StoreError),
    /// The source file could not be removed.
    RemoveFailed,
}

/// Where an invite run stands.
#[derive(Clone, Copy, Debug, PartialEq, Eq, Structural)]
pub enum Phase {
    /// Waiting for the acting user's email, to check its domain.
    CheckingEmail,
    /// Waiting for the store to be copied into the staging file.
    Staging,
    /// Waiting for the staged rows to be read.
    Loading,
    /// Inviting, one staged row after another.
    Inviting,
    /// Every row has an outcome; waiting for the source file to be removed.
    Removing,
    /// Done.
    Finished,
    /// Stopped on a fatal error; nothing more happens.
    Failed(RunError),
}

/// What the caller is to do next.
#[derive(Debug, PartialEq, Eq)]
pub enum Action {
    /// Resolve the acting user's profile and report its email.
    LookupEmail,
    /// Copy the store into a fresh staging file.
    Stage,
    /// Read every row of the staging file.
    LoadTargets,
    /// Issue one invite call for this channel, then wait the cool-down.
    Invite { channel_id: String },
    /// Delete the source file.
    RemoveSource,
    /// The run completed.
    Finish,
    /// The run stopped on this error.
    Fail(RunError),
}

/// What the caller reports back after an action.
#[derive(Debug)]
pub enum Event {
    EmailFound(String),
    EmailLookupFailed,
    Staged,
    StageFailed(StoreError),
    TargetsLoaded(Vec<ChannelRecord>),
    LoadFailed(StoreError),
    Replied(InviteReply),
    SourceRemoved,
    RemoveFailed,
}

/// The state of an invite run.
#[derive(Debug)]
pub struct InviteRun {
    user_id: String,
    allowed_domain: Option<String>,
    phase: Phase,
    targets: Vec<ChannelRecord>,
    outcomes: Vec<InviteOutcome>,
}

/// The mathematical value of an [`InviteRun`].
pub struct RunView {
    pub user_id: Seq<char>,
    pub allowed_domain: Option<Seq<char>>,
    pub phase: Phase,
    pub targets: Seq<RecordView>,
    pub outcomes: Seq<OutcomeView>,
}

impl View for InviteRun {
    type V = RunView;

    closed spec fn view(&self) -> RunView {
        RunView {
            user_id: self.user_id@,
            allowed_domain: match self.allowed_domain {
                Some(d) => Some(d@),
                None => None,
            },
            phase: self.phase,
            targets: views_of(self.targets@),
            outcomes: self.outcomes@.map_values(|o: InviteOutcome| o@),
        }
    }
}

/// The states that a run passes through: an email check only under an allowed
/// domain, no outcome before the rows are loaded, one outcome per row invited
/// so far, and every row's outcome once inviting is over.
pub open spec fn run_wf(s: RunView) -> bool {
    &&& s.outcomes.len() <= s.targets.len()
    &&& s.phase == Phase::CheckingEmail ==> s.allowed_domain is Some
    &&& (s.phase == Phase::CheckingEmail || s.phase == Phase::Staging || s.phase == Phase::Loading)
        ==> s.outcomes.len() == 0
    &&& s.phase == Phase::Inviting ==> s.outcomes.len() < s.targets.len()
    &&& (s.phase == Phase::Removing || s.phase == Phase::Finished) ==> s.outcomes.len() == s.targets.len()
}

/// The phase a run starts in.
pub open spec fn start_phase(user_id: Seq<char>, allowed_domain: Option<Seq<char>>) -> Phase {
    if user_id.len() == 0 {
        Phase::Failed(RunError::MissingUser)
    } else if allowed_domain is Some {
        Phase::CheckingEmail
    } else {
        Phase::Staging
    }
}

/// The run after one event. An event that does not belong to the current
/// phase leaves the run as it is.
pub open spec fn run_step(s: RunView, e: Event) -> RunView {
    match s.phase {
        Phase::CheckingEmail => match e {
            Event::EmailFound(email) =>
                if is_suffix_of(s.allowed_domain->0, email@) {
                    RunView { phase: Phase::Staging, ..s }
                } else {
                    RunView { phase: Phase::Failed(RunError::DomainRejected), ..s }
                },
            Event::EmailLookupFailed => RunView { phase: Phase::Failed(RunError::LookupFailed), ..s },
            _ => s,
        },
        Phase::Staging => match e {
            Event::Staged => RunView { phase: Phase::Loading, ..s },
            Event::StageFailed(err) => RunView { phase: Phase::Failed(RunError::Store(err)), ..s },
            _ => s,
        },
        Phase::Loading => match e {
            Event::TargetsLoaded(rows) => RunView {
                phase: if rows.len() == 0 { Phase::Removing } else { Phase::Inviting },
                targets: views_of(rows@),
                ..s
            },
            Event::LoadFailed(err) => RunView { phase: Phase::Failed(RunError::Store(err)), ..s },
            _ => s,
        },
        Phase::Inviting => match e {
            Event::Replied(reply) => {
                let outcomes = s.outcomes.push(outcome_of(reply));
                RunView {
                    phase: if outcomes.len() >= s.targets.len() { Phase::Removing } else { Phase::Inviting },
                    outcomes,
                    ..s
                }
            },
            _ => s,
        },
        Phase::Removing => match e {
            Event::SourceRemoved => RunView { phase: Phase::Finished, ..s },
            Event::RemoveFailed => RunView { phase: Phase::Failed(RunError::RemoveFailed), ..s },
            _ => s,
        },
        Phase::Finished => s,
        Phase::Failed(_) => s,
    }
}

/// The run after a sequence of events, one after another.
pub open spec fn run_steps(s: RunView, events: Seq<Event>) -> RunView
    decreases events.len(),
{
    if events.len() == 0 {
        s
    } else {
        run_steps(run_step(s, events[0]), events.drop_first())
    }
}

/// The action that a run asks for: `Invite` names the channel of the first
/// staged row that has no outcome yet.
pub open spec fn action_fits(a: Action, s: RunView) -> bool {
    match a {
        Action::LookupEmail => s.phase == Phase::CheckingEmail,
        Action::Stage => s.phase == Phase::Staging,
        Action::LoadTargets => s.phase == Phase::Loading,
        Action::Invite { channel_id } => s.phase == Phase::Inviting && channel_id@ == s.targets[s.outcomes.len() as int].id,
        Action::RemoveSource => s.phase == Phase::Removing,
        Action::Finish => s.phase == Phase::Finished,
        Action::Fail(e) => s.phase == Phase::Failed(e),
    }
}

impl InviteRun {
    /// Starts an invite run for `user_id`. An empty user id stops it at once;
    /// with an allowed domain it first checks the acting user's email,
    /// without one it goes straight to staging.
    pub fn start(user_id: String, allowed_domain: Option<String>) -> (r: InviteRun)
        ensures
            r@.user_id == user_id@,
            r@.allowed_domain == (match allowed_domain { Some(d) => Some(d@), None => None::<Seq<char>> }),
            r@.phase == start_phase(user_id@, r@.allowed_domain),
            r@.targets.len() == 0,
            r@.outcomes.len() == 0,
            run_wf(r@),
    {
        let phase = if user_id.as_str().unicode_len() == 0 {
            Phase::Failed(RunError::MissingUser)
        } else if allowed_domain.is_some() {
            Phase::CheckingEmail
        } else {
            Phase::Staging
        };
        let r = InviteRun { user_id, allowed_domain, phase, targets: Vec::new(), outcomes: Vec::new() };
        assert(r@.targets =~= Seq::<RecordView>::empty());
        assert(r@.outcomes =~= Seq::<OutcomeView>::empty());
        r
    }

    /// The user being invited.
    pub fn user_id(&self) -> (r: &str)
        ensures
            r@ == self@.user_id,
    {
        self.user_id.as_str()
    }

    /// Where the run stands.
    pub fn phase(&self) -> (r: Phase)
        ensures
            r == self@.phase,
    {
        self.phase
    }

    /// The outcomes so far, one per staged row in row order.
    pub fn outcomes(&self) -> (r: &Vec<InviteOutcome>)
        ensures
            r@.map_values(|o: InviteOutcome| o@) == self@.outcomes,
    {
        &self.outcomes
    }

    /// What the caller is to do next.
    pub fn next_action(&self) -> (r: Action)
        requires
            run_wf(self@),
        ensures
            action_fits(r, self@),
    {
        match self.phase {
            Phase::CheckingEmail => Action::LookupEmail,
            Phase::Staging => Action::Stage,
            Phase::Loading => Action::LoadTargets,
            Phase::Inviting => {
                let i = self.outcomes.len();
                assert(views_of(self.targets@)[i as int] == self.targets@[i as int]@);
                Action::Invite { channel_id: self.targets[i].id.clone() }
            },
            Phase::Removing => Action::RemoveSource,
            Phase::Finished => Action::Finish,
            Phase::Failed(e) => Action::Fail(e),
        }
    }

    /// Takes in what came of the last action.
    pub fn on_event(&mut self, event: Event)
        requires
            run_wf(old(self)@),
        ensures
            final(self)@ == run_step(old(self)@, event),
            run_wf(final(self)@),
    {
        let ghost s = self@;
        let ghost e = event;
        match self.phase {
            Phase::CheckingEmail => match event {
                Event::EmailFound(email) => {
                    let allowed = match &self.allowed_domain {
                        Some(d) => ends_with_text(email.as_str(), d.as_str()),
                        None => true,
                    };
                    self.phase = if allowed { Phase::Staging } else { Phase::Failed(RunError::DomainRejected) };
                },
                Event::EmailLookupFailed => {
                    self.phase = Phase::Failed(RunError::LookupFailed);
                },
                _ => {},
            },
            Phase::Staging => match event {
                Event::Staged => {
                    self.phase = Phase::Loading;
                },
                Event::StageFailed(err) => {
                    self.phase = Phase::Failed(RunError::Store(err));
                },
                _ => {},
            },
            Phase::Loading => match event {
                Event::TargetsLoaded(rows) => {
                    self.phase = if rows.len() == 0 { Phase::Removing } else { Phase::Inviting };
                    self.targets = rows;
                },
                Event::LoadFailed(err) => {
                    self.phase = Phase::Failed(RunError::Store(err));
                },
                _ => {},
            },
            Phase::Inviting => match event {
                Event::Replied(reply) => {
                    let outcome = classify(reply);
                    self.outcomes.push(outcome);
                    self.phase = if self.outcomes.len() >= self.targets.len() {
                        Phase::Removing
                    } else {
                        Phase::Inviting
                    };
                    assert(self@.outcomes =~= s.outcomes.push(outcome_of(reply)));
                },
                _ => {},
            },
            Phase::Removing => match event {
                Event::SourceRemoved => {
                    self.phase = Phase::Finished;
                },
                Event::RemoveFailed => {
                    self.phase = Phase::Failed(RunError::RemoveFailed);
                },
                _ => {},
            },
            Phase::Finished => {},
            Phase::Failed(_) => {},
        }
        assert(self@ =~= run_step(s, e));
    }
}

/// Every event keeps a run in one of the states [`run_wf`] describes.
pub proof fn lemma_step_wf(s: RunView, e: Event)
    requires
        run_wf(s),
    ensures
        run_wf(run_step(s, e)),
{
}

/// A failed run is final: whatever is reported afterwards, it stays as it
/// is, so it never stages, invites or removes the source file.
pub proof fn lemma_failure_is_final(s: RunView, err: RunError, events: Seq<Event>)
    requires
        s.phase == Phase::Failed(err),
    ensures
        run_steps(s, events) == s,
    decreases events.len(),
{
    if events.len() > 0 {
        lemma_failure_is_final(s, err, events.drop_first());
    }
}

/// The source file is removed only once every staged row has its outcome.
pub proof fn lemma_remove_only_after_every_row(s: RunView)
    requires
        run_wf(s),
        action_fits(Action::RemoveSource, s),
    ensures
        s.outcomes.len() == s.targets.len(),
{
}

/// The invite loop goes on past failures: from any point of the loop, the
/// remaining replies, whatever they are, give each remaining row exactly one
/// outcome in row order (a failed request marks only its own row), and the
/// run then asks for the source file to be removed.
pub proof fn lemma_invite_loop_resilience(s: RunView, replies: Seq<InviteReply>)
    requires
        run_wf(s),
        s.phase == Phase::Inviting,
        s.outcomes.len() + replies.len() == s.targets.len(),
    ensures
        run_steps(s, replies.map_values(|r: InviteReply| Event::Replied(r))).outcomes
            == s.outcomes + replies.map_values(|r: InviteReply| outcome_of(r)),
        action_fits(Action::RemoveSource, run_steps(s, replies.map_values(|r: InviteReply| Event::Replied(r)))),
    decreases replies.len(),
{
    let events = replies.map_values(|r: InviteReply| Event::Replied(r));
    let next = run_step(s, events[0]);
    lemma_step_wf(s, events[0]);
    let rest = replies.drop_first();
    assert(events.drop_first() =~= rest.map_values(|r: InviteReply| Event::Replied(r)));
    if replies.len() == 1 {
        assert(rest.map_values(|r: InviteReply| Event::Replied(r)) =~= Seq::<Event>::empty());
        assert(s.outcomes + replies.map_values(|r: InviteReply| outcome_of(r)) =~= next.outcomes);
    } else {
        lemma_invite_loop_resilience(next, rest);
        assert(s.outcomes + replies.map_values(|r: InviteReply| outcome_of(r))
            =~= next.outcomes + rest.map_values(|r: InviteReply| outcome_of(r)));
    }
}

/// With an allowed domain and an email that does not end with it, the run
/// stops before staging. Until the email comes, the only thing it asks for is
/// the profile lookup; from then on, whatever is reported, it stays stopped on
/// the domain, and so never asks to stage a file, to issue an invite or to
/// remove the source file.
pub proof fn lemma_gate_short_circuit(s: RunView, email: String, events: Seq<Event>)
    requires
        run_wf(s),
        s.phase == Phase::CheckingEmail,
        !is_suffix_of(s.allowed_domain->0, email@),
    ensures
        forall|a: Action| #[trigger] action_fits(a, s) ==> a == Action::LookupEmail,
        run_step(s, Event::EmailFound(email)).phase == Phase::Failed(RunError::DomainRejected),
        forall|k: int| 0 <= k <= events.len() ==>
            #[trigger] run_steps(run_step(s, Event::EmailFound(email)), events.subrange(0, k))
                == run_step(s, Event::EmailFound(email)),
        forall|a: Action| #[trigger] action_fits(a, run_step(s, Event::EmailFound(email)))
            ==> a == Action::Fail(RunError::DomainRejected),
{
    let gated = run_step(s, Event::EmailFound(email));
    assert forall|k: int| 0 <= k <= events.len() implies
        #[trigger] run_steps(gated, events.subrange(0, k)) == gated by {
        lemma_failure_is_final(gated, RunError::DomainRejected, events.subrange(0, k));
    }
}
} // verus!
