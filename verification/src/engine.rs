//! The protocol state machine that drives one session: registration,
//! welcome-sequence wait, channel join, package requests, and the reaction
//! to every classified incoming line, including resume negotiation and
//! flow-control notices.
//!
//! The engine owns no socket: a caller feeds it connection events and
//! complete lines and carries out the actions each step returns (write the
//! rendered commands in order, probe a local file's size, or hand a
//! descriptor to a transfer worker). The caller also drives the two
//! watchdogs, reporting cancellation and inactivity; the engine decides
//! what they mean for the session.

use vstd::prelude::*;
use vstd::utf8::encode_utf8;
use vstd::string::StrSliceExecFns;
use crate::bytes::copy_bytes;
use crate::classify::{classify, classify_spec, MessageClass};
use crate::commands::Command;
use crate::descriptor::{
    descriptor_of_line, lemma_accept_parse_total, lemma_send_parse_total, parse_dcc_accept_port,
    parse_dcc_send, spec_parse_dcc_accept, TransferDescriptor,
};
use crate::resume::ResumeTable;

verus! {

/// One download order: which server and channel to use, under what name,
/// and which packages to request from which bot.
pub struct IRCRequest {
    pub server: String,
    pub channel: String,
    pub nickname: String,
    pub bot: String,
    pub packages: Vec<i32>,
}

/// The engine's working copy of the order, as wire bytes. The server
/// address stays with the caller, which owns the connection.
pub struct SessionConfig {
    pub channel: Vec<u8>,
    pub nickname: Vec<u8>,
    pub bot: Vec<u8>,
    pub packages: Vec<i32>,
}

impl SessionConfig {
    /// The wire form of a request: each text field UTF-8 encoded.
    pub fn from_request(req: &IRCRequest) -> (r: SessionConfig)
        ensures
            r.channel@ == encode_utf8(req.channel@),
            r.nickname@ == encode_utf8(req.nickname@),
            r.bot@ == encode_utf8(req.bot@),
            r.packages@ == req.packages@,
    {
        SessionConfig {
            channel: req.channel.as_str().as_bytes_vec(),
            nickname: req.nickname.as_str().as_bytes_vec(),
            bot: req.bot.as_str().as_bytes_vec(),
            packages: crate::engine::copy_packages(&req.packages),
        }
    }
}

/// Copy of the requested package numbers.
pub fn copy_packages(v: &Vec<i32>) -> (r: Vec<i32>)
    ensures
        r@ == v@,
{
    let mut r: Vec<i32> = Vec::new();
    let mut k: usize = 0;
    while k < v.len()
        invariant
            0 <= k <= v@.len(),
            r@ =~= v@.take(k as int),
        decreases v@.len() - k,
    {
        r.push(v[k]);
        assert(r@ =~= v@.take(k + 1 as int));
        k += 1;
    }
    assert(r@ =~= v@);
    r
}

/// Where one session stands. Terminal states: `Done`, `Failed`,
/// `Cancelled`.
#[derive(Clone, Copy, PartialEq, Eq, Structural, Debug)]
pub enum SessionState {
    /// No connection yet.
    Connecting,
    /// Registration commands handed out, not yet written.
    LoggingIn,
    /// Registered; the join is held until the welcome sequence ends.
    AwaitingWelcomeEnd,
    /// Join sent, awaiting its confirmation.
    Joining,
    /// A rejected request waits to be reissued (queue-full flow control).
    Requesting,
    /// Requests out; reacting to DCC events.
    AwaitingDccEvents,
    /// Every package accounted for; waiting for workers to be joined.
    Closing,
    /// Every package accounted for and every worker joined.
    Done,
    /// A fatal error ended the session.
    Failed,
    /// The cancellation signal ended the session.
    Cancelled,
}

/// Why a session failed or what a line could not give.
#[derive(Clone, Copy, PartialEq, Eq, Structural, Debug)]
pub enum SessionError {
    /// Connect or I/O failure on a socket.
    ConnectionError,
    /// The inactivity watchdog expired.
    ProtocolTimeout,
    /// The framer's carry buffer grew past its limit.
    OversizedMessage,
    /// A DCC line matched but its numbers did not fit; recoverable.
    ParseFailure,
    /// A worker's transfer failed; recoverable at session level.
    TransferError,
    /// The cancellation signal was observed.
    UserCancelled,
}

/// What one engine step asks the caller to do: write the commands in
/// order, then probe a file or spawn a worker if asked. A parse failure
/// is only reported; the session goes on.
pub struct EngineStep {
    pub commands: Vec<Command>,
    pub spawn: Option<TransferDescriptor>,
    pub probe: Option<TransferDescriptor>,
    pub parse_failure: bool,
}

/// An engine step asking nothing of the caller.
pub open spec fn step_empty(r: EngineStep) -> bool {
    r.commands@.len() == 0 && r.spawn is None && r.probe is None && !r.parse_failure
}

/// The protocol state machine of one session.
pub struct Engine {
    pub config: SessionConfig,
    pub state: SessionState,
    /// A welcome-end reply has been observed; the join, held until then,
    /// is handed out in the same step that observes it.
    pub welcome_seen: bool,
    /// Our join has been confirmed and the requests were issued.
    pub join_confirmed: bool,
    /// Requests currently standing on the bot (issued and not rejected).
    pub packages_requested: usize,
    /// Index of a package whose request the bot rejected for queue-full,
    /// waiting to be reissued.
    pub requeued: Option<usize>,
    /// Transfers accounted for: workers spawned plus files found complete.
    pub outcomes: usize,
    /// Workers handed out, for the caller's join barrier.
    pub workers_spawned: usize,
    /// Outstanding resume requests by data port.
    pub pending: ResumeTable,
    /// Filename and expected size of the transfer most recently handed to
    /// a worker or to a resume request; the queue-full wait polls it.
    pub last_transfer: Option<(Vec<u8>, u64)>,
    /// What ended the session, once terminal.
    pub error: Option<SessionError>,
}

impl Engine {
    /// The session is between connection and completion: lines are still
    /// read and reacted to.
    pub open spec fn running(self) -> bool {
        self.state is LoggingIn || self.state is AwaitingWelcomeEnd || self.state is Joining
            || self.state is Requesting || self.state is AwaitingDccEvents
    }

    /// Every requested package has an outcome (a worker or a file already
    /// complete).
    pub open spec fn all_accounted(self) -> bool {
        self.outcomes == self.config.packages@.len()
    }

    /// The engine's internal invariant: counters within bounds, the
    /// session flags ordered (requests only after a confirmed join, a join
    /// only after the welcome end), unique resume keys, and the state tag
    /// consistent with the flags.
    pub open spec fn wf(self) -> bool {
        &&& self.pending.keys_unique()
        &&& self.outcomes <= self.config.packages@.len()
        &&& self.workers_spawned <= self.outcomes
        &&& self.packages_requested <= self.config.packages@.len()
        &&& (self.packages_requested > 0 ==> self.join_confirmed)
        &&& (self.join_confirmed ==> self.welcome_seen)
        &&& (self.state is Connecting ==> !self.welcome_seen && self.outcomes == 0
            && self.packages_requested == 0 && self.error is None)
        &&& (self.state is LoggingIn ==> !self.welcome_seen)
        &&& (self.state is AwaitingWelcomeEnd ==> !self.welcome_seen)
        &&& (self.state is Joining ==> self.welcome_seen && !self.join_confirmed)
        &&& (self.state is AwaitingDccEvents ==> self.join_confirmed)
        &&& (self.requeued matches Some(i) ==> i == self.packages_requested
            && i < self.config.packages@.len() && self.state is Requesting)
        &&& (self.state is Requesting ==> self.join_confirmed && self.requeued is Some)
        &&& (self.state is Cancelled ==> self.error == Some(SessionError::UserCancelled))
        &&& (self.state is Failed ==> self.error is Some)
        &&& (self.running() ==> self.error is None)
    }

    /// A fresh engine for one order, not yet connected.
    pub fn new(config: SessionConfig) -> (r: Engine)
        ensures
            r.wf(),
            r.config == config,
            r.state is Connecting,
            !r.welcome_seen,
            !r.join_confirmed,
            r.packages_requested == 0,
            r.requeued is None,
            r.outcomes == 0,
            r.workers_spawned == 0,
            r.pending.entries@.len() == 0,
            r.last_transfer is None,
            r.error is None,
    {
        Engine {
            config,
            state: SessionState::Connecting,
            welcome_seen: false,
            join_confirmed: false,
            packages_requested: 0,
            requeued: None,
            outcomes: 0,
            workers_spawned: 0,
            pending: ResumeTable::new(),
            last_transfer: None,
            error: None,
        }
    }

    /// The control connection is up: hand out the registration commands,
    /// sent without waiting for acknowledgment.
    pub fn on_connected(&mut self) -> (r: Vec<Command>)
        requires
            old(self).wf(),
            old(self).state is Connecting,
        ensures
            final(self).wf(),
            final(self).state is LoggingIn,
            *final(self) == (Engine { state: SessionState::LoggingIn, ..*old(self) }),
            r@.len() == 2,
            r@[0] is Nick,
            r@[1] is User,
    {
        self.state = SessionState::LoggingIn;
        let mut r: Vec<Command> = Vec::new();
        r.push(Command::Nick);
        r.push(Command::User);
        r
    }

    /// The registration commands were written; wait for the welcome
    /// sequence to end.
    pub fn on_registered(&mut self)
        requires
            old(self).wf(),
            old(self).state is LoggingIn,
        ensures
            final(self).wf(),
            *final(self) == (Engine { state: SessionState::AwaitingWelcomeEnd, ..*old(self) }),
    {
        self.state = SessionState::AwaitingWelcomeEnd;
    }

    /// React to one complete protocol line.
    ///
    /// A Ping is answered in every state. The join is held until the first
    /// welcome-end reply and handed out in the very step that observes it;
    /// a line falls in one class only, so no step ever orders a Join ahead
    /// of a Pong. The first join confirmation issues one request per
    /// package, in order. A send offer is parsed and handed back for a
    /// local file probe; an acceptance spawns the parked descriptor for
    /// its port and discards stale ports. The bot's flow-control notices
    /// requeue or retry the most recent request.
    pub fn on_line(&mut self, line: &Vec<u8>) -> (r: EngineStep)
        requires
            old(self).wf(),
            old(self).running(),
            old(self).outcomes < old(self).config.packages@.len(),
        ensures
            final(self).wf(),
            final(self).config == old(self).config,
            // the join is never sent before a welcome-end reply is observed,
            // whatever lines (Pings included) arrive first, and only once
            (exists|k: int| 0 <= k < r.commands@.len() && r.commands@[k] is Join)
                <==> (classify_spec(line@) is WelcomeEnd && !old(self).welcome_seen),
            final(self).welcome_seen == (old(self).welcome_seen || classify_spec(line@)
                is WelcomeEnd),
            ({
                let c = classify_spec(line@);
                &&& (c is Ping ==> *final(self) == *old(self) && r.commands@.len() == 1
                    && (r.commands@[0] matches Command::Pong(p) && p@ == line@)
                    && r.spawn is None && r.probe is None && !r.parse_failure)
                &&& (c is WelcomeEnd && old(self).welcome_seen ==> *final(self) == *old(self)
                    && step_empty(r))
                &&& (c is WelcomeEnd && !old(self).welcome_seen ==> *final(self) == (Engine {
                    welcome_seen: true,
                    state: SessionState::Joining,
                    ..*old(self)
                }) && r.commands@.len() == 1 && r.commands@[0] is Join && r.spawn is None
                    && r.probe is None && !r.parse_failure)
                &&& (c is JoinConfirmed && old(self).welcome_seen && !old(self).join_confirmed
                    ==> *final(self) == (Engine {
                    join_confirmed: true,
                    packages_requested: old(self).config.packages@.len() as usize,
                    state: SessionState::AwaitingDccEvents,
                    ..*old(self)
                }) && r.commands@.len() == old(self).config.packages@.len() && (forall|k: int|
                    0 <= k < r.commands@.len() ==> (#[trigger] r.commands@[k]
                        matches Command::Request(n) && n == old(self).config.packages@[k]))
                    && r.spawn is None && r.probe is None && !r.parse_failure)
                &&& (c is JoinConfirmed && !(old(self).welcome_seen && !old(self).join_confirmed) ==> *final(self) == *old(self) && step_empty(r))
                &&& (c is DccSend ==> descriptor_of_line(line@) is Some || r.parse_failure)
                &&& (c is DccSend ==> (descriptor_of_line(line@) matches Some(t) ==> *final(self) == *old(self) && r.commands@.len() == 0 && r.spawn is None
                    && !r.parse_failure && (r.probe matches Some(d) && d.filename@ == t.0
                    && d.ip as int == t.1 && d.port@ == t.2 && d.file_size as int == t.3
                    && d.resume_position == 0)))
                &&& (c is DccSend && descriptor_of_line(line@) is None ==> *final(self) == *old(self) && r.commands@.len() == 0 && r.spawn is None && r.probe is None
                    && r.parse_failure)
                &&& (c is DccAccept ==> spec_parse_dcc_accept(line@) is Some)
                &&& (c is DccAccept && (spec_parse_dcc_accept(line@) matches Some(ops) && old(self).pending.spec_contains(ops.1)) ==> ({
                    let stored = old(self).pending.spec_get(
                        spec_parse_dcc_accept(line@)->Some_0.1,
                    );
                    &&& r.commands@.len() == 0 && r.probe is None && !r.parse_failure
                    &&& r.spawn == Some(stored)
                    &&& final(self).outcomes == old(self).outcomes + 1
                    &&& final(self).workers_spawned == old(self).workers_spawned + 1
                    &&& !final(self).pending.spec_contains(
                        spec_parse_dcc_accept(line@)->Some_0.1,
                    )
                    &&& (forall|p: Seq<u8>|
                        p != spec_parse_dcc_accept(line@)->Some_0.1 ==> final(self).pending.spec_contains(p) == old(self).pending.spec_contains(p))
                    &&& (forall|p: Seq<u8>|
                        p != spec_parse_dcc_accept(line@)->Some_0.1 && old(
                            self,
                        ).pending.spec_contains(p) ==> final(self).pending.spec_get(p) == old(
                            self,
                        ).pending.spec_get(p))
                    &&& final(self).state == old(self).state
                    &&& final(self).packages_requested == old(self).packages_requested
                    &&& final(self).welcome_seen == old(self).welcome_seen
                    &&& final(self).join_confirmed == old(self).join_confirmed
                    &&& final(self).requeued == old(self).requeued
                    &&& final(self).error == old(self).error
                    &&& (final(self).last_transfer matches Some(lt) && lt.0@
                        == stored.filename@ && lt.1 == stored.file_size)
                }))
                &&& (c is DccAccept && (spec_parse_dcc_accept(line@) matches Some(ops) && !old(self).pending.spec_contains(ops.1)) ==> *final(self) == *old(self) && step_empty(r))
                &&& (c is AlreadyRequested && old(self).packages_requested > 0 && old(self).requeued is None ==> *final(self) == *old(self) && r.commands@.len() == 3
                    && ({
                    let p = old(self).config.packages@[old(self).packages_requested - 1];
                    &&& (r.commands@[0] matches Command::Remove(n) && n == p)
                    &&& r.commands@[1] is CancelAll
                    &&& (r.commands@[2] matches Command::Request(n) && n == p)
                }) && r.spawn is None && r.probe is None && !r.parse_failure)
                &&& (c is AlreadyRequested && !(old(self).packages_requested > 0 && old(self).requeued is None) ==> *final(self) == *old(self) && step_empty(r))
                &&& (c is QueueFull && old(self).packages_requested > 0 && old(self).requeued
                    is None ==> *final(self) == (Engine {
                    requeued: Some((old(self).packages_requested - 1) as usize),
                    packages_requested: (old(self).packages_requested - 1) as usize,
                    state: SessionState::Requesting,
                    ..*old(self)
                }) && step_empty(r))
                &&& (c is QueueFull && !(old(self).packages_requested > 0 && old(self).requeued
                    is None) ==> *final(self) == *old(self) && step_empty(r))
                &&& (c is Unclassified ==> *final(self) == *old(self) && step_empty(r))
            }),
    {
        let mut step = EngineStep { commands: Vec::new(), spawn: None, probe: None,
            parse_failure: false };
        let class = classify(line);
        match class {
            MessageClass::Ping => {
                step.commands.push(Command::Pong(copy_bytes(line)));
            }
            MessageClass::WelcomeEnd => {
                if !self.welcome_seen {
                    self.welcome_seen = true;
                    self.state = SessionState::Joining;
                    step.commands.push(Command::Join);
                }
            }
            MessageClass::JoinConfirmed => {
                if self.welcome_seen && !self.join_confirmed {
                    self.join_confirmed = true;
                    let n = self.config.packages.len();
                    let mut k: usize = 0;
                    while k < n
                        invariant
                            0 <= k <= n == self.config.packages@.len(),
                            step.commands@.len() == k,
                            forall|j: int|
                                0 <= j < k ==> (#[trigger] step.commands@[j]
                                    matches Command::Request(m) && m
                                    == self.config.packages@[j]),
                            step.spawn is None,
                            step.probe is None,
                            !step.parse_failure,
                            *self == (Engine { join_confirmed: true, ..*old(self) }),
                        decreases n - k,
                    {
                        step.commands.push(Command::Request(self.config.packages[k]));
                        k += 1;
                    }
                    self.packages_requested = n;
                    self.state = SessionState::AwaitingDccEvents;
                }
            }
            MessageClass::DccSend => {
                proof {
                    lemma_send_parse_total(line@);
                }
                match parse_dcc_send(line) {
                    Some(d) => {
                        step.probe = Some(d);
                    }
                    None => {
                        step.parse_failure = true;
                    }
                }
            }
            MessageClass::DccAccept => {
                proof {
                    lemma_accept_parse_total(line@);
                }
                match parse_dcc_accept_port(line) {
                    Some(port) => {
                        match self.pending.remove(&port) {
                            Some(d) => {
                                let cap = self.config.packages.len();
                                assert(self.outcomes < cap);
                                self.outcomes += 1;
                                self.workers_spawned += 1;
                                self.last_transfer = Some(
                                    (copy_bytes(&d.filename), d.file_size),
                                );
                                step.spawn = Some(d);
                            }
                            None => {}
                        }
                    }
                    None => {
                        step.parse_failure = true;
                    }
                }
            }
            MessageClass::AlreadyRequested => {
                if self.packages_requested > 0 && self.requeued.is_none() {
                    let p = self.config.packages[self.packages_requested - 1];
                    step.commands.push(Command::Remove(p));
                    step.commands.push(Command::CancelAll);
                    step.commands.push(Command::Request(p));
                }
            }
            MessageClass::QueueFull => {
                if self.packages_requested > 0 && self.requeued.is_none() {
                    self.requeued = Some(self.packages_requested - 1);
                    self.packages_requested = self.packages_requested - 1;
                    self.state = SessionState::Requesting;
                }
            }
            MessageClass::Unclassified => {}
        }
        step
    }

    /// React to the local file probe a send offer asked for: an existing
    /// partial file turns into a resume request parked by port, a file at
    /// or past the expected size counts as complete with no data
    /// connection, anything else spawns a fresh worker at offset zero.
    pub fn on_probe_result(&mut self, d: TransferDescriptor, existing: Option<u64>) -> (r:
        EngineStep)
        requires
            old(self).wf(),
            old(self).running(),
            old(self).outcomes < old(self).config.packages@.len(),
        ensures
            final(self).wf(),
            final(self).config == old(self).config,
            final(self).state == old(self).state,
            final(self).welcome_seen == old(self).welcome_seen,
            final(self).join_confirmed == old(self).join_confirmed,
            final(self).packages_requested == old(self).packages_requested,
            final(self).requeued == old(self).requeued,
            final(self).error == old(self).error,
            (final(self).last_transfer matches Some(lt) && lt.0@ == d.filename@ && lt.1
                == d.file_size),
            ({
                let resumes = existing matches Some(s) && 0 < s < d.file_size;
                let complete = existing matches Some(s) && s >= d.file_size;
                &&& (resumes ==> ({
                    let s = existing->Some_0;
                    &&& r.commands@.len() == 1
                    &&& (r.commands@[0] matches Command::Resume { filename, port, offset }
                        && filename@ == d.filename@ && port@ == d.port@ && offset == s)
                    &&& r.spawn is None && r.probe is None && !r.parse_failure
                    &&& final(self).outcomes == old(self).outcomes
                    &&& final(self).workers_spawned == old(self).workers_spawned
                    &&& final(self).pending.spec_contains(d.port@)
                    &&& ({
                        let g = final(self).pending.spec_get(d.port@);
                        g.filename@ == d.filename@ && g.ip == d.ip && g.port@ == d.port@
                            && g.file_size == d.file_size && g.resume_position == s
                    })
                    &&& (forall|p: Seq<u8>|
                        p != d.port@ ==> final(self).pending.spec_contains(p) == old(self).pending.spec_contains(p))
                    &&& (forall|p: Seq<u8>|
                        p != d.port@ && old(self).pending.spec_contains(p) ==> final(self).pending.spec_get(p) == old(self).pending.spec_get(p))
                }))
                &&& (complete ==> step_empty(r) && final(self).outcomes == old(self).outcomes
                    + 1 && final(self).workers_spawned == old(self).workers_spawned && final(self).pending == old(self).pending)
                &&& (!resumes && !complete ==> r.commands@.len() == 0 && r.probe is None
                    && !r.parse_failure && r.spawn == Some(d) && final(self).outcomes == old(self).outcomes + 1 && final(self).workers_spawned == old(self).workers_spawned + 1
                    && final(self).pending == old(self).pending)
            }),
    {
        let mut step = EngineStep { commands: Vec::new(), spawn: None, probe: None,
            parse_failure: false };
        self.last_transfer = Some((copy_bytes(&d.filename), d.file_size));
        match existing {
            Some(s) if s > 0 && s < d.file_size => {
                let mut parked = d;
                parked.resume_position = s;
                step.commands.push(Command::Resume {
                    filename: copy_bytes(&parked.filename),
                    port: copy_bytes(&parked.port),
                    offset: s,
                });
                let key = copy_bytes(&parked.port);
                self.pending.insert(key, parked);
            }
            Some(s) if s >= d.file_size => {
                let cap = self.config.packages.len();
                assert(self.outcomes < cap);
                self.outcomes += 1;
            }
            _ => {
                let cap = self.config.packages.len();
                assert(self.outcomes < cap);
                self.outcomes += 1;
                self.workers_spawned += 1;
                step.spawn = Some(d);
            }
        }
        step
    }

    /// A rejected request's turn has come again (the polled file reached
    /// its size): reissue it.
    pub fn on_queue_ready(&mut self) -> (r: EngineStep)
        requires
            old(self).wf(),
            old(self).running(),
        ensures
            final(self).wf(),
            final(self).config == old(self).config,
            (old(self).requeued matches Some(i) ==> *final(self) == (Engine {
                requeued: None,
                packages_requested: (i + 1) as usize,
                state: SessionState::AwaitingDccEvents,
                ..*old(self)
            }) && r.commands@.len() == 1 && (r.commands@[0] matches Command::Request(n) && n
                == old(self).config.packages@[i as int]) && r.spawn is None && r.probe is None
                && !r.parse_failure),
            (old(self).requeued is None ==> *final(self) == *old(self) && step_empty(r)),
    {
        let mut step = EngineStep { commands: Vec::new(), spawn: None, probe: None,
            parse_failure: false };
        match self.requeued {
            Some(i) => {
                let cap = self.config.packages.len();
                assert(i < cap);
                step.commands.push(Command::Request(self.config.packages[i]));
                self.requeued = None;
                self.packages_requested = i + 1;
                self.state = SessionState::AwaitingDccEvents;
            }
            None => {}
        }
        step
    }

    /// The cancellation signal was observed: best-effort teardown. A
    /// cancel goes to the bot exactly when some request has no outcome
    /// yet, then the quit; the session ends as cancelled.
    pub fn on_cancel(&mut self) -> (r: Vec<Command>)
        requires
            old(self).wf(),
            old(self).running(),
        ensures
            final(self).wf(),
            *final(self) == (Engine {
                state: SessionState::Cancelled,
                requeued: None,
                error: Some(SessionError::UserCancelled),
                ..*old(self)
            }),
            old(self).packages_requested > old(self).outcomes ==> r@.len() == 2 && r@[0]
                is CancelAll && (r@[1] matches Command::Quit(q) && q is Interrupted),
            old(self).packages_requested <= old(self).outcomes ==> r@.len() == 1 && (r@[0]
                matches Command::Quit(q) && q is Interrupted),
    {
        let mut r: Vec<Command> = Vec::new();
        if self.packages_requested > self.outcomes {
            r.push(Command::CancelAll);
        }
        r.push(Command::Quit(crate::commands::QuitReason::Interrupted));
        self.state = SessionState::Cancelled;
        self.requeued = None;
        self.error = Some(SessionError::UserCancelled);
        r
    }

    /// The inactivity watchdog expired: say goodbye and fail the session.
    pub fn on_inactivity_timeout(&mut self) -> (r: Vec<Command>)
        requires
            old(self).wf(),
            old(self).running(),
        ensures
            final(self).wf(),
            *final(self) == (Engine {
                state: SessionState::Failed,
                requeued: None,
                error: Some(SessionError::ProtocolTimeout),
                ..*old(self)
            }),
            r@.len() == 1,
            (r@[0] matches Command::Quit(q) && q is Timeout),
    {
        let mut r: Vec<Command> = Vec::new();
        r.push(Command::Quit(crate::commands::QuitReason::Timeout));
        self.state = SessionState::Failed;
        self.requeued = None;
        self.error = Some(SessionError::ProtocolTimeout);
        r
    }

    /// A fatal connection-level error (a closed or broken control socket,
    /// or an oversized carry buffer): the session fails with that error
    /// and nothing more is sent.
    pub fn on_fatal_error(&mut self, e: SessionError)
        requires
            old(self).wf(),
            old(self).running(),
        ensures
            final(self).wf(),
            *final(self) == (Engine {
                state: SessionState::Failed,
                requeued: None,
                error: Some(if e is UserCancelled {
                    SessionError::ConnectionError
                } else {
                    e
                }),
                ..*old(self)
            }),
    {
        self.state = SessionState::Failed;
        self.requeued = None;
        self.error = Some(
            match e {
                SessionError::UserCancelled => SessionError::ConnectionError,
                _ => e,
            },
        );
    }

    /// Every package is accounted for: say goodbye and wait for the
    /// workers to be joined.
    pub fn finish(&mut self) -> (r: Vec<Command>)
        requires
            old(self).wf(),
            old(self).running(),
            old(self).all_accounted(),
        ensures
            final(self).wf(),
            *final(self) == (Engine {
                state: SessionState::Closing,
                requeued: None,
                ..*old(self)
            }),
            r@.len() == 1,
            (r@[0] matches Command::Quit(q) && q is JobDone),
    {
        let mut r: Vec<Command> = Vec::new();
        r.push(Command::Quit(crate::commands::QuitReason::JobDone));
        self.state = SessionState::Closing;
        self.requeued = None;
        r
    }

    /// Every spawned worker has been joined: the session is done.
    pub fn on_all_workers_joined(&mut self)
        requires
            old(self).wf(),
            old(self).state is Closing,
        ensures
            final(self).wf(),
            *final(self) == (Engine { state: SessionState::Done, ..*old(self) }),
    {
        self.state = SessionState::Done;
    }

    /// Whether a step handed out the channel join.
    pub fn has_join(commands: &Vec<Command>) -> (r: bool)
        ensures
            r == exists|k: int| 0 <= k < commands@.len() && commands@[k] is Join,
    {
        let mut i: usize = 0;
        while i < commands.len()
            invariant
                0 <= i <= commands@.len(),
                forall|k: int| 0 <= k < i ==> !(commands@[k] is Join),
            decreases commands@.len() - i,
        {
            match &commands[i] {
                Command::Join => {
                    return true;
                }
                _ => {}
            }
            i += 1;
        }
        false
    }

    /// Replay of a session prefix, proving the join discipline over whole
    /// line sequences: however many lines arrive and in whatever order
    /// (Pings included), the step that hands out the `JOIN` command is
    /// exactly the first line that marks the end of the welcome sequence —
    /// never earlier, and never a second time.
    ///
    /// The replay reads fewer lines than there are packages on order, so
    /// no step can complete the session while lines are still being fed.
    pub fn join_sent_at(config: SessionConfig, lines: &Vec<Vec<u8>>) -> (r: Option<usize>)
        requires
            lines@.len() < config.packages@.len(),
        ensures
            match r {
                Some(i) => i < lines@.len() && classify_spec(lines@[i as int]@) is WelcomeEnd
                    && forall|j: int|
                        0 <= j < i ==> !(classify_spec(lines@[j]@) is WelcomeEnd),
                None => forall|j: int|
                    0 <= j < lines@.len() ==> !(classify_spec(lines@[j]@) is WelcomeEnd),
            },
    {
        let ghost cfg = config;
        let mut engine = Engine::new(config);
        let _registration = engine.on_connected();
        engine.on_registered();
        let mut found: Option<usize> = None;
        let mut i: usize = 0;
        while i < lines.len()
            invariant
                0 <= i <= lines@.len() < cfg.packages@.len(),
                engine.wf(),
                engine.running(),
                engine.config.packages@.len() == cfg.packages@.len(),
                engine.outcomes <= i,
                engine.welcome_seen == exists|j: int|
                    0 <= j < i && classify_spec(#[trigger] lines@[j]@) is WelcomeEnd,
                match found {
                    Some(k) => k < i && classify_spec(lines@[k as int]@) is WelcomeEnd
                        && (forall|j: int|
                            0 <= j < k ==> !(classify_spec(lines@[j]@) is WelcomeEnd)),
                    None => forall|j: int|
                        0 <= j < i ==> !(classify_spec(lines@[j]@) is WelcomeEnd),
                },
            decreases lines@.len() - i,
        {
            let ghost seen_before = engine.welcome_seen;
            let step = engine.on_line(&lines[i]);
            if Engine::has_join(&step.commands) {
                found = Some(i);
            }
            proof {
                if classify_spec(lines@[i as int]@) is WelcomeEnd {
                    assert(exists|j: int|
                        0 <= j < i + 1 && classify_spec(#[trigger] lines@[j]@) is WelcomeEnd);
                }
            }
            i += 1;
        }
        found
    }

    /// The filename and expected size to poll while a rejected request
    /// waits, when a transfer is known at all.
    pub fn poll_target(&self) -> (r: Option<(Vec<u8>, u64)>)
        ensures
            match r {
                Some(t) => self.last_transfer matches Some(lt) && t.0@ == lt.0@ && t.1 == lt.1,
                None => self.last_transfer is None,
            },
    {
        match &self.last_transfer {
            Some(lt) => Some((copy_bytes(&lt.0), lt.1)),
            None => None,
        }
    }

    /// Replay of a session stretch, proving the resume discipline over
    /// whole line sequences: as long as no resume acceptance names the
    /// parked port, the parked descriptor stays parked, untouched, however
    /// many lines of any other shape arrive — no worker is spawned for it
    /// until its matching acceptance.
    ///
    /// The replay reads fewer lines than there are packages left
    /// unaccounted, so no step can complete the session meanwhile.
    pub fn parked_entry_survives(&mut self, port: &Vec<u8>, lines: &Vec<Vec<u8>>)
        requires
            old(self).wf(),
            old(self).running(),
            old(self).pending.spec_contains(port@),
            old(self).outcomes + lines@.len() < old(self).config.packages@.len(),
            forall|j: int| 0 <= j < lines@.len() ==> !accepts_port(#[trigger] lines@[j]@, port@),
        ensures
            final(self).wf(),
            final(self).running(),
            final(self).pending.spec_contains(port@),
            final(self).pending.spec_get(port@) == old(self).pending.spec_get(port@),
    {
        let ghost n = lines@.len();
        let mut i: usize = 0;
        while i < lines.len()
            invariant
                0 <= i <= n == lines@.len(),
                self.wf(),
                self.running(),
                self.config.packages@.len() == old(self).config.packages@.len(),
                self.outcomes <= old(self).outcomes + i,
                old(self).outcomes + n < old(self).config.packages@.len(),
                self.pending.spec_contains(port@),
                self.pending.spec_get(port@) == old(self).pending.spec_get(port@),
                forall|j: int|
                    0 <= j < lines@.len() ==> !accepts_port(#[trigger] lines@[j]@, port@),
            decreases lines@.len() - i,
        {
            let _step = self.on_line(&lines[i]);
            proof {
                assert(!accepts_port(lines@[i as int]@, port@));
            }
            i += 1;
        }
    }
}

/// The line is a resume acceptance naming this data port.
pub open spec fn accepts_port(line: Seq<u8>, port: Seq<u8>) -> bool {
    classify_spec(line) is DccAccept && (spec_parse_dcc_accept(line) matches Some(ops) && ops.1
        == port)
}

} // verus!
