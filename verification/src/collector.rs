//! The collector: the state machine of one session.
//!
//! The collector asks one server after the other for its memory report, in
//! the order of the configuration and starting over after the last. It has at
//! most one request under way. While it waits it gathers the lines of the
//! answer; when the answer ends it parses them and moves on, and when no
//! answer has come after three ticks it moves on as well.
//!
//! The collector does no input or output. It is told what happened, a message
//! or a tick, changes its state, and says what is to be done.

use crate::config::{Configuration, Settings};
use crate::parser::{parse_stats_z, spec_parse_stats_z};
use crate::stats::StatsZ;
use crate::text::{join, opt_text, same_text, spec_join, texts};
use vstd::prelude::*;
use vstd::string::*;
use vstd::utf8::encode_utf8;

verus! {

/// Ticks without an answer after which a server is given up for this round.
pub const STUCK_TICKS: usize = 3;

/// Seconds between two ticks.
pub const TICK_SECONDS: u64 = 5;

/// The letter of the statistics request that the memory report answers.
pub fn stats_query() -> (r: &'static str)
    ensures
        r@ == "z"@,
{
    "z"
}

/// The numeric code of the replies that carry the lines of the report.
pub fn stats_line_code() -> (r: &'static str)
    ensures
        r@ == "249"@,
{
    "249"
}

/// The state of the collector.
#[derive(Debug, Clone, PartialEq, Eq)]
pub enum CollectorState {
    /// The session is not ready yet.
    NotConnected,
    /// No request is under way. `next` is the position of the server to ask
    /// next; without one, the first server is asked.
    Idle { next: Option<usize> },
    /// The server at position `server` has been asked, and `lines` are the
    /// lines of its answer so far.
    WaitingForData { lines: Vec<String>, server: usize },
}

/// The state of the collector, with the texts of its lines.
pub enum Progress {
    NotConnected,
    Idle { next: Option<usize> },
    WaitingForData { lines: Seq<Seq<char>>, server: usize },
}

impl View for CollectorState {
    type V = Progress;

    open spec fn view(&self) -> Progress {
        match self {
            CollectorState::NotConnected => Progress::NotConnected,
            CollectorState::Idle { next } => Progress::Idle { next: *next },
            CollectorState::WaitingForData { lines, server } => Progress::WaitingForData {
                lines: texts(lines@),
                server: *server,
            },
        }
    }
}

/// What the session has received, as far as the collector tells messages
/// apart.
#[derive(Debug, Clone, PartialEq, Eq)]
pub enum SessionEvent {
    /// The end of the message of the day: the session is ready.
    EndOfMotd,
    /// The end of a statistics answer.
    EndOfStats,
    /// A reply without a name of its own: its numeric code and its arguments.
    Raw { code: String, args: Vec<String> },
    /// Any other message.
    Other,
}

/// A received message, with the texts of its strings.
pub enum Event {
    EndOfMotd,
    EndOfStats,
    Raw { code: Seq<char>, args: Seq<Seq<char>> },
    Other,
}

impl View for SessionEvent {
    type V = Event;

    open spec fn view(&self) -> Event {
        match self {
            SessionEvent::EndOfMotd => Event::EndOfMotd,
            SessionEvent::EndOfStats => Event::EndOfStats,
            SessionEvent::Raw { code, args } => Event::Raw { code: code@, args: texts(args@) },
            SessionEvent::Other => Event::Other,
        }
    }
}

/// What a message led to.
#[derive(Debug, Clone, PartialEq, Eq)]
pub enum Outcome {
    /// The message is of no concern to the collector.
    Ignored,
    /// The session is ready. Where `oper` holds a name and a password,
    /// operator rights are to be asked for with them.
    Ready { oper: Option<(String, String)> },
    /// A line of the answer was kept.
    LineKept,
    /// A line of the answer had fewer than three arguments and was dropped.
    LineTooShort,
    /// A line or the end of an answer came while no request was under way.
    /// It was dropped.
    Unexpected,
    /// The answer was a well-formed report: `stats` is to be stored as the
    /// latest report of `server`.
    Report { server: String, stats: StatsZ },
    /// The answer was not a well-formed report and was dropped.
    Malformed,
    /// The answer belongs to a position at which the configuration has no
    /// server, and was dropped.
    UnknownServer { index: usize },
}

/// What a message led to, with the texts of its strings.
pub enum Effect {
    Ignored,
    Ready { oper: Option<(Seq<char>, Seq<char>)> },
    LineKept,
    LineTooShort,
    Unexpected,
    Report { server: Seq<char>, stats: StatsZ },
    Malformed,
    UnknownServer { index: usize },
}

impl View for Outcome {
    type V = Effect;

    open spec fn view(&self) -> Effect {
        match self {
            Outcome::Ignored => Effect::Ignored,
            Outcome::Ready { oper } => Effect::Ready {
                oper: match oper {
                    Some((name, password)) => Some((name@, password@)),
                    None => None,
                },
            },
            Outcome::LineKept => Effect::LineKept,
            Outcome::LineTooShort => Effect::LineTooShort,
            Outcome::Unexpected => Effect::Unexpected,
            Outcome::Report { server, stats } => Effect::Report { server: server@, stats: *stats },
            Outcome::Malformed => Effect::Malformed,
            Outcome::UnknownServer { index } => Effect::UnknownServer { index: *index },
        }
    }
}

/// What a tick led to.
#[derive(Debug, Clone, PartialEq, Eq)]
pub enum TickAction {
    /// Nothing: the session is not ready.
    Nothing,
    /// The statistics request is to be sent to `server`, or to the server of
    /// the session itself where there is none.
    Request { server: Option<String> },
    /// The answer is late; the collector goes on waiting.
    Late,
    /// The server at position `server` has not answered in time and is given
    /// up for this round.
    Abandoned { server: usize },
}

/// What a tick led to, with the texts of its strings.
pub enum TickEffect {
    Nothing,
    Request { server: Option<Seq<char>> },
    Late,
    Abandoned { server: usize },
}

impl View for TickAction {
    type V = TickEffect;

    open spec fn view(&self) -> TickEffect {
        match self {
            TickAction::Nothing => TickEffect::Nothing,
            TickAction::Request { server } => TickEffect::Request { server: opt_text(*server) },
            TickAction::Late => TickEffect::Late,
            TickAction::Abandoned { server } => TickEffect::Abandoned { server: *server },
        }
    }
}

/// The position to ask after `server`, where `count` servers are configured:
/// the one behind it, or the first after the last.
pub open spec fn next_server(server: usize, count: nat) -> Option<usize> {
    if server == usize::MAX {
        None
    } else if server + 1 >= count {
        Some(0)
    } else {
        Some((server + 1) as usize)
    }
}

/// The report that the lines of an answer make: the lines are joined by line
/// feeds and parsed as a whole.
pub open spec fn report_of(lines: Seq<Seq<char>>) -> Option<StatsZ> {
    spec_parse_stats_z(encode_utf8(spec_join(lines, "\n"@)))
}

/// The credentials to ask for operator rights with, where both are given.
pub open spec fn credentials(config: Settings) -> Option<(Seq<char>, Seq<char>)> {
    match (config.oper_name, config.oper_password) {
        (Some(name), Some(password)) => Some((name, password)),
        _ => None,
    }
}

/// What the end of an answer for the server at position `server` leads to.
pub open spec fn answer_effect(lines: Seq<Seq<char>>, server: usize, config: Settings) -> Effect {
    if server >= config.servers.len() {
        Effect::UnknownServer { index: server }
    } else {
        match report_of(lines) {
            Some(stats) => Effect::Report { server: config.servers[server as int], stats },
            None => Effect::Malformed,
        }
    }
}

/// The state after a message, and what the message led to.
pub open spec fn on_message(state: Progress, event: Event, config: Settings) -> (Progress, Effect) {
    match event {
        Event::EndOfMotd => (
            Progress::Idle { next: None },
            Effect::Ready { oper: credentials(config) },
        ),
        Event::EndOfStats => match state {
            Progress::WaitingForData { lines, server } => (
                Progress::Idle { next: next_server(server, config.servers.len()) },
                answer_effect(lines, server, config),
            ),
            _ => (state, Effect::Unexpected),
        },
        Event::Raw { code, args } => if code != "249"@ {
            (state, Effect::Ignored)
        } else {
            match state {
                Progress::WaitingForData { lines, server } => if args.len() < 3 {
                    (state, Effect::LineTooShort)
                } else {
                    (
                        Progress::WaitingForData {
                            lines: lines.push(spec_join(args.skip(2), " "@)),
                            server,
                        },
                        Effect::LineKept,
                    )
                },
                _ => (state, Effect::Unexpected),
            }
        },
        Event::Other => (state, Effect::Ignored),
    }
}

/// The count of ticks without an answer, the state and the effect after a
/// tick.
pub open spec fn on_tick(stuck: usize, state: Progress, servers: Seq<Seq<char>>) -> (
    usize,
    Progress,
    TickEffect,
) {
    match state {
        Progress::NotConnected => (stuck, state, TickEffect::Nothing),
        Progress::Idle { next } => {
            let server = match next {
                Some(n) => n,
                None => 0,
            };
            (
                0,
                Progress::WaitingForData { lines: Seq::empty(), server },
                TickEffect::Request {
                    server: if server < servers.len() {
                        Some(servers[server as int])
                    } else {
                        None
                    },
                },
            )
        },
        Progress::WaitingForData { lines, server } => {
            let stuck = if stuck < usize::MAX {
                (stuck + 1) as usize
            } else {
                stuck
            };
            if stuck >= STUCK_TICKS {
                (
                    stuck,
                    Progress::Idle { next: next_server(server, servers.len()) },
                    TickEffect::Abandoned { server },
                )
            } else {
                (stuck, state, TickEffect::Late)
            }
        },
    }
}

/// The position to ask after `server`.
pub fn advance(server: usize, count: usize) -> (r: Option<usize>)
    ensures
        r == next_server(server, count as nat),
{
    match server.checked_add(1) {
        Some(v) => if v >= count {
            Some(0)
        } else {
            Some(v)
        },
        None => None,
    }
}

/// Takes in one message of the session.
///
/// The state changes as `on_message` says, and the result says what is to be
/// done: operator rights asked for, a report stored, or nothing but a note
/// in the log.
pub fn message_handler(
    config: &Configuration,
    state: &mut CollectorState,
    message: SessionEvent,
) -> (outcome: Outcome)
    ensures
        (final(state)@, outcome@) == on_message(old(state)@, message@, config.settings()),
{
    match message {
        SessionEvent::EndOfMotd => {
            let oper = match (&config.oper_name, &config.oper_password) {
                (Some(name), Some(password)) => Some((name.clone(), password.clone())),
                _ => None,
            };
            *state = CollectorState::Idle { next: None };
            Outcome::Ready { oper }
        },
        SessionEvent::EndOfStats => {
            let mut taken = CollectorState::NotConnected;
            core::mem::swap(state, &mut taken);
            match taken {
                CollectorState::WaitingForData { lines, server } => {
                    *state = CollectorState::Idle { next: advance(server, config.servers.len()) };
                    if server >= config.servers.len() {
                        return Outcome::UnknownServer { index: server };
                    }
                    let text = join(&lines, 0, "\n");
                    assert(texts(lines@).skip(0) =~= texts(lines@));
                    match parse_stats_z(text.as_str()) {
                        Ok(stats) => Outcome::Report {
                            server: config.servers[server].clone(),
                            stats,
                        },
                        Err(_) => Outcome::Malformed,
                    }
                },
                other => {
                    *state = other;
                    Outcome::Unexpected
                },
            }
        },
        SessionEvent::Raw { code, args } => {
            if !same_text(code.as_str(), stats_line_code()) {
                return Outcome::Ignored;
            }
            let mut taken = CollectorState::NotConnected;
            core::mem::swap(state, &mut taken);
            match taken {
                CollectorState::WaitingForData { lines, server } => {
                    if args.len() < 3 {
                        *state = CollectorState::WaitingForData { lines, server };
                        Outcome::LineTooShort
                    } else {
                        let mut lines = lines;
                        lines.push(join(&args, 2, " "));
                        assert(texts(lines@) =~= texts(old(state)->WaitingForData_lines@).push(
                            spec_join(texts(args@).skip(2), " "@),
                        ));
                        *state = CollectorState::WaitingForData { lines, server };
                        Outcome::LineKept
                    }
                },
                other => {
                    *state = other;
                    Outcome::Unexpected
                },
            }
        },
        SessionEvent::Other => Outcome::Ignored,
    }
}

/// Counts the ticks that pass without an answer.
#[derive(Debug, Clone, PartialEq, Eq)]
pub struct TickHandler {
    /// Ticks since the request that have passed without the end of an answer.
    /// The count stops at the largest number rather than starting over.
    pub stuck_counter: usize,
}

impl Default for TickHandler {
    fn default() -> (r: Self)
        ensures
            r.stuck_counter == 0,
    {
        TickHandler { stuck_counter: 0 }
    }
}

impl TickHandler {
    /// Takes in one tick.
    ///
    /// At rest, the next server is asked. While an answer is awaited, the
    /// tick is counted, and at the third the server is given up and the one
    /// behind it is next.
    pub fn handle_tick(&mut self, state: &mut CollectorState, config: &Configuration) -> (action:
        TickAction)
        ensures
            (final(self).stuck_counter, final(state)@, action@) == on_tick(
                old(self).stuck_counter,
                old(state)@,
                config.settings().servers,
            ),
    {
        let mut taken = CollectorState::NotConnected;
        core::mem::swap(state, &mut taken);
        match taken {
            CollectorState::NotConnected => TickAction::Nothing,
            CollectorState::Idle { next } => {
                let server_n: usize = match next {
                    Some(n) => n,
                    None => 0,
                };
                let server = if server_n < config.servers.len() {
                    Some(config.servers[server_n].clone())
                } else {
                    None
                };
                self.stuck_counter = 0;
                let lines: Vec<String> = Vec::new();
                assert(texts(lines@) =~= Seq::<Seq<char>>::empty());
                *state = CollectorState::WaitingForData { lines, server: server_n };
                TickAction::Request { server }
            },
            CollectorState::WaitingForData { lines, server } => {
                if self.stuck_counter < usize::MAX {
                    self.stuck_counter = self.stuck_counter + 1;
                }
                if self.stuck_counter >= STUCK_TICKS {
                    *state = CollectorState::Idle { next: advance(server, config.servers.len()) };
                    TickAction::Abandoned { server }
                } else {
                    *state = CollectorState::WaitingForData { lines, server };
                    TickAction::Late
                }
            },
        }
    }
}

/// What reaches the collector: a tick or a message.
pub enum Input {
    Tick,
    Message(Event),
}

/// The count of late ticks and the state after a run of inputs, taken in one
/// after the other.
pub open spec fn after_inputs(
    stuck: usize,
    state: Progress,
    inputs: Seq<Input>,
    config: Settings,
) -> (usize, Progress)
    decreases inputs.len(),
{
    if inputs.len() == 0 {
        (stuck, state)
    } else {
        let before = after_inputs(stuck, state, inputs.drop_last(), config);
        match inputs.last() {
            Input::Tick => {
                let ticked = on_tick(before.0, before.1, config.servers);
                (ticked.0, ticked.1)
            },
            Input::Message(event) => (before.0, on_message(before.1, event, config).0),
        }
    }
}

/// How many of the inputs are ticks.
pub open spec fn ticks_in(inputs: Seq<Input>) -> nat
    decreases inputs.len(),
{
    if inputs.len() == 0 {
        0
    } else if inputs.last() is Tick {
        ticks_in(inputs.drop_last()) + 1
    } else {
        ticks_in(inputs.drop_last())
    }
}

/// An input that neither opens the session anew nor ends the answer.
pub open spec fn keeps_waiting(input: Input) -> bool {
    match input {
        Input::Tick => true,
        Input::Message(event) => !(event is EndOfMotd) && !(event is EndOfStats),
    }
}

/// What comes in between a request and the end of its answer where the
/// server is not given up: the messages of the answer, and late ticks, fewer
/// of them than would give the server up.
pub open spec fn within_wait(inputs: Seq<Input>) -> bool {
    &&& ticks_in(inputs) < STUCK_TICKS
    &&& forall|i: int| 0 <= i < inputs.len() ==> keeps_waiting(#[trigger] inputs[i])
}

/// The count of late ticks and the state after one round for one server:
/// from rest with `next` as the position to ask, a tick sends the request,
/// the inputs of `wait` come in, and the end of the answer follows.
pub open spec fn after_round(
    stuck: usize,
    next: Option<usize>,
    wait: Seq<Input>,
    config: Settings,
) -> (usize, Progress) {
    let asked = on_tick(stuck, Progress::Idle { next }, config.servers);
    let waited = after_inputs(asked.0, asked.1, wait, config);
    (waited.0, on_message(waited.1, Event::EndOfStats, config).0)
}

/// The count of late ticks and the state after one round for each of
/// `waits`, from rest with `next` as the position to ask first.
pub open spec fn after_rounds(
    stuck: usize,
    next: Option<usize>,
    waits: Seq<Seq<Input>>,
    config: Settings,
) -> (usize, Progress)
    decreases waits.len(),
{
    if waits.len() == 0 {
        (stuck, Progress::Idle { next })
    } else {
        let before = after_rounds(stuck, next, waits.drop_last(), config);
        match before.1 {
            Progress::Idle { next } => after_round(before.0, next, waits.last(), config),
            _ => before,
        }
    }
}

/// Behind a configured server comes the one whose position is one more,
/// counted modulo the number of servers.
pub proof fn lemma_next_server_wraps(server: usize, count: nat)
    requires
        server < count <= usize::MAX,
    ensures
        next_server(server, count) == Some(((server + 1) % (count as int)) as usize),
{
    if server + 1 < count {
        vstd::arithmetic::div_mod::lemma_small_mod((server + 1) as nat, count);
    } else {
        vstd::arithmetic::div_mod::lemma_mod_self_0(count as int);
    }
}

/// While the server is not given up, the collector goes on waiting for it:
/// the messages of the answer and the late ticks leave the server the same,
/// and the count of late ticks is the number of ticks that came.
pub proof fn lemma_wait_keeps_server(
    lines: Seq<Seq<char>>,
    server: usize,
    wait: Seq<Input>,
    config: Settings,
)
    requires
        within_wait(wait),
    ensures
        ({
            let waited = after_inputs(0, Progress::WaitingForData { lines, server }, wait, config);
            &&& waited.0 == ticks_in(wait)
            &&& waited.1 is WaitingForData
            &&& waited.1->WaitingForData_server == server
        }),
    decreases wait.len(),
{
    if wait.len() > 0 {
        let init = wait.drop_last();
        assert forall|i: int| 0 <= i < init.len() implies keeps_waiting(#[trigger] init[i]) by {
            assert(init[i] == wait[i]);
        }
        lemma_wait_keeps_server(lines, server, init, config);
        assert(keeps_waiting(wait[wait.len() - 1]));
    }
}

/// One round moves the position on by one: after a round for the server at
/// position `server`, the collector is at rest and the server behind it is
/// next, whatever the answer held and whether or not it was late.
pub proof fn lemma_round_advances(
    stuck: usize,
    next: Option<usize>,
    wait: Seq<Input>,
    config: Settings,
)
    requires
        within_wait(wait),
    ensures
        after_round(stuck, next, wait, config).1 == (Progress::Idle {
            next: next_server(
                match next {
                    Some(n) => n,
                    None => 0,
                },
                config.servers.len(),
            ),
        }),
{
    let server: usize = match next {
        Some(n) => n,
        None => 0,
    };
    lemma_wait_keeps_server(Seq::empty(), server, wait, config);
}

/// After `k` rounds from the first server, with `k` no more than the number
/// `n` of servers, the server at position `k` modulo `n` is next.
pub proof fn lemma_rounds_advance(
    stuck: usize,
    next: Option<usize>,
    waits: Seq<Seq<Input>>,
    config: Settings,
)
    requires
        next is None || next == Some(0usize),
        0 < waits.len() <= config.servers.len() <= usize::MAX,
        forall|i: int| 0 <= i < waits.len() ==> within_wait(#[trigger] waits[i]),
    ensures
        after_rounds(stuck, next, waits, config).1 == (Progress::Idle {
            next: Some((waits.len() % config.servers.len()) as usize),
        }),
    decreases waits.len(),
{
    let count = config.servers.len();
    let init = waits.drop_last();
    let before = after_rounds(stuck, next, init, config);
    assert(within_wait(waits[waits.len() - 1]));
    if init.len() == 0 {
        lemma_round_advances(stuck, next, waits.last(), config);
        lemma_next_server_wraps(0, count);
    } else {
        assert forall|i: int| 0 <= i < init.len() implies within_wait(#[trigger] init[i]) by {
            assert(init[i] == waits[i]);
        }
        lemma_rounds_advance(stuck, next, init, config);
        vstd::arithmetic::div_mod::lemma_small_mod(init.len(), count);
        lemma_round_advances(before.0, Some(init.len() as usize), waits.last(), config);
        lemma_next_server_wraps(init.len() as usize, count);
    }
}

/// Round-robin: with `n` servers configured, `n` rounds from the first server
/// lead back to the first server. Each round is a request and the answer to
/// it, well-formed or not, in time or late, with no server given up on the
/// way.
pub proof fn lemma_rounds_return_to_first(
    stuck: usize,
    next: Option<usize>,
    waits: Seq<Seq<Input>>,
    config: Settings,
)
    requires
        next is None || next == Some(0usize),
        0 < waits.len() == config.servers.len() <= usize::MAX,
        forall|i: int| 0 <= i < waits.len() ==> within_wait(#[trigger] waits[i]),
    ensures
        after_rounds(stuck, next, waits, config).1 == (Progress::Idle { next: Some(0usize) }),
{
    lemma_rounds_advance(stuck, next, waits, config);
    vstd::arithmetic::div_mod::lemma_mod_self_0(waits.len() as int);
}

/// A server that does not answer is given up at the third tick after the
/// request, and not before: the first two ticks leave the collector waiting
/// for it, and the third puts it at rest with the server behind it as the
/// next. A tick never yields a report.
pub proof fn lemma_stuck_server_is_given_up(
    stuck: usize,
    next: Option<usize>,
    servers: Seq<Seq<char>>,
)
    requires
        servers.len() <= usize::MAX,
        match next {
            Some(n) => n < servers.len(),
            None => 0 < servers.len(),
        },
    ensures
        ({
            let server: usize = match next {
                Some(n) => n,
                None => 0,
            };
            let waiting = Progress::WaitingForData { lines: Seq::empty(), server };
            let asked = on_tick(stuck, Progress::Idle { next }, servers);
            let first = on_tick(asked.0, asked.1, servers);
            let second = on_tick(first.0, first.1, servers);
            let third = on_tick(second.0, second.1, servers);
            &&& asked.1 == waiting
            &&& asked.2 == TickEffect::Request { server: Some(servers[server as int]) }
            &&& first.1 == waiting && first.2 == TickEffect::Late
            &&& second.1 == waiting && second.2 == TickEffect::Late
            &&& third.1 == Progress::Idle {
                next: Some(((server + 1) % (servers.len() as int)) as usize),
            }
            &&& third.2 == TickEffect::Abandoned { server }
        }),
{
    let server: usize = match next {
        Some(n) => n,
        None => 0,
    };
    lemma_next_server_wraps(server, servers.len());
}

} // verus!
