use crate::counter::{bump, bumped, lemma_quota_admits_first_limit, Counter};
use crate::text::{decimal, decimal_text, parse_u16, parse_u16_text, server_line, chat_line, server_text, render};
use vstd::prelude::*;

verus! {

/// Relies on `rand::random::<u8>`: a byte drawn from the thread's generator.
/// Every byte is possible, so nothing is promised of it.
#[verifier::external_body]
fn random_byte() -> (r: u8) {
    rand::random::<u8>()
}

/// Why a session ended before the chat.
#[derive(Clone, Copy, Debug, PartialEq, Eq, Structural)]
pub enum SessionError {
    /// The stream ended before a name came.
    InvalidName,
    /// The stream ended before the captcha was answered.
    Unanswered,
    /// The answer to the captcha is not a number.
    InvalidAnswer,
    /// The answer to the captcha is wrong.
    BotDetected,
}

/// Where a connection stands.
pub enum Phase {
    AwaitingName,
    AwaitingCaptcha { name: String, a: u8, b: u8 },
    Active { name: String },
    Closed { error: Option<SessionError> },
}

/// What happens to a connection: a line from the peer, the end of its stream
/// (or a failure to read it), a line queued for it by another session, or
/// the start of a new minute.
pub enum Event {
    Line(String),
    Ended,
    Delivered(String),
    Tick,
}

/// What the session asks of its connection: send a line to its own peer,
/// queue a line for every other registered peer, or enter or leave the
/// registry.
pub enum Action {
    Send(String),
    Broadcast(String),
    Register,
    Unregister,
}

/// A model of `Phase`, with each name as a sequence of characters.
pub enum Stage {
    AwaitingName,
    AwaitingCaptcha { name: Seq<char>, a: u8, b: u8 },
    Active { name: Seq<char> },
    Closed { error: Option<SessionError> },
}

/// A model of `Event`.
pub enum Input {
    Line(Seq<char>),
    Ended,
    Delivered(Seq<char>),
    Tick,
}

/// A model of `Action`.
pub enum Effect {
    Send(Seq<char>),
    Broadcast(Seq<char>),
    Register,
    Unregister,
}

/// A model of a session: where it stands, and its quota.
pub struct SessionModel {
    pub stage: Stage,
    pub count: u16,
    pub limit: u16,
}

impl View for Phase {
    type V = Stage;

    open spec fn view(&self) -> Stage {
        match self {
            Phase::AwaitingName => Stage::AwaitingName,
            Phase::AwaitingCaptcha { name, a, b } => Stage::AwaitingCaptcha { name: name@, a: *a, b: *b },
            Phase::Active { name } => Stage::Active { name: name@ },
            Phase::Closed { error } => Stage::Closed { error: *error },
        }
    }
}

impl View for Event {
    type V = Input;

    open spec fn view(&self) -> Input {
        match self {
            Event::Line(t) => Input::Line(t@),
            Event::Ended => Input::Ended,
            Event::Delivered(t) => Input::Delivered(t@),
            Event::Tick => Input::Tick,
        }
    }
}

impl View for Action {
    type V = Effect;

    open spec fn view(&self) -> Effect {
        match self {
            Action::Send(t) => Effect::Send(t@),
            Action::Broadcast(t) => Effect::Broadcast(t@),
            Action::Register => Effect::Register,
            Action::Unregister => Effect::Unregister,
        }
    }
}

/// The models of a run of actions.
pub open spec fn effects(actions: Seq<Action>) -> Seq<Effect> {
    actions.map_values(|x: Action| x@)
}

pub open spec fn welcome_text() -> Seq<char> {
    "Welcome to Mitsuha's chat room."@
}

pub open spec fn name_prompt() -> Seq<char> {
    "Please enter your name: "@
}

pub open spec fn blank() -> Seq<char> {
    "\n"@
}

pub open spec fn captcha_prompt(a: u8, b: u8) -> Seq<char> {
    "Please solve the captcha: "@ + decimal_text(a as nat) + " + "@ + decimal_text(b as nat)
        + " = ?"@
}

pub open spec fn captcha_passed() -> Seq<char> {
    "Correct captcha, welcome!"@
}

pub open spec fn captcha_failed() -> Seq<char> {
    "WRONG CAPTCHA, DISCONNECTED!"@
}

pub open spec fn joined(name: Seq<char>) -> Seq<char> {
    name + " joined chat room."@
}

pub open spec fn left(name: Seq<char>) -> Seq<char> {
    name + " left chat room."@
}

pub open spec fn rate_limited() -> Seq<char> {
    "Oops, you have reached rate limit, please retry after 1 minute."@
}

/// What a connection says first: the welcome, then the name prompt.
pub open spec fn opening() -> Seq<Effect> {
    seq![Effect::Send(server_line(welcome_text())), Effect::Send(server_line(name_prompt()))]
}

pub open spec fn closed(m: SessionModel, error: Option<SessionError>) -> SessionModel {
    SessionModel { stage: Stage::Closed { error }, ..m }
}

/// The session's answer to a line from its peer; `a` and `b` are the
/// captcha's two terms, drawn when the name comes.
pub open spec fn next_line(m: SessionModel, t: Seq<char>, a: u8, b: u8) -> (SessionModel, Seq<Effect>) {
    match m.stage {
        Stage::AwaitingName => (
            SessionModel { stage: Stage::AwaitingCaptcha { name: t, a, b }, ..m },
            seq![Effect::Send(blank()), Effect::Send(server_line(captcha_prompt(a, b)))],
        ),
        Stage::AwaitingCaptcha { name, a: x, b: y } => match parse_u16(t) {
            None => (closed(m, Some(SessionError::InvalidAnswer)), seq![]),
            Some(v) => if v == x + y {
                (
                    SessionModel { stage: Stage::Active { name }, ..m },
                    seq![
                        Effect::Send(server_line(captcha_passed())),
                        Effect::Send(blank()),
                        Effect::Broadcast(server_line(joined(name))),
                        Effect::Register,
                    ],
                )
            } else {
                (
                    closed(m, Some(SessionError::BotDetected)),
                    seq![Effect::Send(server_line(captcha_failed())), Effect::Send(blank())],
                )
            },
        },
        Stage::Active { name } => (
            SessionModel { count: bump(m.count), ..m },
            if m.count < m.limit {
                seq![Effect::Broadcast(chat_line(name, t))]
            } else {
                seq![Effect::Send(server_line(rate_limited()))]
            },
        ),
        Stage::Closed { .. } => (m, seq![]),
    }
}

/// The session's answer to the end of its peer's stream.
pub open spec fn next_end(m: SessionModel) -> (SessionModel, Seq<Effect>) {
    match m.stage {
        Stage::AwaitingName => (closed(m, Some(SessionError::InvalidName)), seq![]),
        Stage::AwaitingCaptcha { .. } => (closed(m, Some(SessionError::Unanswered)), seq![]),
        Stage::Active { name } => (
            closed(m, None),
            seq![Effect::Broadcast(server_line(left(name))), Effect::Unregister],
        ),
        Stage::Closed { .. } => (m, seq![]),
    }
}

/// The connection state machine: the next state and what to do, for one
/// event.
pub open spec fn next(m: SessionModel, input: Input, a: u8, b: u8) -> (SessionModel, Seq<Effect>) {
    match input {
        Input::Line(t) => next_line(m, t, a, b),
        Input::Ended => next_end(m),
        Input::Delivered(t) => (m, if m.stage is Active { seq![Effect::Send(t)] } else { seq![] }),
        Input::Tick => (SessionModel { count: 0, ..m }, seq![]),
    }
}

/// One connection, from accept to teardown.
pub struct Session {
    phase: Phase,
    counter: Counter,
}

impl View for Session {
    type V = SessionModel;

    closed spec fn view(&self) -> SessionModel {
        SessionModel { stage: self.phase@, count: self.counter.count(), limit: self.counter.limit() }
    }
}

fn captcha_text(a: u8, b: u8) -> (r: String)
    ensures
        r@ == captcha_prompt(a, b),
{
    let mut s = String::from_str("Please solve the captcha: ");
    let x = decimal(a as u16);
    let y = decimal(b as u16);
    s.append(x.as_str());
    s.append(" + ");
    s.append(y.as_str());
    s.append(" = ?");
    s
}

fn announce(name: &String, what: &str) -> (r: String)
    ensures
        r@ == server_line(name@ + what@),
{
    let mut s = name.clone();
    s.append(what);
    render(name.as_str(), s.as_str(), true)
}

impl Session {
    /// A new connection allowed `limit` messages a minute, and the lines it
    /// sends first.
    pub fn open(limit: u16) -> (r: (Session, Vec<Action>))
        ensures
            r.0@ == (SessionModel { stage: Stage::AwaitingName, count: 0, limit }),
            effects(r.1@) == opening(),
    {
        let s = Session { phase: Phase::AwaitingName, counter: Counter::new(limit) };
        let mut out: Vec<Action> = Vec::new();
        out.push(Action::Send(server_text("Welcome to Mitsuha's chat room.")));
        out.push(Action::Send(server_text("Please enter your name: ")));
        assert(effects(out@) =~= opening());
        (s, out)
    }

    /// Whether the connection is over.
    pub fn is_closed(&self) -> (r: bool)
        ensures
            r == (self@.stage is Closed),
    {
        matches!(self.phase, Phase::Closed { .. })
    }

    /// Why the connection ended, where it ended before the chat.
    pub fn error(&self) -> (r: Option<SessionError>)
        ensures
            r == match self@.stage {
                Stage::Closed { error } => error,
                _ => None,
            },
    {
        match &self.phase {
            Phase::Closed { error } => *error,
            _ => None,
        }
    }

    fn on_line(&mut self, t: String, a: u8, b: u8) -> (r: Vec<Action>)
        ensures
            final(self)@ == next_line(old(self)@, t@, a, b).0,
            effects(r@) == next_line(old(self)@, t@, a, b).1,
    {
        let ghost m = self@;
        let mut phase = Phase::Closed { error: None };
        core::mem::swap(&mut self.phase, &mut phase);
        let mut out: Vec<Action> = Vec::new();
        match phase {
            Phase::AwaitingName => {
                out.push(Action::Send(String::from_str("\n")));
                let prompt = captcha_text(a, b);
                out.push(Action::Send(server_text(prompt.as_str())));
                self.phase = Phase::AwaitingCaptcha { name: t, a, b };
            },
            Phase::AwaitingCaptcha { name, a: x, b: y } => {
                match parse_u16_text(t.as_str()) {
                    None => {
                        self.phase = Phase::Closed { error: Some(SessionError::InvalidAnswer) };
                    },
                    Some(v) => {
                        if v == x as u16 + y as u16 {
                            out.push(Action::Send(server_text("Correct captcha, welcome!")));
                            out.push(Action::Send(String::from_str("\n")));
                            out.push(Action::Broadcast(announce(&name, " joined chat room.")));
                            out.push(Action::Register);
                            self.phase = Phase::Active { name };
                        } else {
                            out.push(Action::Send(server_text("WRONG CAPTCHA, DISCONNECTED!")));
                            out.push(Action::Send(String::from_str("\n")));
                            self.phase = Phase::Closed { error: Some(SessionError::BotDetected) };
                        }
                    },
                }
            },
            Phase::Active { name } => {
                if self.counter.check() {
                    out.push(Action::Broadcast(render(name.as_str(), t.as_str(), false)));
                } else {
                    out.push(
                        Action::Send(
                            server_text(
                                "Oops, you have reached rate limit, please retry after 1 minute.",
                            ),
                        ),
                    );
                }
                self.counter.add();
                self.phase = Phase::Active { name };
            },
            Phase::Closed { error } => {
                self.phase = Phase::Closed { error };
            },
        }
        assert(effects(out@) =~= next_line(m, t@, a, b).1);
        out
    }

    fn on_end(&mut self) -> (r: Vec<Action>)
        ensures
            final(self)@ == next_end(old(self)@).0,
            effects(r@) == next_end(old(self)@).1,
    {
        let ghost m = self@;
        let mut phase = Phase::Closed { error: None };
        core::mem::swap(&mut self.phase, &mut phase);
        let mut out: Vec<Action> = Vec::new();
        match phase {
            Phase::AwaitingName => {
                self.phase = Phase::Closed { error: Some(SessionError::InvalidName) };
            },
            Phase::AwaitingCaptcha { .. } => {
                self.phase = Phase::Closed { error: Some(SessionError::Unanswered) };
            },
            Phase::Active { name } => {
                out.push(Action::Broadcast(announce(&name, " left chat room.")));
                out.push(Action::Unregister);
            },
            Phase::Closed { error } => {
                self.phase = Phase::Closed { error };
            },
        }
        assert(effects(out@) =~= next_end(m).1);
        out
    }

    /// Takes one event, with `a` and `b` as the captcha's terms should the
    /// event be the peer's name.
    pub fn step_with(&mut self, ev: Event, a: u8, b: u8) -> (r: Vec<Action>)
        ensures
            final(self)@ == next(old(self)@, ev@, a, b).0,
            effects(r@) == next(old(self)@, ev@, a, b).1,
    {
        match ev {
            Event::Line(t) => self.on_line(t, a, b),
            Event::Ended => self.on_end(),
            Event::Delivered(t) => {
                let mut out: Vec<Action> = Vec::new();
                if matches!(self.phase, Phase::Active { .. }) {
                    out.push(Action::Send(t));
                }
                assert(effects(out@) =~= next(self@, ev@, a, b).1);
                out
            },
            Event::Tick => {
                self.counter.reset();
                let out: Vec<Action> = Vec::new();
                assert(effects(out@) =~= Seq::<Effect>::empty());
                out
            },
        }
    }

    /// Takes one event; where it is the peer's name, the captcha's two terms
    /// are drawn at random.
    pub fn step(&mut self, ev: Event) -> (r: Vec<Action>)
        ensures
            exists|a: u8, b: u8|
                final(self)@ == #[trigger] next(old(self)@, ev@, a, b).0 && effects(r@) == next(
                    old(self)@,
                    ev@,
                    a,
                    b,
                ).1,
    {
        let mut a: u8 = 0;
        let mut b: u8 = 0;
        if matches!(self.phase, Phase::AwaitingName) && matches!(ev, Event::Line(_)) {
            a = random_byte();
            b = random_byte();
        }
        self.step_with(ev, a, b)
    }
}

/// A session that answers the captcha wrongly, or with no number at all, is
/// closed: it neither joins the registry nor announces anything to others.
pub proof fn lemma_failed_captcha_never_joins(m: SessionModel, t: Seq<char>, a: u8, b: u8)
    requires
        m.stage matches Stage::AwaitingCaptcha { a: x, b: y, .. } && !(parse_u16(t) matches Some(
            v,
        ) && v == x + y),
    ensures
        next(m, Input::Line(t), a, b).0.stage is Closed,
        forall|i: int|
            0 <= i < next(m, Input::Line(t), a, b).1.len() ==> {
                let e = #[trigger] next(m, Input::Line(t), a, b).1[i];
                e !is Register && e !is Broadcast
            },
{
}

/// A closed session stays closed and does nothing more, whatever happens.
pub proof fn lemma_closed_session_is_silent(m: SessionModel, input: Input, a: u8, b: u8)
    requires
        m.stage is Closed,
    ensures
        next(m, input, a, b).0.stage == m.stage,
        next(m, input, a, b).1 == Seq::<Effect>::empty(),
{
    assert(next(m, input, a, b).1 =~= Seq::<Effect>::empty());
}

/// A line over the quota is still charged, and its only effect is one
/// warning sent to the peer itself: nothing is broadcast.
pub proof fn lemma_over_quota_line_only_warns(m: SessionModel, t: Seq<char>, a: u8, b: u8)
    requires
        m.stage is Active,
        m.count >= m.limit,
    ensures
        next(m, Input::Line(t), a, b).0 == (SessionModel { count: bump(m.count), ..m }),
        next(m, Input::Line(t), a, b).1 == seq![Effect::Send(server_line(rate_limited()))],
{
}

/// The state after a run of lines from the peer, with no other event between
/// them.
pub open spec fn after_lines(m: SessionModel, ts: Seq<Seq<char>>) -> SessionModel
    decreases ts.len(),
{
    if ts.len() == 0 {
        m
    } else {
        next_line(after_lines(m, ts.drop_last()), ts.last(), 0, 0).0
    }
}

proof fn lemma_active_lines_charge(m: SessionModel, ts: Seq<Seq<char>>)
    requires
        m.stage is Active,
    ensures
        after_lines(m, ts) == (SessionModel { count: bumped(m.count, ts.len()), ..m }),
    decreases ts.len(),
{
    if ts.len() > 0 {
        lemma_active_lines_charge(m, ts.drop_last());
    }
}

/// Within one minute of the chat, the lines that came before decide the
/// fate of the next one: it is broadcast while fewer than `limit` lines came
/// before it, and answered with the warning alone after that.
pub proof fn lemma_minute_admits_first_limit_lines(
    m: SessionModel,
    ts: Seq<Seq<char>>,
    t: Seq<char>,
    a: u8,
    b: u8,
)
    requires
        m.stage is Active,
        m.count == 0,
    ensures
        next_line(after_lines(m, ts), t, a, b).1 == if ts.len() < m.limit {
            seq![Effect::Broadcast(chat_line(m.stage->Active_name, t))]
        } else {
            seq![Effect::Send(server_line(rate_limited()))]
        },
{
    lemma_active_lines_charge(m, ts);
    lemma_quota_admits_first_limit(m.limit, ts.len());
}

} // verus!
