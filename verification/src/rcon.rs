//! When commands go to the server, and when the connection to it is made anew.

use crate::text::push_dec;
use vstd::prelude::*;
use vstd::string::*;

verus! {

/// For how many milliseconds after an attempt to connect there is no other.
pub const RECONNECT_COOLDOWN_MS: u64 = 5_000;

/// For how many seconds an attempt to connect may last.
pub const CONNECT_TIMEOUT_SECS: u64 = 3;

/// Why a command did not reach the server.
#[derive(Debug, PartialEq)]
pub enum RconError {
    Connect(String),
    Rcon(String),
}

/// An error with its text as a sequence of characters.
pub enum RconErrorView {
    Connect(Seq<char>),
    Rcon(Seq<char>),
}

impl View for RconError {
    type V = RconErrorView;

    open spec fn view(&self) -> RconErrorView {
        match *self {
            RconError::Connect(m) => RconErrorView::Connect(m@),
            RconError::Rcon(m) => RconErrorView::Rcon(m@),
        }
    }
}

impl RconError {
    /// What is said of the error.
    pub open spec fn text(self) -> Seq<char> {
        match self {
            RconError::Connect(m) => "rcon connection failed: "@ + m@,
            RconError::Rcon(m) => "rcon error: "@ + m@,
        }
    }

    /// Says what the error is.
    pub fn message(&self) -> (r: String)
        ensures
            r@ == self.text(),
    {
        match self {
            RconError::Connect(m) => {
                let mut s = "rcon connection failed: ".to_owned();
                s.append(m.as_str());
                s
            },
            RconError::Rcon(m) => {
                let mut s = "rcon error: ".to_owned();
                s.append(m.as_str());
                s
            },
        }
    }
}

/// What is known of the connection to the server.
#[derive(Debug)]
pub struct ReconnectingRcon {
    /// There is a connection.
    pub connected: bool,
    /// When it was last attempted to connect again, in milliseconds of a clock that does not run
    /// backwards.
    pub last_connect_attempt: Option<u64>,
}

/// What has happened on the way of a command to the server.
#[derive(Debug)]
pub enum RconEvent {
    /// The command is to be sent.
    Command,
    /// The command was sent over the connection that there was, and this came of it.
    Sent(Result<String, String>),
    /// There is a new connection, the command was sent over it, and this came of it.
    Resent(Result<String, String>),
    /// No new connection could be made.
    ConnectFailed(RconError),
}

/// What is to be done next with a command.
#[derive(Debug)]
pub enum RconAction {
    /// The command is sent over the connection that there is.
    Send,
    /// A new connection is made and the command is sent over it.
    Reconnect,
    /// This came of the command.
    Finish(Result<String, RconError>),
}

/// What is to be done next, with texts as sequences of characters.
pub enum RconActionView {
    Send,
    Reconnect,
    Finish(Result<Seq<char>, RconErrorView>),
}

impl View for RconAction {
    type V = RconActionView;

    open spec fn view(&self) -> RconActionView {
        match *self {
            RconAction::Send => RconActionView::Send,
            RconAction::Reconnect => RconActionView::Reconnect,
            RconAction::Finish(Ok(s)) => RconActionView::Finish(Ok(s@)),
            RconAction::Finish(Err(e)) => RconActionView::Finish(Err(e@)),
        }
    }
}

/// An attempt to connect again may be made: there was none, or it was long enough ago.
pub open spec fn may_reconnect(s: ReconnectingRcon, now: u64) -> bool {
    match s.last_connect_attempt {
        Some(t) => now - t >= RECONNECT_COOLDOWN_MS,
        None => true,
    }
}

/// What is done where the connection failed or there is none: a new attempt, if there may be one.
pub open spec fn retried(s: ReconnectingRcon, now: u64) -> (ReconnectingRcon, RconActionView) {
    if may_reconnect(s, now) {
        (ReconnectingRcon { last_connect_attempt: Some(now), ..s }, RconActionView::Reconnect)
    } else {
        (
            s,
            RconActionView::Finish(
                Err(RconErrorView::Rcon("reconnect rate limited, last attempt was <5s ago"@)),
            ),
        )
    }
}

/// What is known and what is done once something has happened.
pub open spec fn stepped(s: ReconnectingRcon, event: RconEvent, now: u64) -> (
    ReconnectingRcon,
    RconActionView,
) {
    match event {
        RconEvent::Command => if s.connected {
            (s, RconActionView::Send)
        } else {
            retried(s, now)
        },
        RconEvent::Sent(Ok(reply)) => (s, RconActionView::Finish(Ok(reply@))),
        RconEvent::Sent(Err(_)) => retried(s, now),
        RconEvent::Resent(Ok(reply)) => (
            ReconnectingRcon { connected: true, ..s },
            RconActionView::Finish(Ok(reply@)),
        ),
        RconEvent::Resent(Err(why)) => (
            ReconnectingRcon { connected: true, ..s },
            RconActionView::Finish(Err(RconErrorView::Rcon(why@))),
        ),
        RconEvent::ConnectFailed(e) => (
            ReconnectingRcon { connected: false, ..s },
            RconActionView::Finish(Err(e@)),
        ),
    }
}

impl ReconnectingRcon {
    /// The first connection has been made.
    pub fn connect() -> (r: Self)
        ensures
            r.connected,
            r.last_connect_attempt is None,
    {
        ReconnectingRcon { connected: true, last_connect_attempt: None }
    }

    /// Whether an attempt to connect again may be made; if so, it is noted as made now.
    pub fn should_reconnect(&mut self, now: u64) -> (r: bool)
        ensures
            r == may_reconnect(*old(self), now),
            *final(self) == if r {
                (ReconnectingRcon { last_connect_attempt: Some(now), ..*old(self) })
            } else {
                *old(self)
            },
    {
        let allow = match self.last_connect_attempt {
            Some(t) => now >= t && now - t >= RECONNECT_COOLDOWN_MS,
            None => true,
        };
        if allow {
            self.last_connect_attempt = Some(now);
        }
        allow
    }

    /// Tries again where the connection failed or there is none.
    fn retry(&mut self, now: u64) -> (r: RconAction)
        ensures
            (*final(self), r@) == retried(*old(self), now),
    {
        if self.should_reconnect(now) {
            RconAction::Reconnect
        } else {
            RconAction::Finish(
                Err(
                    RconError::Rcon(
                        "reconnect rate limited, last attempt was <5s ago".to_owned(),
                    ),
                ),
            )
        }
    }

    /// Decides what is done next with a command, once something has happened to it.
    pub fn send_command_step(&mut self, event: RconEvent, now: u64) -> (r: RconAction)
        ensures
            (*final(self), r@) == stepped(*old(self), event, now),
    {
        match event {
            RconEvent::Command => if self.connected {
                RconAction::Send
            } else {
                self.retry(now)
            },
            RconEvent::Sent(Ok(reply)) => RconAction::Finish(Ok(reply)),
            RconEvent::Sent(Err(_)) => self.retry(now),
            RconEvent::Resent(Ok(reply)) => {
                self.connected = true;
                RconAction::Finish(Ok(reply))
            },
            RconEvent::Resent(Err(why)) => {
                self.connected = true;
                RconAction::Finish(Err(RconError::Rcon(why)))
            },
            RconEvent::ConnectFailed(e) => {
                self.connected = false;
                RconAction::Finish(Err(e))
            },
        }
    }
}

/// What is said of an attempt to connect that lasted too long.
pub fn connect_timeout(secs: u64) -> (r: RconError)
    ensures
        r@ == RconErrorView::Rcon(
            "RCON connect timeout after "@ + crate::text::dec(secs as nat) + "s"@,
        ),
{
    let mut s = "RCON connect timeout after ".to_owned();
    push_dec(&mut s, secs);
    s.append("s");
    RconError::Rcon(s)
}

/// What is said of a worker that did not finish.
pub fn worker_failed(why: &str) -> (r: RconError)
    ensures
        r@ == RconErrorView::Rcon("blocking task failed: "@ + why@),
{
    let mut s = "blocking task failed: ".to_owned();
    s.append(why);
    RconError::Rcon(s)
}

/// After an attempt to connect again there is no other until the cooldown is over, whatever happens.
pub proof fn law_reconnects_are_rate_limited(
    s: ReconnectingRcon,
    events: Seq<(RconEvent, u64)>,
    event: RconEvent,
    now: u64,
    attempt: u64,
)
    requires
        s.last_connect_attempt == Some(attempt),
        forall|i: int|
            0 <= i < events.len() ==> (#[trigger] events[i]).1 - attempt < RECONNECT_COOLDOWN_MS,
        now - attempt < RECONNECT_COOLDOWN_MS,
    ensures
        stepped(after_all(s, events), event, now).1 !is Reconnect,
{
    lemma_attempt_stays(s, events, attempt);
}

/// What is known once the events have happened, each at its time.
pub open spec fn after_all(s: ReconnectingRcon, events: Seq<(RconEvent, u64)>) -> ReconnectingRcon
    decreases events.len(),
{
    if events.len() == 0 {
        s
    } else {
        stepped(after_all(s, events.drop_last()), events.last().0, events.last().1).0
    }
}

/// While the cooldown lasts, the last attempt stays the last.
proof fn lemma_attempt_stays(s: ReconnectingRcon, events: Seq<(RconEvent, u64)>, attempt: u64)
    requires
        s.last_connect_attempt == Some(attempt),
        forall|i: int|
            0 <= i < events.len() ==> (#[trigger] events[i]).1 - attempt < RECONNECT_COOLDOWN_MS,
    ensures
        after_all(s, events).last_connect_attempt == Some(attempt),
    decreases events.len(),
{
    if events.len() > 0 {
        assert forall|i: int| 0 <= i < events.drop_last().len() implies (
        #[trigger] events.drop_last()[i]).1 - attempt < RECONNECT_COOLDOWN_MS by {
            assert(events.drop_last()[i] == events[i]);
        }
        lemma_attempt_stays(s, events.drop_last(), attempt);
        assert(events.last() == events[events.len() - 1]);
    }
}

/// A command that fails over the connection that there is, is sent again over a new one, provided
/// that one may be made and is; and what comes of it then is what comes of the command.
pub proof fn law_failed_command_is_sent_again(
    s: ReconnectingRcon,
    why: String,
    reply: Result<String, String>,
    now: u64,
    later: u64,
)
    requires
        s.connected,
        may_reconnect(s, now),
    ensures
        ({
            let first = stepped(s, RconEvent::Command, now);
            let second = stepped(first.0, RconEvent::Sent(Err(why)), now);
            let third = stepped(second.0, RconEvent::Resent(reply), later);
            &&& first.1 is Send
            &&& second.1 is Reconnect
            &&& third.0.connected
            &&& third.1 == RconActionView::Finish(
                match reply {
                    Ok(r) => Ok(r@),
                    Err(e) => Err(RconErrorView::Rcon(e@)),
                },
            )
        }),
{
}

/// A command goes over the connection that there is; what comes of it is what comes of the command,
/// unless the connection failed.
pub proof fn law_commands_go_over_the_connection(
    s: &mut ReconnectingRcon,
    event: RconEvent,
    now: u64,
    r: RconAction,
)
    requires
        call_ensures(ReconnectingRcon::send_command_step, (s, event, now), r),
    ensures
        event is Command && old(s).connected ==> r is Send && *final(s) == *old(s),
        event matches RconEvent::Sent(Ok(reply)) ==> r@ == RconActionView::Finish(Ok(reply@))
            && *final(s) == *old(s),
        event matches RconEvent::Resent(Ok(reply)) ==> r@ == RconActionView::Finish(Ok(reply@))
            && final(s).connected,
        event matches RconEvent::Resent(Err(why)) ==> r@ == RconActionView::Finish(
            Err(RconErrorView::Rcon(why@)),
        ) && final(s).connected,
        event matches RconEvent::ConnectFailed(e) ==> r@ == RconActionView::Finish(Err(e@))
            && !final(s).connected,
        event is Resent || event is ConnectFailed ==> final(s).last_connect_attempt == old(
            s,
        ).last_connect_attempt,
{
}

/// Where there is no connection, or it failed, a new one is made exactly where none was attempted in
/// the last five seconds, and the attempt is noted; otherwise the command fails, and it is said why.
pub proof fn law_a_new_connection_is_made(
    s: &mut ReconnectingRcon,
    event: RconEvent,
    now: u64,
    r: RconAction,
)
    requires
        call_ensures(ReconnectingRcon::send_command_step, (s, event, now), r),
        (event is Command && !old(s).connected) || event matches RconEvent::Sent(Err(_)),
    ensures
        ({
            let may = old(s).last_connect_attempt is None || now - old(s).last_connect_attempt->0
                >= 5_000;
            &&& may ==> r is Reconnect && final(s).last_connect_attempt == Some(now)
            &&& !may ==> r@ == RconActionView::Finish(
                Err(RconErrorView::Rcon("reconnect rate limited, last attempt was <5s ago"@)),
            ) && *final(s) == *old(s)
            &&& final(s).connected == old(s).connected
        }),
{
}

/// What went wrong is said after what it was.
pub proof fn law_errors_say_what_they_are(e: &RconError, r: String, secs: u64, late: RconError)
    requires
        call_ensures(RconError::message, (e,), r),
        call_ensures(connect_timeout, (secs,), late),
    ensures
        match *e {
            RconError::Connect(m) => r@ == "rcon connection failed: "@ + m@,
            RconError::Rcon(m) => r@ == "rcon error: "@ + m@,
        },
        late@ == RconErrorView::Rcon(
            "RCON connect timeout after "@ + crate::text::dec(secs as nat) + "s"@,
        ),
{
}

} // verus!
