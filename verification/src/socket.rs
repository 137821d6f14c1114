//! How the socket of a session is connected and disconnected, one step at a time.

use crate::text::{cat, opt_text};
use vstd::prelude::*;

verus! {

/// What a run on the socket has just come to.
#[derive(Debug, PartialEq, Eq)]
pub enum SocketEvent {
    /// The run was asked for.
    Asked,
    /// The identity is locked: no other run changes the socket.
    IdentityLocked,
    /// Whether the socket is live for this address and session.
    LiveKnown(bool),
    /// The socket was disconnected, or could not be.
    Disconnected(Result<(), String>),
    /// The socket was connected, or could not be.
    Connected(Result<(), String>),
}

/// What a run on the socket does next.
#[derive(Debug, PartialEq, Eq)]
pub enum SocketAction {
    LockIdentity,
    AskWhetherLive,
    Disconnect,
    /// Connect with the given token.
    Connect,
    /// Connect with a provider of tokens.
    ConnectWithProvider,
    /// Give the state of the socket.
    ReportState,
    Fail(String),
}

/// The three runs.
pub enum SocketRun {
    ConnectStatic,
    Disconnect,
    ConnectWithSession,
}

/// What a run does next.
pub open spec fn next_action(run: SocketRun, event: SocketEvent) -> SocketAction {
    match event {
        SocketEvent::Asked => SocketAction::LockIdentity,
        SocketEvent::IdentityLocked => match run {
            SocketRun::ConnectWithSession => SocketAction::AskWhetherLive,
            _ => SocketAction::Disconnect,
        },
        SocketEvent::LiveKnown(live) => if live {
            SocketAction::ReportState
        } else {
            SocketAction::Disconnect
        },
        SocketEvent::Disconnected(Err(error)) => SocketAction::Fail(error),
        SocketEvent::Disconnected(Ok(())) => match run {
            SocketRun::ConnectStatic => SocketAction::Connect,
            SocketRun::Disconnect => SocketAction::ReportState,
            SocketRun::ConnectWithSession => SocketAction::ConnectWithProvider,
        },
        SocketEvent::Connected(Err(error)) => SocketAction::Fail(error),
        SocketEvent::Connected(Ok(())) => SocketAction::ReportState,
    }
}

/// Connect with a fixed token: whatever was connected is disconnected first.
pub fn connect_static(event: SocketEvent) -> (r: SocketAction)
    ensures
        r == next_action(SocketRun::ConnectStatic, event),
{
    match event {
        SocketEvent::Asked => SocketAction::LockIdentity,
        SocketEvent::IdentityLocked => SocketAction::Disconnect,
        SocketEvent::LiveKnown(live) => if live {
            SocketAction::ReportState
        } else {
            SocketAction::Disconnect
        },
        SocketEvent::Disconnected(Err(error)) => SocketAction::Fail(error),
        SocketEvent::Disconnected(Ok(())) => SocketAction::Connect,
        SocketEvent::Connected(Err(error)) => SocketAction::Fail(error),
        SocketEvent::Connected(Ok(())) => SocketAction::ReportState,
    }
}

/// Disconnect.
pub fn disconnect(event: SocketEvent) -> (r: SocketAction)
    ensures
        r == next_action(SocketRun::Disconnect, event),
{
    match event {
        SocketEvent::Asked => SocketAction::LockIdentity,
        SocketEvent::IdentityLocked => SocketAction::Disconnect,
        SocketEvent::LiveKnown(live) => if live {
            SocketAction::ReportState
        } else {
            SocketAction::Disconnect
        },
        SocketEvent::Disconnected(Err(error)) => SocketAction::Fail(error),
        SocketEvent::Disconnected(Ok(())) => SocketAction::ReportState,
        SocketEvent::Connected(Err(error)) => SocketAction::Fail(error),
        SocketEvent::Connected(Ok(())) => SocketAction::ReportState,
    }
}

/// Connect with the session: a socket that is live for it is used as it is.
pub fn connect_with_session(event: SocketEvent) -> (r: SocketAction)
    ensures
        r == next_action(SocketRun::ConnectWithSession, event),
{
    match event {
        SocketEvent::Asked => SocketAction::LockIdentity,
        SocketEvent::IdentityLocked => SocketAction::AskWhetherLive,
        SocketEvent::LiveKnown(live) => if live {
            SocketAction::ReportState
        } else {
            SocketAction::Disconnect
        },
        SocketEvent::Disconnected(Err(error)) => SocketAction::Fail(error),
        SocketEvent::Disconnected(Ok(())) => SocketAction::ConnectWithProvider,
        SocketEvent::Connected(Err(error)) => SocketAction::Fail(error),
        SocketEvent::Connected(Ok(())) => SocketAction::ReportState,
    }
}

/// The token of the session, from what reading it gave.
pub open spec fn token_of(read: Result<Option<Seq<char>>, Seq<char>>) -> Result<
    Seq<char>,
    Seq<char>,
> {
    match read {
        Ok(Some(token)) => Ok(token),
        Ok(None) => Err("no session token stored — user must log in first"@),
        Err(error) => Err("failed to read session token: "@ + error),
    }
}

/// The token of the session, from what reading it gave: the read may have failed, and there may be
/// none.
pub fn session_token(read: Result<Option<String>, String>) -> (r: Result<String, String>)
    ensures
        match read {
            Ok(Some(token)) => r == Ok::<String, String>(token),
            Ok(None) => r is Err && r->Err_0@
                == "no session token stored — user must log in first"@,
            Err(error) => r is Err && r->Err_0@ == "failed to read session token: "@ + error@,
        },
        ({
            let given = match read {
                Ok(token) => Ok(opt_text(token)),
                Err(error) => Err(error@),
            };
            match r {
                Ok(token) => token_of(given) == Ok::<_, Seq<char>>(token@),
                Err(told) => token_of(given) == Err::<Seq<char>, _>(told@),
            }
        }),
{
    match read {
        Ok(Some(token)) => Ok(token),
        Ok(None) => Err("no session token stored — user must log in first".to_owned()),
        Err(error) => Err(cat("failed to read session token: ", error.as_str())),
    }
}

/// What an action comes to. A report and a failure end the run.
pub open spec fn comes_to(action: SocketAction, event: SocketEvent) -> bool {
    match action {
        SocketAction::LockIdentity => event == SocketEvent::IdentityLocked,
        SocketAction::AskWhetherLive => event is LiveKnown,
        SocketAction::Disconnect => event is Disconnected,
        SocketAction::Connect => event is Connected,
        SocketAction::ConnectWithProvider => event is Connected,
        SocketAction::ReportState => false,
        SocketAction::Fail(_) => false,
    }
}

/// A course of a run: each event leads to the action next to it, and each action to the event
/// behind it.
pub open spec fn course(
    run: SocketRun,
    events: Seq<SocketEvent>,
    actions: Seq<SocketAction>,
) -> bool {
    &&& events.len() == actions.len()
    &&& events.len() > 0
    &&& events[0] == SocketEvent::Asked
    &&& forall|i: int|
        0 <= i < events.len() ==> actions[i] == next_action(run, #[trigger] events[i])
    &&& forall|i: int, j: int|
        0 <= i && j == i + 1 && j < events.len() ==> comes_to(
            #[trigger] actions[i],
            #[trigger] events[j],
        )
}

/// The action connects the socket.
pub open spec fn connects(action: SocketAction) -> bool {
    action is Connect || action is ConnectWithProvider
}

/// Nothing is done to the socket before the identity is locked; it is connected only right after
/// it was disconnected, at most once, and every run is over after five actions.
pub proof fn law_the_socket_is_rebound_under_the_lock(
    run: SocketRun,
    events: Seq<SocketEvent>,
    actions: Seq<SocketAction>,
)
    requires
        course(run, events, actions),
    ensures
        actions[0] == SocketAction::LockIdentity,
        actions.len() <= 5,
        forall|i: int|
            0 <= i < actions.len() && connects(#[trigger] actions[i]) ==> i >= 2 && actions[i - 1]
                == SocketAction::Disconnect && events[i] is Disconnected && events[i]->Disconnected_0 is Ok,
        forall|i: int, j: int|
            0 <= i < j < actions.len() ==> !(connects(#[trigger] actions[i]) && connects(
                #[trigger] actions[j],
            )),
{
    assert(actions[0] == next_action(run, events[0]));
    if actions.len() > 1 {
        assert(comes_to(actions[0], events[1]));
        assert(actions[1] == next_action(run, events[1]));
    }
    if actions.len() > 2 {
        assert(comes_to(actions[1], events[2]));
        assert(actions[2] == next_action(run, events[2]));
    }
    if actions.len() > 3 {
        assert(comes_to(actions[2], events[3]));
        assert(actions[3] == next_action(run, events[3]));
    }
    if actions.len() > 4 {
        assert(comes_to(actions[3], events[4]));
        assert(actions[4] == next_action(run, events[4]));
    }
    if actions.len() > 5 {
        assert(comes_to(actions[4], events[5]));
    }
    assert forall|i: int|
        0 <= i < actions.len() && connects(#[trigger] actions[i]) implies i >= 2 && actions[i - 1]
        == SocketAction::Disconnect && events[i] is Disconnected && events[i]->Disconnected_0 is Ok by {
        assert(actions[i] == next_action(run, events[i]));
        if i > 0 {
            assert(comes_to(actions[i - 1], events[i]));
        }
    }
}

/// A socket that is live for the session is neither disconnected nor connected anew.
pub proof fn law_a_live_socket_is_kept(events: Seq<SocketEvent>, actions: Seq<SocketAction>)
    requires
        course(SocketRun::ConnectWithSession, events, actions),
        events.len() > 2,
        events[2] == SocketEvent::LiveKnown(true),
    ensures
        actions =~= seq![
            SocketAction::LockIdentity,
            SocketAction::AskWhetherLive,
            SocketAction::ReportState,
        ],
{
    let run = SocketRun::ConnectWithSession;
    assert(actions[0] == next_action(run, events[0]));
    assert(comes_to(actions[0], events[1]));
    assert(actions[1] == next_action(run, events[1]));
    assert(actions[2] == next_action(run, events[2]));
    if actions.len() > 3 {
        assert(comes_to(actions[2], events[3]));
    }
}

/// What each run does, step by step: it locks the identity first; a connection with the session asks
/// whether the socket is live and leaves one that is; whatever else is there is disconnected; and
/// then the connection with a fixed token connects with it, that with the session with a provider of
/// tokens, and a disconnection reports.
pub proof fn law_each_run_takes_its_steps(live: bool)
    ensures
        forall|run: SocketRun| #[trigger]
            next_action(run, SocketEvent::Asked) == SocketAction::LockIdentity,
        next_action(SocketRun::ConnectStatic, SocketEvent::IdentityLocked)
            == SocketAction::Disconnect,
        next_action(SocketRun::Disconnect, SocketEvent::IdentityLocked) == SocketAction::Disconnect,
        next_action(SocketRun::ConnectWithSession, SocketEvent::IdentityLocked)
            == SocketAction::AskWhetherLive,
        live ==> next_action(SocketRun::ConnectWithSession, SocketEvent::LiveKnown(live))
            == SocketAction::ReportState,
        !live ==> next_action(SocketRun::ConnectWithSession, SocketEvent::LiveKnown(live))
            == SocketAction::Disconnect,
        next_action(SocketRun::ConnectStatic, SocketEvent::Disconnected(Ok(())))
            == SocketAction::Connect,
        next_action(SocketRun::ConnectWithSession, SocketEvent::Disconnected(Ok(())))
            == SocketAction::ConnectWithProvider,
        next_action(SocketRun::Disconnect, SocketEvent::Disconnected(Ok(())))
            == SocketAction::ReportState,
        forall|run: SocketRun| #[trigger]
            next_action(run, SocketEvent::Connected(Ok(()))) == SocketAction::ReportState,
{
}

/// A failure to disconnect or to connect ends every run with that very failure.
pub proof fn law_a_failure_is_told_as_it_is(run: SocketRun, error: String)
    ensures
        next_action(run, SocketEvent::Disconnected(Err(error))) == SocketAction::Fail(error),
        next_action(run, SocketEvent::Connected(Err(error))) == SocketAction::Fail(error),
{
}

/// A run that only disconnects never connects, and no run connects in the way of another.
pub proof fn law_a_run_connects_in_its_own_way(run: SocketRun, event: SocketEvent)
    ensures
        next_action(run, event) is Connect ==> run is ConnectStatic && event is Disconnected
            && event->Disconnected_0 is Ok,
        next_action(run, event) is ConnectWithProvider ==> run is ConnectWithSession
            && event is Disconnected && event->Disconnected_0 is Ok,
        next_action(run, event) is Fail ==> (event is Disconnected && event->Disconnected_0 is Err)
            || (event is Connected && event->Connected_0 is Err),
        next_action(run, event) is AskWhetherLive ==> run is ConnectWithSession,
{
}

/// A stored token is given as it is, whatever it holds; without one the user is asked to log in, and
/// a read that failed is told with its error in whole.
pub proof fn law_a_stored_token_is_given_as_it_is(token: Seq<char>, error: Seq<char>)
    ensures
        token_of(Ok(Some(token))) == Ok::<_, Seq<char>>(token),
        token_of(Ok(None)) == Err::<Seq<char>, _>(
            "no session token stored — user must log in first"@,
        ),
        token_of(Err(error)) == Err::<Seq<char>, _>("failed to read session token: "@ + error),
{
}

} // verus!
