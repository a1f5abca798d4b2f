//! The life of the listener, from reading the configuration to the exit.
//!
//! The module decides; its caller acts. [`step`] takes the state and what
//! has just happened, and returns the next state together with what is to
//! be done now: bind, serve, stop accepting, report a failure, or finish.
//! The states are passed through in one direction only, so that a service
//! that was told to shut down never accepts again and one that has stopped
//! stays stopped.

use crate::config::{
    resolve, resolved, setting_text, ConfigError, Configuration, Variable,
};
use vstd::prelude::*;

verus! {

/// How the service ended.
#[derive(Clone, Copy, Debug, PartialEq, Eq, Structural)]
pub enum Outcome {
    /// It was told to shut down, and did.
    Graceful,
    /// A setting could not be read; nothing was bound.
    ConfigurationFailed,
    /// The listener could not be bound.
    BindFailed,
}

/// Where the service stands.
#[derive(Clone, Copy, Debug, PartialEq, Eq, Structural)]
pub enum State {
    /// The settings have not been read yet.
    Configuring,
    /// The listener is to be bound to the configuration.
    Binding(Configuration),
    /// Connections are accepted and answered.
    Serving(Configuration),
    /// No connection is accepted any more; those accepted before are being
    /// answered.
    ShuttingDown,
    /// Nothing happens any more.
    Stopped(Outcome),
}

/// One of the two signals that ask the service to shut down.
#[derive(Clone, Copy, Debug, PartialEq, Eq, Structural)]
pub enum Signal {
    /// The interrupt from the terminal.
    Interrupt,
    /// The request to terminate.
    Terminate,
}

/// What has just happened.
#[derive(Debug, PartialEq, Eq)]
pub enum Event {
    /// The environment was read: what it holds for the address and for the
    /// port, `None` for a setting that is unset.
    Environment { host: Option<String>, port: Option<String> },
    /// The listener is bound.
    Bound,
    /// The listener could not be bound.
    BindFailed,
    /// A signal arrived.
    Signalled(Signal),
    /// The connections that had been accepted are all answered.
    Drained,
}

/// Why the service stops without having served.
#[derive(Debug, PartialEq, Eq)]
pub enum Failure {
    /// A setting could not be read.
    Configuration(ConfigError),
    /// The listener could not be bound to this configuration.
    Bind(Configuration),
}

/// What is to be done now.
#[derive(Debug, PartialEq, Eq)]
pub enum Action {
    /// Bind the listener.
    Bind(Configuration),
    /// Accept connections and answer them.
    Serve,
    /// Accept no more connections; answer those already accepted.
    Drain,
    /// Report the failure and exit.
    Fail(Failure),
    /// Exit.
    Finish,
    /// Nothing: the event means nothing in this state.
    Ignore,
}

/// How far a state is along the way from start to stop.
pub open spec fn rank(state: State) -> nat {
    match state {
        State::Configuring => 0,
        State::Binding(_) => 1,
        State::Serving(_) => 2,
        State::ShuttingDown => 3,
        State::Stopped(_) => 4,
    }
}

/// Whether new connections are accepted in a state.
pub open spec fn accepts(state: State) -> bool {
    state is Serving
}

/// Whether connections that were accepted are still answered in a state.
pub open spec fn answers_accepted(state: State) -> bool {
    state is Serving || state is ShuttingDown
}

/// The exit code of an outcome: zero for a graceful shutdown only.
pub open spec fn exit_code(outcome: Outcome) -> u8 {
    match outcome {
        Outcome::Graceful => 0,
        Outcome::ConfigurationFailed => 1,
        Outcome::BindFailed => 1,
    }
}

/// The characters of a setting that an event carries, if it is set.
pub open spec fn carried_text(setting: Option<String>) -> Option<Seq<char>> {
    match setting {
        None => None,
        Some(text) => Some(text@),
    }
}

/// The state that follows `state` when `event` happens. An event that has
/// no meaning in a state leaves it as it is.
pub open spec fn next_state(state: State, event: Event) -> State {
    match (state, event) {
        (State::Configuring, Event::Environment { host, port }) => match resolved(
            carried_text(host),
            carried_text(port),
        ) {
            Ok(configuration) => State::Binding(configuration),
            Err(_) => State::Stopped(Outcome::ConfigurationFailed),
        },
        (State::Binding(configuration), Event::Bound) => State::Serving(configuration),
        (State::Binding(_), Event::BindFailed) => State::Stopped(Outcome::BindFailed),
        (State::Serving(_), Event::Signalled(_)) => State::ShuttingDown,
        (State::ShuttingDown, Event::Drained) => State::Stopped(Outcome::Graceful),
        _ => state,
    }
}

/// Whether `action` is what is to be done when `event` happens in `state`.
pub open spec fn is_action(action: Action, state: State, event: Event) -> bool {
    match (state, event) {
        (State::Configuring, Event::Environment { host, port }) => match resolved(
            carried_text(host),
            carried_text(port),
        ) {
            Ok(configuration) => action == Action::Bind(configuration),
            Err(variable) => {
                &&& action matches Action::Fail(Failure::Configuration(error))
                &&& error.variable == variable
                &&& variable == Variable::Host ==> host is Some && error.value@ == host->0@
                &&& variable == Variable::Port ==> port is Some && error.value@ == port->0@
            },
        },
        (State::Binding(_), Event::Bound) => action == Action::Serve,
        (State::Binding(configuration), Event::BindFailed) => action == Action::Fail(
            Failure::Bind(configuration),
        ),
        (State::Serving(_), Event::Signalled(_)) => action == Action::Drain,
        (State::ShuttingDown, Event::Drained) => action == Action::Finish,
        _ => action == Action::Ignore,
    }
}

/// The state after a series of events, taken in order.
pub open spec fn state_after(state: State, events: Seq<Event>) -> State
    decreases events.len(),
{
    if events.len() == 0 {
        state
    } else {
        next_state(state_after(state, events.drop_last()), events.last())
    }
}

impl Outcome {
    /// The exit code: zero for a graceful shutdown, one for a failure.
    pub fn code(&self) -> (r: u8)
        ensures
            r == exit_code(*self),
            r == 0 <==> *self == Outcome::Graceful,
    {
        match self {
            Outcome::Graceful => 0,
            Outcome::ConfigurationFailed => 1,
            Outcome::BindFailed => 1,
        }
    }
}

impl State {
    /// The state in which the service starts.
    pub fn initial() -> (r: State)
        ensures
            r == State::Configuring,
    {
        State::Configuring
    }

    /// Whether new connections are accepted.
    pub fn accepts_connections(&self) -> (r: bool)
        ensures
            r == accepts(*self),
    {
        match self {
            State::Serving(_) => true,
            _ => false,
        }
    }

    /// How the service ended, if it has.
    pub fn outcome(&self) -> (r: Option<Outcome>)
        ensures
            r == match *self {
                State::Stopped(outcome) => Some(outcome),
                _ => None,
            },
    {
        match self {
            State::Stopped(outcome) => Some(*outcome),
            _ => None,
        }
    }
}

/// The characters of a setting, borrowed.
fn borrowed(setting: &Option<String>) -> (r: Option<&str>)
    ensures
        setting_text(r) == carried_text(*setting),
{
    match setting {
        None => None,
        Some(text) => Some(text.as_str()),
    }
}

/// Takes one event: returns the state that follows and what is to be done.
pub fn step(state: State, event: Event) -> (r: (State, Action))
    ensures
        r.0 == next_state(state, event),
        is_action(r.1, state, event),
{
    match state {
        State::Configuring => match event {
            Event::Environment { host, port } => {
                match resolve(borrowed(&host), borrowed(&port)) {
                    Ok(configuration) => (State::Binding(configuration), Action::Bind(configuration)),
                    Err(error) => (
                        State::Stopped(Outcome::ConfigurationFailed),
                        Action::Fail(Failure::Configuration(error)),
                    ),
                }
            },
            _ => (state, Action::Ignore),
        },
        State::Binding(configuration) => match event {
            Event::Bound => (State::Serving(configuration), Action::Serve),
            Event::BindFailed => (
                State::Stopped(Outcome::BindFailed),
                Action::Fail(Failure::Bind(configuration)),
            ),
            _ => (state, Action::Ignore),
        },
        State::Serving(_) => match event {
            Event::Signalled(_) => (State::ShuttingDown, Action::Drain),
            _ => (state, Action::Ignore),
        },
        State::ShuttingDown => match event {
            Event::Drained => (State::Stopped(Outcome::Graceful), Action::Finish),
            _ => (state, Action::Ignore),
        },
        State::Stopped(_) => (state, Action::Ignore),
    }
}

/// No event takes the service back: a state is followed by itself or by a
/// later one.
pub proof fn lemma_step_forward(state: State, event: Event)
    ensures
        rank(state) <= rank(next_state(state, event)),
        rank(state) == rank(next_state(state, event)) ==> next_state(state, event) == state,
{
}

/// No series of events takes the service back.
pub proof fn lemma_forward(state: State, events: Seq<Event>)
    ensures
        rank(state) <= rank(state_after(state, events)),
    decreases events.len(),
{
    if events.len() > 0 {
        lemma_forward(state, events.drop_last());
        lemma_step_forward(state_after(state, events.drop_last()), events.last());
    }
}

/// Shutdown is for good: once the service is shutting down or has stopped,
/// it accepts no connection again, whatever happens.
pub proof fn lemma_shutdown_is_final(state: State, events: Seq<Event>)
    requires
        state is ShuttingDown || state is Stopped,
    ensures
        !accepts(state_after(state, events)),
        state_after(state, events) is ShuttingDown || state_after(state, events) is Stopped,
{
    lemma_forward(state, events);
}

/// A service that has stopped stays as it is, whatever happens.
pub proof fn lemma_stopped_is_terminal(outcome: Outcome, events: Seq<Event>)
    ensures
        state_after(State::Stopped(outcome), events) == State::Stopped(outcome),
    decreases events.len(),
{
    if events.len() > 0 {
        lemma_stopped_is_terminal(outcome, events.drop_last());
    }
}

/// Either signal, in any state, does what the other would do.
pub proof fn lemma_signals_alike(state: State, action: Action)
    ensures
        next_state(state, Event::Signalled(Signal::Interrupt)) == next_state(
            state,
            Event::Signalled(Signal::Terminate),
        ),
        is_action(action, state, Event::Signalled(Signal::Interrupt)) == is_action(
            action,
            state,
            Event::Signalled(Signal::Terminate),
        ),
{
}

/// Only the first signal counts: a second one changes nothing.
pub proof fn lemma_first_signal_wins(configuration: Configuration, first: Signal, second: Signal)
    ensures
        next_state(State::Serving(configuration), Event::Signalled(first)) == State::ShuttingDown,
        next_state(State::ShuttingDown, Event::Signalled(second)) == State::ShuttingDown,
        is_action(Action::Ignore, State::ShuttingDown, Event::Signalled(second)),
{
}

/// After a signal no connection is accepted, while those that were accepted
/// before it are still answered: the service stays in that state, whatever
/// else happens, until they are all answered, and only then stops.
pub proof fn lemma_graceful_shutdown(configuration: Configuration, signal: Signal, event: Event)
    ensures
        ({
            let state = next_state(State::Serving(configuration), Event::Signalled(signal));
            &&& !accepts(state)
            &&& answers_accepted(state)
            &&& event != Event::Drained ==> next_state(state, event) == state
            &&& next_state(state, Event::Drained) == State::Stopped(Outcome::Graceful)
        }),
{
}

/// A setting that cannot be read stops the service before anything is
/// bound: the state that follows is the last, and its exit code is not
/// zero.
pub proof fn lemma_configuration_failure_stops(
    host: Option<String>,
    port: Option<String>,
    events: Seq<Event>,
)
    requires
        resolved(carried_text(host), carried_text(port)) is Err,
    ensures
        ({
            let state = next_state(State::Configuring, Event::Environment { host, port });
            &&& state == State::Stopped(Outcome::ConfigurationFailed)
            &&& state_after(state, events) == state
            &&& exit_code(Outcome::ConfigurationFailed) != 0
        }),
{
    lemma_stopped_is_terminal(Outcome::ConfigurationFailed, events);
}

/// The service serves only what it was configured for: it gets to serving
/// from the start by no other way than settings that resolve, then a bound
/// listener.
pub proof fn lemma_serving_needs_configuration(state: State, event: Event)
    requires
        !(state is Serving),
        next_state(state, event) is Serving,
    ensures
        state is Binding,
        event == Event::Bound,
        next_state(state, event) == State::Serving(state->Binding_0),
{
}

/// The exit code is zero after a graceful shutdown and after nothing else,
/// and a graceful shutdown is reached from shutting down alone.
pub proof fn lemma_exit_codes(state: State, event: Event)
    requires
        !(state is Stopped),
        next_state(state, event) is Stopped,
    ensures
        exit_code(next_state(state, event)->Stopped_0) == 0 <==> state is ShuttingDown,
{
}

} // verus!
