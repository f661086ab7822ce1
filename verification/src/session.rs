//! The session lifecycle: launching and connecting engine endpoints,
//! creating and joining a game, and the per-tick control loop, as an
//! explicit state machine. The surrounding process performs each
//! returned action (a request, a callback invocation) and feeds the
//! outcome back in as the next event.

use vstd::prelude::*;

verus! {

/// A decoded engine-reported protocol failure: the error code's name
/// and the detail text the response carried.
#[derive(Debug)]
pub struct ProtoError {
    pub kind: String,
    pub details: String,
}

impl ProtoError {
    pub fn new(kind: String, details: String) -> (r: ProtoError)
        ensures
            r.kind@ == kind@,
            r.details@ == details@,
    {
        ProtoError { kind, details }
    }
}

/// The playable factions.
#[derive(Clone, Copy, Debug, PartialEq, Eq, Structural)]
pub enum Race {
    Terran,
    Zerg,
    Protoss,
    Random,
}

/// Scripted-opponent difficulty steps.
#[derive(Clone, Copy, Debug, PartialEq, Eq, Structural)]
pub enum Difficulty {
    VeryEasy,
    Easy,
    Medium,
    MediumHard,
    Hard,
    Harder,
    VeryHard,
    CheatVision,
    CheatMoney,
    CheatInsane,
}

/// Scripted-opponent build styles.
#[derive(Clone, Copy, Debug, PartialEq, Eq, Structural)]
pub enum AIBuild {
    RandomBuild,
    Rush,
    Timing,
    Power,
    Macro,
    Air,
}

/// A scripted opponent for the single-player entry mode.
#[derive(Clone, Copy, Debug)]
pub struct Computer {
    pub race: Race,
    pub difficulty: Difficulty,
    pub ai_build: Option<AIBuild>,
}

/// One participant's join settings.
#[derive(Debug)]
pub struct PlayerSettings {
    pub race: Race,
    pub name: Option<String>,
    pub raw_affects_selection: bool,
}

/// The port-coordination block of a multi-participant join: one
/// shared port, the server pair and one pair per client.
#[derive(Debug)]
pub struct Ports {
    pub shared: i32,
    pub server: (i32, i32),
    pub client: Vec<(i32, i32)>,
}

/// The port block a ladder manager implies with one player port:
/// five consecutive ports after it.
pub fn ladder_ports(player_port: i32) -> (r: Ports)
    requires
        player_port <= 0x7fff_fffa,
    ensures
        r.shared == player_port + 1,
        r.server.0 == player_port + 2 && r.server.1 == player_port + 3,
        r.client@.len() == 1,
        r.client@[0].0 == player_port + 4 && r.client@[0].1 == player_port + 5,
{
    let mut client: Vec<(i32, i32)> = Vec::new();
    client.push((player_port + 4, player_port + 5));
    Ports { shared: player_port + 1, server: (player_port + 2, player_port + 3), client }
}

/// The port block of a two-participant hosted game: eight consecutive
/// ports after the two connection ports.
pub fn hosted_game_ports(base_port: i32) -> (r: Ports)
    requires
        base_port <= 0x7fff_fff6,
    ensures
        r.shared == base_port + 2,
        r.server.0 == base_port + 3 && r.server.1 == base_port + 4,
        r.client@.len() == 2,
        r.client@[0].0 == base_port + 5 && r.client@[0].1 == base_port + 6,
        r.client@[1].0 == base_port + 7 && r.client@[1].1 == base_port + 8,
{
    let mut client: Vec<(i32, i32)> = Vec::new();
    client.push((base_port + 5, base_port + 6));
    client.push((base_port + 7, base_port + 8));
    Ports { shared: base_port + 2, server: (base_port + 3, base_port + 4), client }
}

/// Everything a join request states; the transport encodes it on the
/// wire unchanged.
#[derive(Debug)]
pub struct JoinRequest {
    pub race: Race,
    pub raw: bool,
    pub score: bool,
    pub show_cloaked: bool,
    pub show_burrowed_shadows: bool,
    pub show_placeholders: bool,
    pub raw_affects_selection: bool,
    pub player_name: Option<String>,
    pub ports: Option<Ports>,
}

/// Build the join request for one participant: the raw observation
/// interface with score, cloaked, burrowed-shadow and placeholder
/// reporting on, and the port block when one is needed.
pub fn join_game(settings: PlayerSettings, ports: Option<Ports>) -> (r: JoinRequest)
    ensures
        r.race == settings.race,
        r.raw && r.score && r.show_cloaked && r.show_burrowed_shadows && r.show_placeholders,
        r.raw_affects_selection == settings.raw_affects_selection,
        r.player_name == settings.name,
        r.ports == ports,
{
    JoinRequest {
        race: settings.race,
        raw: true,
        score: true,
        show_cloaked: true,
        show_burrowed_shadows: true,
        show_placeholders: true,
        raw_affects_selection: settings.raw_affects_selection,
        player_name: settings.name,
        ports,
    }
}

/// The decoded join response: the engine's error, if it refused, and
/// the assigned one-based player identifier.
#[derive(Debug)]
pub struct JoinResponse {
    pub error: Option<(String, String)>,
    pub player_id: u32,
}

/// Decode the join response: an error field refuses the join and
/// carries the decoded code and details; otherwise the player
/// identifier is assigned.
pub fn wait_join(res: JoinResponse) -> (r: Result<u32, ProtoError>)
    ensures
        match res.error {
            Some(e) => r is Err && r->Err_0.kind@ == e.0@ && r->Err_0.details@ == e.1@,
            None => r == Ok::<u32, ProtoError>(res.player_id),
        },
{
    match res.error {
        Some(e) => Err(ProtoError::new(e.0, e.1)),
        None => Ok(res.player_id),
    }
}

/// Decode the create-game response in the same way.
pub fn create_game_result(error: Option<(String, String)>) -> (r: Result<(), ProtoError>)
    ensures
        match error {
            Some(e) => r is Err && r->Err_0.kind@ == e.0@ && r->Err_0.details@ == e.1@,
            None => r is Ok,
        },
{
    match error {
        Some(e) => Err(ProtoError::new(e.0, e.1)),
        None => Ok(()),
    }
}

// ---------------------------------------------------------------------
// The lifecycle state machine.

/// Where within one tick the loop stands.
#[derive(Clone, Copy, Debug, PartialEq, Eq, Structural)]
pub enum StepPhase {
    AwaitObservation,
    AwaitAbilities,
    FirstCallback,
    InCallback,
    Flushing,
    Advancing,
}

/// The session lifecycle states.
#[derive(Clone, Copy, Debug, PartialEq, Eq, Structural)]
pub enum SessionState {
    Idle,
    Launching,
    Connecting,
    CreatingGame,
    JoiningGame,
    Ready,
    Stepping(StepPhase),
    Ended,
    Error,
}

/// What the surrounding process reports back to the machine.
#[derive(Clone, Copy, Debug, PartialEq, Eq, Structural)]
pub enum SessionEvent {
    LaunchOk,
    LaunchFailed,
    ConnectOk,
    ConnectFailed,
    CreateGameOk,
    CreateGameFailed,
    JoinOk(u32),
    JoinFailed,
    ObservationRunning,
    ObservationEnded,
    AbilitiesReceived,
    CallbackOk,
    CallbackFailed,
    Flushed,
    Stepped,
    TransportFailed,
}

/// What the surrounding process must do next.
#[derive(Clone, Copy, Debug, PartialEq, Eq, Structural)]
pub enum SessionAction {
    LaunchProcess,
    Connect,
    SendCreateGame,
    SendJoinGame,
    RequestObservation,
    QueryAbilities,
    InvokeOnStart,
    InvokeOnStep,
    FlushActions,
    SendStepRequest,
    InvokeOnEnd,
    ReportError,
    NoAction,
}

/// The machine: lifecycle state, the joined player identifier, and
/// the two mode flags that shape the loop.
#[derive(Clone, Copy, Debug, PartialEq, Eq, Structural)]
pub struct Session {
    pub state: SessionState,
    pub player_id: u32,
    /// The engine free-runs; no step-advance requests are sent.
    pub realtime: bool,
    /// Join an existing game: no launch, no game creation.
    pub ladder: bool,
}

impl Session {
    pub fn new(realtime: bool, ladder: bool) -> (s: Session)
        ensures
            s.state is Idle && s.player_id == 0 && s.realtime == realtime && s.ladder
                == ladder,
    {
        Session { state: SessionState::Idle, player_id: 0, realtime, ladder }
    }
}

/// The transition relation: the next machine and the action the
/// surrounding process must perform. A transport failure is fatal in
/// every state; `Ended` and `Error` absorb every event; an event that
/// the current state cannot produce changes nothing.
pub open spec fn spec_transition(s: Session, e: SessionEvent) -> (Session, SessionAction) {
    let fail = (Session { state: SessionState::Error, ..s }, SessionAction::ReportError);
    let stay = (s, SessionAction::NoAction);
    if s.state is Ended || s.state is Error {
        stay
    } else if e is TransportFailed {
        fail
    } else {
        match s.state {
            SessionState::Idle => stay,
            SessionState::Launching => match e {
                SessionEvent::LaunchOk => (
                    Session { state: SessionState::Connecting, ..s },
                    SessionAction::Connect,
                ),
                SessionEvent::LaunchFailed => fail,
                _ => stay,
            },
            SessionState::Connecting => match e {
                SessionEvent::ConnectOk => if s.ladder {
                    (
                        Session { state: SessionState::JoiningGame, ..s },
                        SessionAction::SendJoinGame,
                    )
                } else {
                    (
                        Session { state: SessionState::CreatingGame, ..s },
                        SessionAction::SendCreateGame,
                    )
                },
                SessionEvent::ConnectFailed => fail,
                _ => stay,
            },
            SessionState::CreatingGame => match e {
                SessionEvent::CreateGameOk => (
                    Session { state: SessionState::JoiningGame, ..s },
                    SessionAction::SendJoinGame,
                ),
                SessionEvent::CreateGameFailed => fail,
                _ => stay,
            },
            SessionState::JoiningGame => match e {
                SessionEvent::JoinOk(pid) => (
                    Session { state: SessionState::Ready, player_id: pid, ..s },
                    SessionAction::RequestObservation,
                ),
                SessionEvent::JoinFailed => fail,
                _ => stay,
            },
            SessionState::Ready => match e {
                SessionEvent::ObservationEnded => (
                    Session { state: SessionState::Ended, ..s },
                    SessionAction::InvokeOnEnd,
                ),
                SessionEvent::ObservationRunning => (
                    Session { state: SessionState::Stepping(StepPhase::FirstCallback), ..s },
                    SessionAction::InvokeOnStart,
                ),
                _ => stay,
            },
            SessionState::Stepping(phase) => match phase {
                StepPhase::AwaitObservation => match e {
                    SessionEvent::ObservationEnded => (
                        Session { state: SessionState::Ended, ..s },
                        SessionAction::InvokeOnEnd,
                    ),
                    SessionEvent::ObservationRunning => (
                        Session {
                            state: SessionState::Stepping(StepPhase::AwaitAbilities),
                            ..s
                        },
                        SessionAction::QueryAbilities,
                    ),
                    _ => stay,
                },
                StepPhase::AwaitAbilities => match e {
                    SessionEvent::AbilitiesReceived => (
                        Session { state: SessionState::Stepping(StepPhase::InCallback), ..s },
                        SessionAction::InvokeOnStep,
                    ),
                    _ => stay,
                },
                StepPhase::FirstCallback | StepPhase::InCallback => match e {
                    SessionEvent::CallbackOk => (
                        Session { state: SessionState::Stepping(StepPhase::Flushing), ..s },
                        SessionAction::FlushActions,
                    ),
                    SessionEvent::CallbackFailed => fail,
                    _ => stay,
                },
                StepPhase::Flushing => match e {
                    SessionEvent::Flushed => if s.realtime {
                        (
                            Session {
                                state: SessionState::Stepping(StepPhase::AwaitObservation),
                                ..s
                            },
                            SessionAction::RequestObservation,
                        )
                    } else {
                        (
                            Session { state: SessionState::Stepping(StepPhase::Advancing), ..s },
                            SessionAction::SendStepRequest,
                        )
                    },
                    _ => stay,
                },
                StepPhase::Advancing => match e {
                    SessionEvent::Stepped => (
                        Session {
                            state: SessionState::Stepping(StepPhase::AwaitObservation),
                            ..s
                        },
                        SessionAction::RequestObservation,
                    ),
                    _ => stay,
                },
            },
            SessionState::Ended => stay,
            SessionState::Error => stay,
        }
    }
}

/// One machine step.
pub fn transition(s: Session, e: SessionEvent) -> (r: (Session, SessionAction))
    ensures
        r == spec_transition(s, e),
{
    match s.state {
        SessionState::Ended => (s, SessionAction::NoAction),
        SessionState::Error => (s, SessionAction::NoAction),
        _ => {
            if matches!(e, SessionEvent::TransportFailed) {
                return (
                    Session { state: SessionState::Error, ..s },
                    SessionAction::ReportError,
                );
            }
            match (s.state, e) {
                (SessionState::Launching, SessionEvent::LaunchOk) => (
                    Session { state: SessionState::Connecting, ..s },
                    SessionAction::Connect,
                ),
                (SessionState::Launching, SessionEvent::LaunchFailed) => (
                    Session { state: SessionState::Error, ..s },
                    SessionAction::ReportError,
                ),
                (SessionState::Connecting, SessionEvent::ConnectOk) => if s.ladder {
                    (
                        Session { state: SessionState::JoiningGame, ..s },
                        SessionAction::SendJoinGame,
                    )
                } else {
                    (
                        Session { state: SessionState::CreatingGame, ..s },
                        SessionAction::SendCreateGame,
                    )
                },
                (SessionState::Connecting, SessionEvent::ConnectFailed) => (
                    Session { state: SessionState::Error, ..s },
                    SessionAction::ReportError,
                ),
                (SessionState::CreatingGame, SessionEvent::CreateGameOk) => (
                    Session { state: SessionState::JoiningGame, ..s },
                    SessionAction::SendJoinGame,
                ),
                (SessionState::CreatingGame, SessionEvent::CreateGameFailed) => (
                    Session { state: SessionState::Error, ..s },
                    SessionAction::ReportError,
                ),
                (SessionState::JoiningGame, SessionEvent::JoinOk(pid)) => (
                    Session { state: SessionState::Ready, player_id: pid, ..s },
                    SessionAction::RequestObservation,
                ),
                (SessionState::JoiningGame, SessionEvent::JoinFailed) => (
                    Session { state: SessionState::Error, ..s },
                    SessionAction::ReportError,
                ),
                (SessionState::Ready, SessionEvent::ObservationEnded) => (
                    Session { state: SessionState::Ended, ..s },
                    SessionAction::InvokeOnEnd,
                ),
                (SessionState::Ready, SessionEvent::ObservationRunning) => (
                    Session { state: SessionState::Stepping(StepPhase::FirstCallback), ..s },
                    SessionAction::InvokeOnStart,
                ),
                (
                    SessionState::Stepping(StepPhase::AwaitObservation),
                    SessionEvent::ObservationEnded,
                ) => (Session { state: SessionState::Ended, ..s }, SessionAction::InvokeOnEnd),
                (
                    SessionState::Stepping(StepPhase::AwaitObservation),
                    SessionEvent::ObservationRunning,
                ) => (
                    Session { state: SessionState::Stepping(StepPhase::AwaitAbilities), ..s },
                    SessionAction::QueryAbilities,
                ),
                (
                    SessionState::Stepping(StepPhase::AwaitAbilities),
                    SessionEvent::AbilitiesReceived,
                ) => (
                    Session { state: SessionState::Stepping(StepPhase::InCallback), ..s },
                    SessionAction::InvokeOnStep,
                ),
                (SessionState::Stepping(StepPhase::FirstCallback), SessionEvent::CallbackOk) => (
                    Session { state: SessionState::Stepping(StepPhase::Flushing), ..s },
                    SessionAction::FlushActions,
                ),
                (SessionState::Stepping(StepPhase::InCallback), SessionEvent::CallbackOk) => (
                    Session { state: SessionState::Stepping(StepPhase::Flushing), ..s },
                    SessionAction::FlushActions,
                ),
                (
                    SessionState::Stepping(StepPhase::FirstCallback),
                    SessionEvent::CallbackFailed,
                ) => (Session { state: SessionState::Error, ..s }, SessionAction::ReportError),
                (SessionState::Stepping(StepPhase::InCallback), SessionEvent::CallbackFailed) => (
                    Session { state: SessionState::Error, ..s },
                    SessionAction::ReportError,
                ),
                (SessionState::Stepping(StepPhase::Flushing), SessionEvent::Flushed) => if s
                    .realtime {
                    (
                        Session {
                            state: SessionState::Stepping(StepPhase::AwaitObservation),
                            ..s
                        },
                        SessionAction::RequestObservation,
                    )
                } else {
                    (
                        Session { state: SessionState::Stepping(StepPhase::Advancing), ..s },
                        SessionAction::SendStepRequest,
                    )
                },
                (SessionState::Stepping(StepPhase::Advancing), SessionEvent::Stepped) => (
                    Session { state: SessionState::Stepping(StepPhase::AwaitObservation), ..s },
                    SessionAction::RequestObservation,
                ),
                _ => (s, SessionAction::NoAction),
            }
        },
    }
}

/// Entry of the launch-driven modes: start the engine process.
pub fn begin_launch(s: Session) -> (r: (Session, SessionAction))
    requires
        s.state is Idle,
    ensures
        r.0.state is Launching && r.1 is LaunchProcess,
        r.0.player_id == s.player_id && r.0.realtime == s.realtime && r.0.ladder == s.ladder,
{
    (Session { state: SessionState::Launching, ..s }, SessionAction::LaunchProcess)
}

/// Entry of the ladder mode: connect to the supplied endpoint.
pub fn begin_ladder(s: Session) -> (r: (Session, SessionAction))
    requires
        s.state is Idle,
        s.ladder,
    ensures
        r.0.state is Connecting && r.1 is Connect,
        r.0.player_id == s.player_id && r.0.realtime == s.realtime && r.0.ladder == s.ladder,
{
    (Session { state: SessionState::Connecting, ..s }, SessionAction::Connect)
}

/// The actions a whole event sequence produces, in order.
pub open spec fn run_actions(s: Session, events: Seq<SessionEvent>) -> Seq<SessionAction>
    decreases events.len(),
{
    if events.len() == 0 {
        Seq::empty()
    } else {
        let r = spec_transition(s, events.first());
        seq![r.1] + run_actions(r.0, events.drop_first())
    }
}

/// A session in the error state never invokes a lifecycle callback
/// and never steps again, whatever events still arrive.
pub proof fn lemma_error_is_terminal(s: Session, events: Seq<SessionEvent>)
    requires
        s.state is Error,
    ensures
        forall|i: int|
            0 <= i < run_actions(s, events).len() ==> run_actions(s, events)[i]
                == SessionAction::NoAction,
    decreases events.len(),
{
    if events.len() > 0 {
        let r = spec_transition(s, events.first());
        assert(r.0 == s && r.1 == SessionAction::NoAction);
        lemma_error_is_terminal(s, events.drop_first());
        assert forall|i: int|
            0 <= i < run_actions(s, events).len() implies run_actions(s, events)[i]
            == SessionAction::NoAction by {
            if i > 0 {
                assert(run_actions(s, events)[i] == run_actions(s, events.drop_first())[i - 1]);
            }
        }
    }
}

/// An ended session is terminal in the same way: the end-of-game
/// report is the sole normal exit, and nothing runs after it.
pub proof fn lemma_ended_is_terminal(s: Session, events: Seq<SessionEvent>)
    requires
        s.state is Ended,
    ensures
        forall|i: int|
            0 <= i < run_actions(s, events).len() ==> run_actions(s, events)[i]
                == SessionAction::NoAction,
    decreases events.len(),
{
    if events.len() > 0 {
        let r = spec_transition(s, events.first());
        assert(r.0 == s && r.1 == SessionAction::NoAction);
        lemma_ended_is_terminal(s, events.drop_first());
        assert forall|i: int|
            0 <= i < run_actions(s, events).len() implies run_actions(s, events)[i]
            == SessionAction::NoAction by {
            if i > 0 {
                assert(run_actions(s, events)[i] == run_actions(s, events.drop_first())[i - 1]);
            }
        }
    }
}

/// An engine-reported error during game creation is fatal before the
/// loop begins: the error is reported at once, and no later event can
/// make the session invoke the start callback, a step callback, or
/// advance a step — the step loop never starts.
pub proof fn lemma_create_game_error_prevents_start(s: Session, events: Seq<SessionEvent>)
    requires
        s.state is CreatingGame,
        events.len() > 0,
        events.first() == SessionEvent::CreateGameFailed,
    ensures
        run_actions(s, events)[0] == SessionAction::ReportError,
        forall|i: int|
            1 <= i < run_actions(s, events).len() ==> run_actions(s, events)[i]
                != SessionAction::InvokeOnStart && run_actions(s, events)[i]
                != SessionAction::InvokeOnStep && run_actions(s, events)[i]
                != SessionAction::SendStepRequest,
{
    let r = spec_transition(s, events.first());
    assert(r.0.state is Error && r.1 == SessionAction::ReportError);
    lemma_error_is_terminal(r.0, events.drop_first());
    assert forall|i: int|
        1 <= i < run_actions(s, events).len() implies run_actions(s, events)[i]
        != SessionAction::InvokeOnStart && run_actions(s, events)[i]
        != SessionAction::InvokeOnStep && run_actions(s, events)[i]
        != SessionAction::SendStepRequest by {
        assert(run_actions(s, events)[i] == run_actions(r.0, events.drop_first())[i - 1]);
        assert(run_actions(r.0, events.drop_first())[i - 1] == SessionAction::NoAction);
    }
}

/// One teardown step of a session's connections and processes.
#[derive(Clone, Copy, Debug, PartialEq, Eq, Structural)]
pub enum TeardownStep {
    SendLeaveGame,
    SendQuit,
    KillProcess,
}

/// Teardown is unconditional and ordered: best-effort leave, then
/// quit, then terminate the launched process; failures of one step
/// never skip the following ones.
pub fn teardown_plan() -> (r: Vec<TeardownStep>)
    ensures
        r@ =~= seq![
            TeardownStep::SendLeaveGame,
            TeardownStep::SendQuit,
            TeardownStep::KillProcess,
        ],
{
    let mut r: Vec<TeardownStep> = Vec::new();
    r.push(TeardownStep::SendLeaveGame);
    r.push(TeardownStep::SendQuit);
    r.push(TeardownStep::KillProcess);
    r
}

/// The launch-time options of the hosted entry modes.
#[derive(Debug)]
pub struct LaunchOptions {
    pub sc2_version: Option<String>,
    pub save_replay_as: Option<String>,
    pub realtime: bool,
}

impl Default for LaunchOptions {
    fn default() -> (r: LaunchOptions)
        ensures
            r.sc2_version is None && r.save_replay_as is None && !r.realtime,
    {
        LaunchOptions { sc2_version: None, save_replay_as: None, realtime: false }
    }
}

} // verus!
