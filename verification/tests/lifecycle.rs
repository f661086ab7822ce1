use rust_sc2::session::{
    begin_ladder, begin_launch, create_game_result, hosted_game_ports, join_game, ladder_ports,
    transition, wait_join, JoinResponse, LaunchOptions, PlayerSettings, Race, Session,
    SessionAction, SessionEvent, SessionState, StepPhase, TeardownStep, teardown_plan,
};

#[test]
fn create_game_error_is_fatal_before_on_start() {
    let s0 = Session::new(false, false);
    let (s1, a1) = begin_launch(s0);
    assert!(matches!(a1, SessionAction::LaunchProcess));
    let (s2, a2) = transition(s1, SessionEvent::LaunchOk);
    assert!(matches!(a2, SessionAction::Connect));
    let (s3, a3) = transition(s2, SessionEvent::ConnectOk);
    assert!(matches!(s3.state, SessionState::CreatingGame));
    assert!(matches!(a3, SessionAction::SendCreateGame));
    // The engine refuses the game creation.
    let (s4, a4) = transition(s3, SessionEvent::CreateGameFailed);
    assert!(matches!(s4.state, SessionState::Error));
    assert!(matches!(a4, SessionAction::ReportError));
    // No later event can start the loop or reach the start callback.
    let mut s = s4;
    for e in [
        SessionEvent::CreateGameOk,
        SessionEvent::JoinOk(1),
        SessionEvent::ObservationRunning,
        SessionEvent::CallbackOk,
        SessionEvent::Flushed,
        SessionEvent::Stepped,
    ] {
        let (s_next, a) = transition(s, e);
        assert!(matches!(s_next.state, SessionState::Error));
        assert!(matches!(a, SessionAction::NoAction));
        s = s_next;
    }
}

#[test]
fn happy_path_reaches_the_step_loop() {
    let s = Session::new(false, false);
    let (s, _) = begin_launch(s);
    let (s, _) = transition(s, SessionEvent::LaunchOk);
    let (s, _) = transition(s, SessionEvent::ConnectOk);
    let (s, _) = transition(s, SessionEvent::CreateGameOk);
    assert!(matches!(s.state, SessionState::JoiningGame));
    let (s, a) = transition(s, SessionEvent::JoinOk(2));
    assert_eq!(s.player_id, 2);
    assert!(matches!(s.state, SessionState::Ready));
    assert!(matches!(a, SessionAction::RequestObservation));
    let (s, a) = transition(s, SessionEvent::ObservationRunning);
    assert!(matches!(a, SessionAction::InvokeOnStart));
    let (s, a) = transition(s, SessionEvent::CallbackOk);
    assert!(matches!(a, SessionAction::FlushActions));
    // Lockstep mode advances explicitly after the flush.
    let (s, a) = transition(s, SessionEvent::Flushed);
    assert!(matches!(s.state, SessionState::Stepping(StepPhase::Advancing)));
    assert!(matches!(a, SessionAction::SendStepRequest));
    let (s, a) = transition(s, SessionEvent::Stepped);
    assert!(matches!(a, SessionAction::RequestObservation));
    let (s, a) = transition(s, SessionEvent::ObservationEnded);
    assert!(matches!(s.state, SessionState::Ended));
    assert!(matches!(a, SessionAction::InvokeOnEnd));
}

#[test]
fn realtime_mode_skips_the_step_request() {
    let s = Session {
        state: SessionState::Stepping(StepPhase::Flushing),
        player_id: 1,
        realtime: true,
        ladder: false,
    };
    let (s2, a) = transition(s, SessionEvent::Flushed);
    assert!(matches!(s2.state, SessionState::Stepping(StepPhase::AwaitObservation)));
    assert!(matches!(a, SessionAction::RequestObservation));
}

#[test]
fn ladder_mode_joins_without_creating() {
    let s = Session::new(false, true);
    let (s, a) = begin_ladder(s);
    assert!(matches!(a, SessionAction::Connect));
    let (s, a) = transition(s, SessionEvent::ConnectOk);
    assert!(matches!(s.state, SessionState::JoiningGame));
    assert!(matches!(a, SessionAction::SendJoinGame));
}

#[test]
fn transport_failure_is_fatal_everywhere() {
    let s = Session {
        state: SessionState::Stepping(StepPhase::InCallback),
        player_id: 1,
        realtime: false,
        ladder: false,
    };
    let (s2, a) = transition(s, SessionEvent::TransportFailed);
    assert!(matches!(s2.state, SessionState::Error));
    assert!(matches!(a, SessionAction::ReportError));
}

#[test]
fn ladder_ports_are_consecutive() {
    let p = ladder_ports(8000);
    assert_eq!(p.shared, 8001);
    assert_eq!(p.server, (8002, 8003));
    assert_eq!(p.client, vec![(8004, 8005)]);
}

#[test]
fn hosted_game_ports_cover_both_participants() {
    let p = hosted_game_ports(5000);
    assert_eq!(p.shared, 5002);
    assert_eq!(p.server, (5003, 5004));
    assert_eq!(p.client, vec![(5005, 5006), (5007, 5008)]);
}

#[test]
fn join_request_fixes_the_interface_options() {
    let settings = PlayerSettings {
        race: Race::Terran,
        name: Some(String::from("bot")),
        raw_affects_selection: true,
    };
    let req = join_game(settings, Some(ladder_ports(8000)));
    assert!(matches!(req.race, Race::Terran));
    assert!(req.raw && req.score);
    assert!(req.show_cloaked && req.show_burrowed_shadows && req.show_placeholders);
    assert!(req.raw_affects_selection);
    assert_eq!(req.player_name.as_deref(), Some("bot"));
    assert_eq!(req.ports.unwrap().shared, 8001);
}

#[test]
fn join_response_decodes_to_player_id_or_error() {
    let ok = JoinResponse { error: None, player_id: 2 };
    assert_eq!(wait_join(ok).unwrap(), 2);
    let refused = JoinResponse {
        error: Some((String::from("MapDoesNotExist"), String::from("no such map"))),
        player_id: 0,
    };
    let err = wait_join(refused).unwrap_err();
    assert_eq!(err.kind, "MapDoesNotExist");
    assert_eq!(err.details, "no such map");

    let created = create_game_result(None);
    assert!(created.is_ok());
    let refused = create_game_result(Some((String::from("InvalidMap"), String::new())));
    assert_eq!(refused.unwrap_err().kind, "InvalidMap");
}

#[test]
fn teardown_is_ordered_and_unconditional() {
    assert_eq!(
        teardown_plan(),
        vec![TeardownStep::SendLeaveGame, TeardownStep::SendQuit, TeardownStep::KillProcess]
    );
}

#[test]
fn launch_options_default_to_lockstep() {
    let o = LaunchOptions::default();
    assert!(o.sc2_version.is_none());
    assert!(o.save_replay_as.is_none());
    assert!(!o.realtime);
}
