use android_input_replayer::input::{Input, InputWithTimestamp, Key, Swipe, Tap};
use android_input_replayer::input_player::{
    InputPlayer, InputReplayState, Playback, PlaybackCommand, Repeating,
};
use tokio::sync::{oneshot, watch};

fn tap(t: u32, x: i32, y: i32) -> InputWithTimestamp {
    InputWithTimestamp { input: Input::Tap(Tap { x, y }), timestamp_milliseconds: t }
}

fn swipe(t: u32, ms: u32) -> InputWithTimestamp {
    InputWithTimestamp {
        input: Input::Swipe(Swipe { x: [1, 2], y: [3, 4], milliseconds: ms }),
        timestamp_milliseconds: t,
    }
}

fn key(t: u32) -> InputWithTimestamp {
    InputWithTimestamp { input: Input::Key(Key::Power), timestamp_milliseconds: t }
}

fn place(repetion: u32, reptetion_element: Option<usize>) -> InputReplayState {
    InputReplayState::Repeating(Repeating { repetion, reptetion_element })
}

fn run(playback: &mut Playback, steps: usize) -> Vec<PlaybackCommand> {
    (0..steps).map(|_| playback.step(false)).collect()
}

#[test]
fn waits_are_the_differences_between_actions() {
    let actions = vec![tap(0, 1, 1), key(50), tap(200, 2, 2)];
    let mut playback = Playback::new(actions.clone(), 300);
    assert_eq!(
        run(&mut playback, 8),
        vec![
            PlaybackCommand::Sleep(0),
            PlaybackCommand::Issue(place(0, Some(0)), actions[0].input),
            PlaybackCommand::Sleep(50),
            PlaybackCommand::Issue(place(0, Some(1)), actions[1].input),
            PlaybackCommand::Sleep(150),
            PlaybackCommand::Issue(place(0, Some(2)), actions[2].input),
            PlaybackCommand::Publish(place(0, None)),
            PlaybackCommand::Sleep(300),
        ]
    );
    assert_eq!(
        run(&mut playback, 3),
        vec![
            PlaybackCommand::Sleep(0),
            PlaybackCommand::Issue(place(1, Some(0)), actions[0].input),
            PlaybackCommand::Sleep(50),
        ]
    );
}

#[test]
fn a_swipe_at_the_end_is_given_its_duration() {
    let actions = vec![tap(10, 1, 1), swipe(60, 75)];
    let mut playback = Playback::new(actions.clone(), 200);
    assert_eq!(
        run(&mut playback, 8),
        vec![
            PlaybackCommand::Sleep(10),
            PlaybackCommand::Issue(place(0, Some(0)), actions[0].input),
            PlaybackCommand::Sleep(50),
            PlaybackCommand::Issue(place(0, Some(1)), actions[1].input),
            PlaybackCommand::Sleep(75),
            PlaybackCommand::Publish(place(0, None)),
            PlaybackCommand::Sleep(200),
            PlaybackCommand::Sleep(10),
        ]
    );
}

#[test]
fn a_swipe_in_the_middle_is_not_waited_for() {
    let actions = vec![swipe(0, 75), tap(5, 1, 1)];
    let mut playback = Playback::new(actions.clone(), 0);
    assert_eq!(
        run(&mut playback, 6),
        vec![
            PlaybackCommand::Sleep(0),
            PlaybackCommand::Issue(place(0, Some(0)), actions[0].input),
            PlaybackCommand::Sleep(5),
            PlaybackCommand::Issue(place(0, Some(1)), actions[1].input),
            PlaybackCommand::Publish(place(0, None)),
            PlaybackCommand::Sleep(0),
        ]
    );
}

#[test]
fn stop_seen_at_a_check_ends_the_playback() {
    let actions = vec![tap(0, 1, 1), key(50), tap(200, 2, 2)];
    let mut playback = Playback::new(actions.clone(), 300);
    assert!(playback.checks_stop());
    assert_eq!(playback.step(false), PlaybackCommand::Sleep(0));
    assert!(!playback.checks_stop());
    assert_eq!(playback.step(false), PlaybackCommand::Issue(place(0, Some(0)), actions[0].input));
    assert!(playback.checks_stop());
    assert!(!playback.is_finished());
    assert_eq!(playback.step(true), PlaybackCommand::Finish);
    assert!(playback.is_finished());
    for stop in [false, true, false] {
        assert_eq!(playback.step(stop), PlaybackCommand::Finish);
        assert!(playback.is_finished());
    }
}

#[test]
fn stop_during_a_wait_is_seen_at_the_next_check() {
    let actions = vec![tap(0, 1, 1), key(50)];
    let mut playback = Playback::new(actions.clone(), 300);
    assert_eq!(playback.step(false), PlaybackCommand::Sleep(0));
    assert_eq!(playback.step(true), PlaybackCommand::Issue(place(0, Some(0)), actions[0].input));
    assert_eq!(playback.step(true), PlaybackCommand::Finish);
    assert!(playback.is_finished());
}

#[test]
fn stop_after_the_last_action_is_seen_in_the_next_loop() {
    let actions = vec![swipe(20, 30)];
    let mut playback = Playback::new(actions.clone(), 40);
    assert_eq!(playback.step(false), PlaybackCommand::Sleep(20));
    assert_eq!(playback.step(false), PlaybackCommand::Issue(place(0, Some(0)), actions[0].input));
    assert_eq!(playback.step(true), PlaybackCommand::Sleep(30));
    assert_eq!(playback.step(true), PlaybackCommand::Publish(place(0, None)));
    assert_eq!(playback.step(true), PlaybackCommand::Sleep(40));
    assert_eq!(playback.step(true), PlaybackCommand::Finish);
}

#[test]
fn a_playback_of_nothing_only_pauses() {
    let mut playback = Playback::new(vec![], 40);
    assert!(playback.checks_stop());
    assert_eq!(
        run(&mut playback, 4),
        vec![
            PlaybackCommand::Publish(place(0, None)),
            PlaybackCommand::Sleep(40),
            PlaybackCommand::Publish(place(1, None)),
            PlaybackCommand::Sleep(40),
        ]
    );
    assert!(playback.checks_stop());
    assert!(!playback.is_finished());
}

#[test]
fn a_playback_of_nothing_can_be_stopped() {
    let mut playback = Playback::new(vec![], 40);
    assert_eq!(playback.step(true), PlaybackCommand::Finish);
    assert!(playback.is_finished());

    let mut playback = Playback::new(vec![], 40);
    assert_eq!(playback.step(false), PlaybackCommand::Publish(place(0, None)));
    assert!(!playback.checks_stop());
    assert_eq!(playback.step(true), PlaybackCommand::Sleep(40));
    assert!(playback.checks_stop());
    assert_eq!(playback.step(true), PlaybackCommand::Finish);
    assert!(playback.is_finished());
    assert_eq!(playback.step(false), PlaybackCommand::Finish);
}

#[test]
fn a_stop_is_noticed_within_five_steps() {
    for actions in [vec![], vec![key(5)], vec![swipe(5, 30)], vec![tap(0, 1, 1), swipe(5, 30)]] {
        for lead in 0..12 {
            let mut playback = Playback::new(actions.clone(), 40);
            run(&mut playback, lead);
            let mut issued = 0;
            for _ in 0..5 {
                if let PlaybackCommand::Issue(_, _) = playback.step(true) {
                    issued += 1;
                }
            }
            assert!(playback.is_finished());
            assert!(issued <= 1);
        }
    }
}

#[test]
fn a_time_before_the_previous_wraps() {
    let actions = vec![key(10), tap(4, 1, 1)];
    let mut playback = Playback::new(actions, 0);
    assert_eq!(playback.step(false), PlaybackCommand::Sleep(10));
    playback.step(false);
    assert_eq!(playback.step(false), PlaybackCommand::Sleep(4294967290));
}

#[test]
fn player_stops_once() {
    let (stop_send, mut stop_recv) = oneshot::channel::<()>();
    let (_status_send, status_recv) = watch::channel(InputReplayState::NotStarted);
    let mut player = InputPlayer::new(stop_send, status_recv);
    assert!(player.is_running());
    assert_eq!(stop_recv.try_recv(), Err(oneshot::error::TryRecvError::Empty));
    player.stop();
    assert!(!player.is_running());
    assert_eq!(stop_recv.try_recv(), Ok(()));
    player.stop();
    player.stop();
    assert!(!player.is_running());
}

#[test]
fn player_stop_survives_a_background_that_is_gone() {
    let (stop_send, stop_recv) = oneshot::channel::<()>();
    let (status_send, status_recv) = watch::channel(place(4, None));
    let mut player = InputPlayer::new(stop_send, status_recv);
    drop(stop_recv);
    drop(status_send);
    player.stop();
    assert!(!player.is_running());
    assert_eq!(player.get_current_status(), place(4, None));
}

#[test]
fn a_player_let_go_asks_the_playback_to_stop() {
    let (stop_send, mut stop_recv) = oneshot::channel::<()>();
    let (_status_send, status_recv) = watch::channel(InputReplayState::NotStarted);
    let player = InputPlayer::new(stop_send, status_recv);
    assert_eq!(stop_recv.try_recv(), Err(oneshot::error::TryRecvError::Empty));
    drop(player);
    assert_eq!(stop_recv.try_recv(), Ok(()));
}

#[test]
fn player_shows_the_latest_status() {
    let (stop_send, _stop_recv) = oneshot::channel::<()>();
    let (status_send, status_recv) = watch::channel(InputReplayState::NotStarted);
    let player = InputPlayer::new(stop_send, status_recv);
    assert_eq!(player.get_current_status(), InputReplayState::NotStarted);
    status_send.send(place(0, Some(1))).unwrap();
    assert_eq!(player.get_current_status(), place(0, Some(1)));
    assert_eq!(player.get_current_status(), place(0, Some(1)));
    status_send.send(place(0, None)).unwrap();
    status_send.send(place(1, Some(0))).unwrap();
    assert_eq!(player.get_current_status(), place(1, Some(0)));
    assert!(player.is_running());
    status_send.send(InputReplayState::Finished).unwrap();
    assert_eq!(player.get_current_status(), InputReplayState::Finished);
}

#[test]
fn a_driven_playback_publishes_and_stops() {
    let (stop_send, mut stop_recv) = oneshot::channel::<()>();
    let (status_send, status_recv) = watch::channel(InputReplayState::NotStarted);
    let mut player = InputPlayer::new(stop_send, status_recv);
    let actions = vec![tap(0, 1, 1), key(50)];
    let mut playback = Playback::new(actions.clone(), 20);
    let mut issued = Vec::new();
    let mut slept = Vec::new();
    let mut steps = 0;
    loop {
        steps += 1;
        if steps == 9 {
            player.stop();
        }
        let stop_requested = playback.checks_stop()
            && !matches!(stop_recv.try_recv(), Err(oneshot::error::TryRecvError::Empty));
        match playback.step(stop_requested) {
            PlaybackCommand::Sleep(ms) => slept.push(ms),
            PlaybackCommand::Issue(status, input) => {
                status_send.send(status).unwrap();
                assert_eq!(player.get_current_status(), status);
                issued.push(input.command().join(" "));
            }
            PlaybackCommand::Publish(status) => status_send.send(status).unwrap(),
            PlaybackCommand::Finish => {
                status_send.send(InputReplayState::Finished).unwrap();
                break;
            }
        }
    }
    assert_eq!(issued, vec!["tap 1 1", "keyevent KEYCODE_POWER", "tap 1 1"]);
    assert_eq!(slept, vec![0, 50, 20, 0]);
    assert_eq!(steps, 9);
    assert_eq!(player.get_current_status(), InputReplayState::Finished);
    assert!(playback.is_finished());
}

#[test]
fn place_in_the_loop_is_told() {
    assert!(place(3, Some(2)).is_at(2));
    assert!(!place(3, Some(2)).is_at(1));
    assert!(!place(3, None).is_at(0));
    assert!(!InputReplayState::NotStarted.is_at(0));
    assert!(!InputReplayState::Finished.is_at(0));
    assert!(place(3, None).is_at_end());
    assert!(!place(3, Some(0)).is_at_end());
    assert!(!InputReplayState::NotStarted.is_at_end());
    assert!(!InputReplayState::Finished.is_at_end());
}
