use pf_sandbox::input::GcButtons;
use pf_sandbox::input_history::{get_8frames_of_input, player_buttons, ControllerInput, InputHistory};
use pf_sandbox::network::Netplay;

fn no_buttons() -> GcButtons {
    GcButtons {
        up: false,
        down: false,
        right: false,
        left: false,
        y: false,
        x: false,
        b: false,
        a: false,
        l: false,
        r: false,
        z: false,
        start: false,
    }
}

fn input(tag: u8) -> ControllerInput<u8> {
    ControllerInput { plugged_in: true, buttons: no_buttons(), analog: tag }
}

fn empty() -> ControllerInput<u8> {
    ControllerInput::empty(0)
}

fn tags(v: &[ControllerInput<u8>]) -> Vec<u8> {
    v.iter().map(|c| c.analog).collect()
}

#[test]
fn windows_fill_missing_frames() {
    let game = vec![vec![input(10)], vec![input(11)], vec![input(12)]];
    assert_eq!(tags(&get_8frames_of_input(&game, 0, 3, empty())), vec![12, 11, 10, 0, 0, 0, 0, 0]);
    assert_eq!(tags(&get_8frames_of_input(&game, 0, 5, empty())), vec![12, 12, 12, 11, 10, 0, 0, 0]);
    assert_eq!(tags(&get_8frames_of_input(&game, 1, 3, empty())), vec![0; 8]);
    assert_eq!(tags(&get_8frames_of_input(&[], 0, 2, empty())), vec![0; 8]);
    let w = get_8frames_of_input(&game, 0, 1, empty());
    assert!(w[0].plugged_in && !w[1].plugged_in);
}

fn history(frames: usize) -> InputHistory<u8> {
    let mut h = InputHistory::new();
    for f in 0..frames {
        h.current_inputs = vec![input(f as u8)];
        h.netplay_update();
    }
    h.current_inputs = vec![input(99)];
    h
}

fn recorded(h: &InputHistory<u8>) -> Vec<u8> {
    h.get_history().iter().map(|f| f[0].analog).collect()
}

#[test]
fn replaying_a_frame_forgets_the_later_ones() {
    let mut h = history(3);
    assert_eq!(recorded(&h), vec![0, 1, 2]);
    assert_eq!(h.last_frame(), 2);
    h.game_update(2);
    assert_eq!(recorded(&h), vec![0, 99]);
    let mut h = history(3);
    h.game_update(0);
    assert_eq!(recorded(&h), vec![99]);
    let mut h = history(3);
    h.game_update(10);
    assert_eq!(recorded(&h), vec![0, 1, 2, 99]);
    h.reset_history();
    assert!(h.get_history().is_empty());
    assert_eq!(tags(&h.current_inputs), vec![99]);
}

fn with_buttons(start: bool, quit: bool) -> ControllerInput<u8> {
    let mut b = no_buttons();
    b.start = start;
    b.a = quit;
    b.l = quit;
    b.r = quit;
    ControllerInput { plugged_in: true, buttons: b, analog: 0 }
}

#[test]
fn start_and_quit_combination() {
    let mut h: InputHistory<u8> = InputHistory::new();
    let offline: Netplay<ControllerInput<u8>> = Netplay::new();
    h.step_inputs(vec![with_buttons(true, false)], &[], &[], &offline);
    assert!(h.start_pressed());
    assert!(!h.game_quit_held());
    h.step_inputs(vec![with_buttons(true, true)], &[], &[], &offline);
    assert!(!h.start_pressed());
    assert!(!h.game_quit_held());
    h.step_inputs(vec![with_buttons(false, false)], &[], &[], &offline);
    h.step_inputs(vec![with_buttons(true, true)], &[], &[], &offline);
    assert!(h.game_quit_held());
}

#[test]
fn offline_inputs_merge_devices_ai_and_scripts() {
    let mut h: InputHistory<u8> = InputHistory::new();
    let offline: Netplay<ControllerInput<u8>> = Netplay::new();
    let m = h.step_inputs(vec![input(1), input(2)], &[input(7)], &[input(3)], &offline);
    assert!(m.is_none());
    assert_eq!(tags(&h.current_inputs), vec![7, 2, 3]);
    let players = h.players_no_log(0, &offline, empty());
    assert_eq!(players.len(), 3);
    assert_eq!(tags(&players[1]), vec![0; 8]);
    h.netplay_update();
    let players = h.players_no_log(1, &offline, empty());
    assert_eq!(tags(&players[1]), vec![2, 0, 0, 0, 0, 0, 0, 0]);
}

#[test]
fn buttons_are_pressed_on_the_first_frame_held() {
    let mut now = with_buttons(true, false);
    now.buttons.b = true;
    let mut before = with_buttons(true, false);
    before.buttons.a = true;
    let p = player_buttons(&[now, before]);
    assert!(p.plugged_in);
    assert!(p.start.value && !p.start.press);
    assert!(p.b.value && p.b.press);
    assert!(!p.a.value && !p.a.press);
    let p = player_buttons(&[empty(), now]);
    assert!(!p.plugged_in && !p.b.value && !p.start.press);
}
