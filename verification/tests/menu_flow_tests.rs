use pf_sandbox::character_select::MenuInput;
use pf_sandbox::menu::{MenuTicker, PlayerSelect, PlayerSelectUi};
use pf_sandbox::menu_flow::{
    combine, game_setup_players, step_game_select, step_netplay_wait, step_package_select_inner,
    step_replay_select, step_results, step_stage_select, GameSelectChoice, ReplayChoice,
    StageSelectChoice, WaitStep,
};
use pf_sandbox::network::{InitConnection, NetplayState};

fn idle() -> MenuInput {
    MenuInput {
        plugged_in: true,
        left: false,
        right: false,
        up: false,
        down: false,
        a_press: false,
        b_press: false,
        b_held: false,
        start_press: false,
        l_press: false,
        r_press: false,
    }
}

#[test]
fn combine_sees_every_controller() {
    let c = combine(&[idle(), MenuInput { down: true, start_press: true, ..idle() }]);
    assert!(c.down && c.accept);
    assert!(!c.up && !c.a && !c.back);
    let none = combine(&[]);
    assert!(!none.up && !none.down && !none.accept && !none.a && !none.back);
}

#[test]
fn game_select_picks_the_item_under_the_cursor() {
    let mut t = MenuTicker::new(3);
    let down_and_a = MenuInput { down: true, a_press: true, ..idle() };
    assert_eq!(step_game_select(&mut t, &[down_and_a], 1), GameSelectChoice::Netplay);
    assert_eq!(t.position(), 1);

    let mut t = MenuTicker::new(3);
    assert_eq!(step_game_select(&mut t, &[MenuInput { a_press: true, ..idle() }], 1), GameSelectChoice::CharacterSelect);
    let mut t = MenuTicker::new(3);
    assert_eq!(step_game_select(&mut t, &[MenuInput { up: true, start_press: true, ..idle() }], 1), GameSelectChoice::ReplaySelect);
    assert_eq!(t.position(), 2);
}

#[test]
fn game_select_needs_stages_and_b_goes_back() {
    let mut t = MenuTicker::new(3);
    assert_eq!(step_game_select(&mut t, &[MenuInput { a_press: true, ..idle() }], 0), GameSelectChoice::Stay);
    assert_eq!(step_game_select(&mut t, &[MenuInput { b_press: true, a_press: true, ..idle() }], 0), GameSelectChoice::PackageSelect);
    assert_eq!(step_game_select(&mut t, &[idle()], 4), GameSelectChoice::Stay);
}

#[test]
fn stage_select_creates_its_cursor() {
    let mut ticker = None;
    assert_eq!(step_stage_select(&mut ticker, &[idle()], 3), StageSelectChoice::Stay);
    assert_eq!(ticker.map(|t| t.position()), Some(0));
    assert_eq!(step_stage_select(&mut ticker, &[MenuInput { up: true, ..idle() }], 3), StageSelectChoice::Stay);
    assert_eq!(ticker.map(|t| t.position()), Some(2));
    assert_eq!(step_stage_select(&mut ticker, &[MenuInput { a_press: true, ..idle() }], 3), StageSelectChoice::StartGame);
    assert_eq!(step_stage_select(&mut ticker, &[MenuInput { b_press: true, ..idle() }], 3), StageSelectChoice::CharacterSelect);
    let mut none = None;
    assert_eq!(step_stage_select(&mut none, &[MenuInput { a_press: true, ..idle() }], 0), StageSelectChoice::Stay);
}

#[test]
fn replay_select_loads_the_replay_under_the_cursor() {
    let mut t = MenuTicker::new(2);
    assert_eq!(step_replay_select(&mut t, &[MenuInput { up: true, a_press: true, ..idle() }], 2), ReplayChoice::Load(1));
    let mut empty = MenuTicker::new(0);
    assert_eq!(step_replay_select(&mut empty, &[MenuInput { a_press: true, ..idle() }], 0), ReplayChoice::Stay);
    assert_eq!(step_replay_select(&mut empty, &[MenuInput { b_press: true, ..idle() }], 0), ReplayChoice::GameSelect);
}

#[test]
fn package_select_gives_the_package_to_load() {
    let mut t = MenuTicker::new(3);
    assert_eq!(step_package_select_inner(&mut t, &[MenuInput { down: true, ..idle() }], 3), None);
    assert_eq!(t.position(), 1);
    assert_eq!(step_package_select_inner(&mut t, &[MenuInput { start_press: true, ..idle() }], 3), Some(1));
    let mut none = MenuTicker::new(0);
    assert_eq!(step_package_select_inner(&mut none, &[MenuInput { a_press: true, ..idle() }], 0), None);
}

#[test]
fn results_save_the_replay_once() {
    let lr = MenuInput { l_press: true, r_press: true, ..idle() };
    let r = step_results(&[idle(), lr], false, false);
    assert!(r.save_replay && !r.leave);
    let r = step_results(&[lr], true, false);
    assert!(!r.save_replay);
    let r = step_results(&[MenuInput { a_press: true, ..idle() }], false, true);
    assert!(r.save_replay && r.leave);
    let r = step_results(&[MenuInput { l_press: true, ..idle() }], false, false);
    assert!(!r.save_replay && !r.leave);
}

fn message(w: WaitStep) -> Option<String> {
    match w {
        WaitStep::Message(m) => Some(m),
        _ => None,
    }
}

#[test]
fn netplay_wait_shows_progress() {
    let init = NetplayState::InitConnection(InitConnection {
        build_version: String::from("v"),
        hash: String::from("h"),
        random: 3,
    });
    assert_eq!(message(step_netplay_wait(&init, 7, &[idle()])), Some(String::from("Connecting to peer /")));
    assert_eq!(message(step_netplay_wait(&init, 12, &[idle()])), Some(String::from("Connecting to peer -")));
    assert_eq!(message(step_netplay_wait(&init, 19, &[idle()])), Some(String::from("Connecting to peer \\")));
    assert!(matches!(step_netplay_wait(&init, 7, &[MenuInput { b_press: true, ..idle() }]), WaitStep::GameSelect));
    let ping = NetplayState::PingTest { pings: vec![] };
    assert_eq!(message(step_netplay_wait(&ping, 20, &[idle()])), Some(String::from("Testing ping |")));
    let gone = NetplayState::Disconnected { reason: String::from("timeout") };
    assert!(matches!(step_netplay_wait(&gone, 0, &[idle()]), WaitStep::Idle));
    assert!(matches!(step_netplay_wait(&gone, 0, &[MenuInput { a_press: true, ..idle() }]), WaitStep::GameSelect));
    assert!(matches!(step_netplay_wait(&NetplayState::Offline, 0, &[idle()]), WaitStep::Idle));
    assert!(matches!(step_netplay_wait(&NetplayState::Running { frame: 4 }, 0, &[idle()]), WaitStep::CharacterSelect));
}

fn slot(ui: PlayerSelectUi, fighter: Option<usize>, team: usize) -> PlayerSelect {
    PlayerSelect { controller: None, fighter, cpu_ai: None, team, ui, animation_frame: 0 }
}

#[test]
fn game_setup_counts_cpu_slots_that_play() {
    let slots = vec![
        slot(PlayerSelectUi::human_fighter(2), Some(1), 0),
        slot(PlayerSelectUi::cpu_fighter(2), None, 1),
        slot(PlayerSelectUi::cpu_fighter(2), Some(0), 2),
        slot(PlayerSelectUi::HumanUnplugged, Some(1), 3),
    ];
    let (players, controllers, ais) = game_setup_players(&slots);
    assert_eq!(players, vec![(1, 0), (0, 2)]);
    assert_eq!(controllers, vec![0, 1]);
    assert_eq!(ais, vec![0]);
}
