use pf_sandbox::game::{game_seed, game_setup_from_cli, gen_seed, rank_players, seed_from_time, SetupError};
use pf_sandbox::cli::CLIResults;
use pf_sandbox::config::Config;
use pf_sandbox::controller_map::{AnalogHistory, OS};
use pf_sandbox::fighter::{HitboxEffect, LCancel, PowerShield, Tech};
use pf_sandbox::game::{surfaces_vec, Edit, SurfaceSelection};
use pf_sandbox::input::{port_axes, port_buttons, port_plugged_in, stick_deadzone, update_deadzone, Button, Deadzone};
use pf_sandbox::json_upgrade::engine_version;
use pf_sandbox::legacy;
use pf_sandbox::os_input::{key_pressed, key_released, mouse_button_number, mouse_pressed, mouse_released, push_text, KeyAction, MouseAction, TextChar, TypedKey};

#[test]
fn stick_recentring() {
    assert_eq!(stick_deadzone(200, 100), 228);
    assert_eq!(stick_deadzone(250, 50), 255);
    assert_eq!(stick_deadzone(100, 100), 128);
    assert_eq!(stick_deadzone(10, 100), 38);
    assert_eq!(stick_deadzone(0, 200), 0);
}

#[test]
fn adapter_reports() {
    let mut data = [0u8; 37];
    data[9 + 1] = 20;
    data[9 + 2] = 0b1000_0001;
    data[9 + 3] = 0b0000_1001;
    data[9 + 4] = 130;
    data[9 + 9] = 7;
    data[18 + 1] = 16;
    assert!(!port_plugged_in(&data, 0));
    assert!(port_plugged_in(&data, 1));
    assert!(port_plugged_in(&data, 2));
    let b = port_buttons(&data, 1);
    assert!(b.up && b.a && b.l && b.start);
    assert!(!b.down && !b.b && !b.r && !b.z);
    let a = port_axes(&data, 1);
    assert_eq!(a.stick_x, 130);
    assert_eq!(a.r_trigger, 7);

    let d = update_deadzone(Deadzone::empty(), true, a);
    assert!(d.plugged_in);
    assert_eq!(d.stick_x, 130);
    let again = update_deadzone(d, true, port_axes(&[0u8; 37], 0));
    assert_eq!(again, d);
    assert_eq!(update_deadzone(d, false, a), Deadzone::empty());
    assert_eq!(Deadzone::empty4(), [Deadzone::empty(); 4]);
}

#[test]
fn buttons_and_os_input() {
    assert_eq!(Button::from_frames(true, false), Button { value: true, press: true });
    assert_eq!(Button::from_frames(true, true), Button { value: true, press: false });
    assert_eq!(legacy::Button::from_frames(false, true).press, false);
    assert_eq!(mouse_button_number(false, true, false, 9), 1);
    assert_eq!(mouse_button_number(false, false, false, 9), 9);
    let m = [MouseAction::Pressed(0), MouseAction::Released(2)];
    assert!(mouse_pressed(&m, 0));
    assert!(!mouse_pressed(&m, 2));
    assert!(mouse_released(&m, 2));
    let k = [KeyAction::Pressed(5), KeyAction::Released(6)];
    assert!(key_pressed(&k, 5));
    assert!(!key_released(&k, 5));
    assert!(key_released(&k, 6));
}

#[test]
fn selected_surfaces_are_sorted_and_unique() {
    let sel = [SurfaceSelection::P1(3), SurfaceSelection::P2(1), SurfaceSelection::P2(3), SurfaceSelection::P1(0)];
    assert_eq!(surfaces_vec(&sel), vec![0, 1, 3]);
    assert_eq!(surfaces_vec(&[]), Vec::<usize>::new());
    assert_eq!(SurfaceSelection::P2(4).index(), 4);
    assert_eq!(SurfaceSelection::default_selection(), SurfaceSelection::P1(0));
    assert_eq!(Edit::default_edit(), Edit::Stage);
}

#[test]
fn settings() {
    let c = Config::default_config();
    assert!(c.current_package.is_none() && !c.auto_save_replay && c.verify_package_hashes);
    let loaded = Config {
        current_package: Some("p".to_string()),
        auto_save_replay: true,
        verify_package_hashes: false,
    };
    let kept = Config::from_loaded(Some(loaded.clone()), true);
    assert_eq!(kept.current_package, Some("p".to_string()));
    assert!(kept.auto_save_replay && !kept.verify_package_hashes);
    let dropped = Config::from_loaded(Some(loaded), false);
    assert_eq!(dropped.current_package, None);
    assert!(Config::from_loaded(None, true).verify_package_hashes);
    assert_eq!(legacy::Config::default_config().current_package, "base_backage");
}

#[test]
fn format_versions() {
    assert_eq!(engine_version(), 3);
    assert_eq!(legacy::engine_version(), 1);
}

#[test]
fn operating_systems_and_defaults() {
    assert_eq!(OS::get_current(true, false), OS::Linux);
    assert_eq!(OS::get_current(false, true), OS::Windows);
    let h = AnalogHistory::new(-3);
    assert_eq!((h.min, h.max, h.last_value), (-3, -3, -3));
    assert_eq!(HitboxEffect::default_effect(), HitboxEffect::NoEffect);
    let _ = Tech::default_tech();
    let _ = LCancel::default_lcancel();
    let _ = PowerShield::default_power_shield();
    let r = legacy::Rules::base();
    assert_eq!(r.title, "Base Game Mode");
    assert_eq!((r.stock_count, r.time_limit, r.best_of), (4, 480, 3));
    assert!(r.pause && !r.teams && !r.friendly_fire);
    assert!(legacy::JumpResult::Button.jump());
    assert!(!legacy::JumpResult::NoJump.jump());
}

#[test]
fn game_seeds() {
    assert_eq!(game_seed(Some(42)), 42);
    assert!(gen_seed() > 1_500_000_000);
    assert!(game_seed(None) > 1_500_000_000);
}

#[test]
fn keys_type_text() {
    let mut text = vec![];
    push_text(&mut text, Some(TypedKey::Letter(0)), false);
    push_text(&mut text, Some(TypedKey::Letter(25)), true);
    push_text(&mut text, Some(TypedKey::Digit(2)), true);
    push_text(&mut text, Some(TypedKey::Digit(7)), false);
    push_text(&mut text, Some(TypedKey::Period), true);
    push_text(&mut text, Some(TypedKey::Comma), false);
    push_text(&mut text, Some(TypedKey::Backslash), true);
    push_text(&mut text, Some(TypedKey::Space), true);
    push_text(&mut text, Some(TypedKey::Back), true);
    push_text(&mut text, None, true);
    push_text(&mut text, Some(TypedKey::Letter(26)), false);
    assert_eq!(
        text,
        vec![
            TextChar::Char('a'),
            TextChar::Char('Z'),
            TextChar::Char('@'),
            TextChar::Char('7'),
            TextChar::Char('<'),
            TextChar::Char(','),
            TextChar::Char('|'),
            TextChar::Char(' '),
            TextChar::Back,
        ]
    );
}

#[test]
fn seeds_from_times() {
    assert_eq!(seed_from_time(1_600_000_000), 1_600_000_000);
    assert_eq!(seed_from_time(-1), u64::MAX);
}

fn keys(names: &[&str]) -> Vec<String> {
    names.iter().map(|n| n.to_string()).collect()
}

#[test]
fn games_set_up_from_the_command_line() {
    let mut r = CLIResults::new();
    r.max_human_players = Some(2);
    r.total_cpu_players = Some(2);
    let plan = match game_setup_from_cli(&r, &keys(&["a", "b"]), &keys(&["s1", "s2"]), 3) {
        Ok(p) => p,
        Err(_) => panic!("the setup should succeed"),
    };
    let players: Vec<(String, usize)> = plan.players.iter().map(|p| (p.fighter.clone(), p.team)).collect();
    assert_eq!(players, vec![("a".to_string(), 0), ("a".to_string(), 1), ("a".to_string(), 2), ("a".to_string(), 3)]);
    assert_eq!(plan.controllers, vec![0, 1, 3, 4]);
    assert_eq!(plan.ais, vec![0, 0]);
    assert_eq!(plan.stage, "s1");

    r.fighter_names = keys(&["b", "a"]);
    r.stage_name = Some("s2".to_string());
    r.max_human_players = None;
    r.total_cpu_players = None;
    let plan = match game_setup_from_cli(&r, &keys(&["a", "b"]), &keys(&["s1", "s2"]), 3) {
        Ok(p) => p,
        Err(_) => panic!("the setup should succeed"),
    };
    let fighters: Vec<String> = plan.players.iter().map(|p| p.fighter.clone()).collect();
    assert_eq!(fighters, keys(&["b", "a", "b"]));
    assert_eq!(plan.controllers, vec![0, 1, 2]);
    assert!(plan.ais.is_empty());
    assert_eq!(plan.stage, "s2");
}

#[test]
fn games_from_the_command_line_need_what_they_name() {
    let mut r = CLIResults::new();
    assert!(matches!(game_setup_from_cli(&r, &keys(&[]), &keys(&["s"]), 1), Err(SetupError::NoFighters)));
    assert!(matches!(game_setup_from_cli(&r, &keys(&["a"]), &keys(&[]), 1), Err(SetupError::NoStages)));
    r.fighter_names = keys(&["a", "c", "d"]);
    match game_setup_from_cli(&r, &keys(&["a", "b"]), &keys(&["s"]), 1) {
        Err(SetupError::MissingFighter(n)) => assert_eq!(n, "c"),
        _ => panic!("the fighter c is missing"),
    }
    r.fighter_names = keys(&["a"]);
    r.stage_name = Some("x".to_string());
    match game_setup_from_cli(&r, &keys(&["a", "b"]), &keys(&["s"]), 1) {
        Err(SetupError::MissingStage(n)) => assert_eq!(n, "x"),
        _ => panic!("the stage x is missing"),
    }
}

#[test]
fn players_rank_by_deaths_then_tie_break_then_order() {
    assert_eq!(rank_players(&vec![(1, 0), (0, 0), (1, 0), (0, 5)]), vec![1, 3, 0, 2]);
    assert_eq!(rank_players(&vec![(2, 0), (2, 0), (2, 0)]), vec![0, 1, 2]);
    assert_eq!(rank_players(&vec![]), Vec::<usize>::new());
}
