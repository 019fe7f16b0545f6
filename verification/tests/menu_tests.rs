use pf_sandbox::menu::{
    get_free_team, team_color_count, MenuState, MenuTicker, PlayerSelect, PlayerSelectUi,
};
use pf_sandbox::package::PackageMeta;

#[test]
fn ticker_moves_faster_while_held() {
    let mut t = MenuTicker::new(3);
    let mut moves = vec![];
    for frame in 1..=90 {
        if t.tick() {
            moves.push(frame);
        }
    }
    assert_eq!(moves, vec![1, 21, 41, 53, 63, 71, 77, 82, 87]);
    t.reset();
    assert!(t.tick());
}

#[test]
fn cursor_wraps() {
    let mut t = MenuTicker::new(3);
    assert!(t.up());
    assert_eq!(t.position(), 2);
    t.reset();
    assert!(t.down());
    assert_eq!(t.position(), 0);
    t.reset();
    assert!(t.down());
    assert_eq!(t.position(), 1);
    assert!(!t.down());
    assert_eq!(t.position(), 1);
    t.full_reset();
    assert_eq!(t.position(), 0);
}

#[test]
fn up_then_down_returns() {
    for start in 0..4usize {
        let mut t = MenuTicker::new(4);
        for _ in 0..start {
            t.reset();
            t.down();
        }
        assert_eq!(t.position(), start);
        t.reset();
        t.up();
        t.reset();
        t.down();
        assert_eq!(t.position(), start);
    }
}

fn selection(ui: PlayerSelectUi, team: usize) -> PlayerSelect {
    PlayerSelect { controller: None, fighter: None, cpu_ai: None, team, ui, animation_frame: 0 }
}

#[test]
fn free_teams_and_slots() {
    assert_eq!(team_color_count(), 8);
    let sel = vec![
        selection(PlayerSelectUi::human_fighter(2), 0),
        selection(PlayerSelectUi::HumanUnplugged, 1),
        selection(PlayerSelectUi::cpu_fighter(2), 2),
    ];
    assert_eq!(get_free_team(&sel), 1);
    assert_eq!(get_free_team(&[]), 0);
    assert!(sel[2].is_free());
    assert!(!sel[0].is_free());
    assert!(sel[0].ui.is_human_plugged_in());
    assert!(!sel[1].ui.is_visible());
    assert!(sel[2].ui.is_cpu());
    assert!(PlayerSelectUi::cpu_ai().is_cpu());
    assert!(PlayerSelectUi::cpu_team().is_cpu());
    assert!(!PlayerSelectUi::human_team().is_cpu());
}

#[test]
fn menu_screens() {
    let meta = PackageMeta {
        engine_version: 3,
        save_version: 1,
        title: "t".to_string(),
        source: "s".to_string(),
        hash: "h".to_string(),
    };
    match MenuState::package_select(vec![("p".to_string(), meta)]) {
        MenuState::PackageSelect(p, t) => {
            assert_eq!(p.len(), 1);
            assert_eq!(t.position(), 0);
        }
        _ => panic!("expected the package selection"),
    }
    match MenuState::replay_select(vec!["a".to_string(), "b".to_string()]) {
        MenuState::ReplaySelect(r, mut t) => {
            assert_eq!(r.len(), 2);
            t.up();
            assert_eq!(t.position(), 1);
        }
        _ => panic!("expected the replay selection"),
    }
    assert!(matches!(MenuState::character_select(), MenuState::CharacterSelect { back_counter: 0 }));
    assert!(matches!(MenuState::game_results(), MenuState::GameResults { replay_saved: false }));
}
