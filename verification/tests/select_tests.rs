use pf_sandbox::character_select::{step_fighter_select, MenuInput, SelectOutcome};
use pf_sandbox::menu::{MenuTicker, PlayerSelect, PlayerSelectUi};

fn idle() -> MenuInput {
    MenuInput {
        plugged_in: true,
        left: false,
        right: false,
        up: false,
        down: false,
        a_press: false,
        b_press: false,
        b_held: false,
        start_press: false,
        l_press: false,
        r_press: false,
    }
}

fn unplugged() -> MenuInput {
    MenuInput { plugged_in: false, ..idle() }
}

struct Screen {
    selections: Vec<PlayerSelect>,
    back_counter: usize,
    stage_ticker: Option<MenuTicker>,
}

impl Screen {
    fn new() -> Screen {
        Screen { selections: vec![], back_counter: 0, stage_ticker: None }
    }

    fn step(&mut self, inputs: &[MenuInput], fighter_count: usize) -> Option<SelectOutcome> {
        let css_frames = vec![None; fighter_count];
        step_fighter_select(
            &mut self.selections,
            &mut self.back_counter,
            &mut self.stage_ticker,
            inputs,
            fighter_count,
            &css_frames,
            3,
            2,
        )
    }
}

fn fighter_cursor(ui: &PlayerSelectUi) -> Option<usize> {
    match ui {
        PlayerSelectUi::HumanFighter(t) => Some(t.position()),
        _ => None,
    }
}

#[test]
fn slots_follow_the_controllers() {
    let mut screen = Screen::new();
    assert_eq!(screen.step(&[idle(), unplugged()], 2), Some(SelectOutcome::Stay));
    assert_eq!(screen.selections.len(), 2);
    assert_eq!(fighter_cursor(&screen.selections[0].ui), Some(0));
    assert_eq!(screen.selections[0].team, 0);
    assert_eq!(screen.selections[0].controller.map(|c| c.0), Some(0));
    assert!(matches!(screen.selections[1].ui, PlayerSelectUi::HumanUnplugged));
    assert_eq!(screen.selections[1].team, 1);
    assert_eq!(screen.back_counter, 0);
    assert!(screen.stage_ticker.is_none());
}

#[test]
fn a_picks_the_fighter_under_the_cursor() {
    let mut screen = Screen::new();
    screen.step(&[idle()], 2);
    let press = MenuInput { a_press: true, ..idle() };
    assert_eq!(screen.step(&[press], 2), Some(SelectOutcome::Stay));
    assert_eq!(screen.selections[0].fighter, Some(0));
    let back = MenuInput { b_press: true, ..idle() };
    assert_eq!(screen.step(&[back], 2), Some(SelectOutcome::Stay));
    assert_eq!(screen.selections[0].fighter, None);
}

#[test]
fn the_last_option_adds_a_cpu_player() {
    let mut screen = Screen::new();
    screen.step(&[idle()], 2);
    let mut t = MenuTicker::new(4);
    assert!(t.up());
    assert_eq!(t.position(), 3);
    screen.selections[0].ui = PlayerSelectUi::HumanFighter(t);
    let press = MenuInput { a_press: true, ..idle() };
    assert_eq!(screen.step(&[press], 2), Some(SelectOutcome::Stay));
    assert_eq!(screen.selections.len(), 2);
    let cpu = &screen.selections[1];
    assert!(matches!(cpu.ui, PlayerSelectUi::CpuFighter(_)));
    assert!(cpu.controller.is_none());
    assert_eq!(cpu.team, 1);
    assert_eq!(cpu.fighter, None);
}

#[test]
fn start_goes_to_the_stage_select_when_there_are_fighters() {
    let mut screen = Screen::new();
    screen.step(&[idle()], 2);
    let start = MenuInput { start_press: true, ..idle() };
    assert_eq!(screen.step(&[start], 2), Some(SelectOutcome::StageSelect));
    assert_eq!(screen.stage_ticker.map(|t| t.position()), Some(0));

    let mut empty = Screen::new();
    empty.step(&[idle()], 0);
    assert_eq!(empty.step(&[start], 0), Some(SelectOutcome::Stay));
    assert!(empty.stage_ticker.is_none());
}

#[test]
fn holding_back_returns_to_the_game_select() {
    let mut screen = Screen::new();
    screen.step(&[idle()], 2);
    let hold = MenuInput { b_held: true, ..idle() };
    assert_eq!(screen.step(&[hold], 2), Some(SelectOutcome::Stay));
    assert_eq!(screen.back_counter, 1);
    assert_eq!(screen.step(&[hold], 2), Some(SelectOutcome::Stay));
    assert_eq!(screen.step(&[hold], 2), Some(SelectOutcome::Stay));
    assert_eq!(screen.back_counter, 3);
    assert_eq!(screen.step(&[hold], 2), Some(SelectOutcome::GameSelect));
    assert_eq!(screen.step(&[idle()], 2), Some(SelectOutcome::Stay));
    assert_eq!(screen.back_counter, 0);
}

#[test]
fn unplugging_frees_the_slot() {
    let mut screen = Screen::new();
    screen.step(&[idle()], 2);
    assert_eq!(screen.step(&[unplugged()], 2), Some(SelectOutcome::Stay));
    assert!(matches!(screen.selections[0].ui, PlayerSelectUi::HumanUnplugged));
    assert!(screen.selections[0].controller.is_none());
    assert_eq!(screen.step(&[idle()], 2), Some(SelectOutcome::Stay));
    assert_eq!(fighter_cursor(&screen.selections[0].ui), Some(0));
    assert_eq!(screen.selections[0].controller.map(|c| c.0), Some(0));
}
