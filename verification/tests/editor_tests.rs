use pf_sandbox::action::Action;
use pf_sandbox::editor::{correct_frames_after_delete, editor_keys, frames_to_add, EditorKeys, Flow, PlayerFrame};
use pf_sandbox::fighter::LinkType;
use pf_sandbox::game::Edit;

fn none() -> EditorKeys {
    EditorKeys {
        stage: false,
        one: false,
        two: false,
        three: false,
        four: false,
        shift: false,
        j: false,
        k: false,
        h: false,
        l: false,
        space: false,
        u: false,
        i: false,
        enter: false,
        a: false,
        b: false,
        d: false,
        e: false,
        f: false,
        m: false,
        n: false,
        q: false,
        r: false,
        s: false,
        v: false,
        w: false,
        x: false,
        z: false,
        left_bracket: false,
        right_bracket: false,
        comma: false,
        period: false,
    }
}

#[test]
fn number_keys_choose_what_is_edited() {
    let r = editor_keys(Edit::Stage, 2, &EditorKeys { two: true, ..none() }, false, false);
    assert_eq!(r.edit, Edit::Fighter(1));
    assert!(r.frame_changed);
    let r = editor_keys(Edit::Stage, 2, &EditorKeys { one: true, shift: true, ..none() }, false, false);
    assert_eq!(r.edit, Edit::Player(0));
    let r = editor_keys(Edit::Fighter(0), 2, &EditorKeys { three: true, ..none() }, false, false);
    assert_eq!(r.edit, Edit::Fighter(0));
    assert!(!r.frame_changed);
    let r = editor_keys(Edit::Fighter(0), 2, &EditorKeys { stage: true, one: true, ..none() }, false, false);
    assert_eq!(r.edit, Edit::Stage);
    assert!(!r.frame_changed);
}

#[test]
fn flow_keys_take_the_first_pressed() {
    assert_eq!(editor_keys(Edit::Stage, 0, &EditorKeys { k: true, enter: true, ..none() }, false, false).flow, Flow::StepForwards);
    assert_eq!(editor_keys(Edit::Stage, 0, &EditorKeys { i: true, enter: true, ..none() }, false, false).flow, Flow::Stay);
    assert_eq!(editor_keys(Edit::Stage, 0, &EditorKeys { enter: true, ..none() }, false, false).flow, Flow::Resume);
    assert_eq!(editor_keys(Edit::Stage, 0, &EditorKeys { u: true, ..none() }, false, false).flow, Flow::SaveFrame);
}

#[test]
fn frame_edits_apply_to_the_edited_fighter() {
    let keys = EditorKeys { v: true, n: true, a: true, f: true, shift: true, comma: true, ..none() };
    let r = editor_keys(Edit::Fighter(0), 1, &keys, false, true);
    assert!(r.fighter.copy_frame && r.fighter.delete_frame && r.fighter.start_move && r.fighter.send_to_front);
    assert_eq!(r.fighter.add_colbox, Some(LinkType::Simple));
    assert!(!r.stage.delete);
    let r = editor_keys(Edit::Fighter(0), 1, &EditorKeys { f: true, a: true, ..none() }, false, false);
    assert_eq!(r.fighter.add_colbox, Some(LinkType::MeldFirst));
    assert!(!r.fighter.start_move);
    let r = editor_keys(Edit::Fighter(0), 1, &keys, true, true);
    assert!(!r.fighter.copy_frame && r.fighter.add_colbox.is_none());
    let r = editor_keys(Edit::Stage, 1, &EditorKeys { d: true, r: true, z: true, ..none() }, false, false);
    assert!(r.stage.delete && r.stage.add_floor && r.stage.add_spawn && !r.fighter.delete_colboxes);
}

#[test]
fn landing_frames_and_deleted_frames() {
    assert_eq!(frames_to_add(Some(Action::Land), 3), 4);
    assert_eq!(frames_to_add(Some(Action::Jab), 3), 1);
    assert_eq!(frames_to_add(None, 3), 1);
    let mut players = vec![
        PlayerFrame { fighter: "a".to_string(), action: 2, frame: 4 },
        PlayerFrame { fighter: "a".to_string(), action: 2, frame: 3 },
        PlayerFrame { fighter: "b".to_string(), action: 2, frame: 4 },
    ];
    correct_frames_after_delete(&mut players, "a", 2, 4);
    let frames: Vec<u64> = players.iter().map(|p| p.frame).collect();
    assert_eq!(frames, vec![3, 3, 4]);
}
