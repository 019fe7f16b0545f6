use pf_sandbox::package::compute_hash;
use std::collections::HashSet;

use pf_sandbox::action::{all_actions, expired_action, Action, Expiry};
use pf_sandbox::fighter::{CollisionBoxLink, LinkType, RenderOrder};
use pf_sandbox::frame::ActionFrame;
use pf_sandbox::package::{
    generate_example_stub, ActionDef, Fighter, Package, PackageMeta, PackageUpdate, Verify,
};

fn meta(save_version: u64, hash: &str) -> PackageMeta {
    PackageMeta {
        engine_version: 3,
        save_version,
        title: "Test".to_string(),
        source: "example.com/pkg".to_string(),
        hash: hash.to_string(),
    }
}

fn frame_with(boxes: Vec<u32>) -> ActionFrame<u32> {
    let mut f: ActionFrame<u32> = ActionFrame::default_frame();
    f.colboxes = boxes;
    f
}

fn package() -> Package<u32> {
    let action = ActionDef { frames: vec![frame_with(vec![1]), frame_with(vec![2])], iasa: 4 };
    let fighter = Fighter { actions: vec![action] };
    Package::new(meta(1, "abc"), vec![fighter])
}

#[test]
fn verify_outcomes() {
    let m = meta(5, "abc");
    assert_eq!(m.verify_against("abc", None), Verify::CannotConnect);
    assert_eq!(m.verify_against("abc", Some(&meta(5, "abc"))), Verify::Valid);
    assert_eq!(m.verify_against("abc", Some(&meta(4, "zzz"))), Verify::IncorrectHash);
    assert_eq!(m.verify_against("abc", Some(&meta(6, "abc"))), Verify::UpdateAvailable);
}

#[test]
fn update_version() {
    let m = meta(5, "abc");
    assert_eq!(m.update_to(None), None);
    assert_eq!(m.update_to(Some(&meta(5, ""))), None);
    assert_eq!(m.update_to(Some(&meta(9, ""))), Some(9));
}

#[test]
fn package_urls() {
    let m = meta(5, "abc");
    assert_eq!(m.meta_url(), "example.com/pkg/package_meta.json");
    assert_eq!(m.archive_url(12), "example.com/pkg/package12.zip");
}

#[test]
fn example_stub_only_without_packages_dir() {
    assert!(generate_example_stub(true).is_none());
    let m = generate_example_stub(false).unwrap();
    assert_eq!(m.engine_version, 3);
    assert_eq!(m.save_version, 0);
    assert_eq!(m.title, "Example Package");
    assert_eq!(m.source, "lucaskent.me/example_package");
    assert_eq!(m.hash, "");
}

#[test]
fn inserting_and_deleting_frames_records_updates() {
    let mut p = package();
    p.insert_fighter_frame(0, 0, 1, frame_with(vec![7]));
    let frames: Vec<Vec<u32>> = p.fighters[0].actions[0].frames.iter().map(|f| f.colboxes.clone()).collect();
    assert_eq!(frames, vec![vec![1], vec![7], vec![2]]);

    p.new_fighter_frame(0, 0, 0);
    let frames: Vec<Vec<u32>> = p.fighters[0].actions[0].frames.iter().map(|f| f.colboxes.clone()).collect();
    assert_eq!(frames, vec![vec![1], vec![1], vec![7], vec![2]]);

    assert!(p.delete_fighter_frame(0, 0, 2));
    let frames: Vec<Vec<u32>> = p.fighters[0].actions[0].frames.iter().map(|f| f.colboxes.clone()).collect();
    assert_eq!(frames, vec![vec![1], vec![1], vec![2]]);
    assert_eq!(p.fighters[0].actions[0].iasa, 4);

    let updates = p.updates();
    assert_eq!(updates.len(), 3);
    match &updates[0] {
        PackageUpdate::InsertFighterFrame { fighter, action, frame_index, frame } => {
            assert_eq!((*fighter, *action, *frame_index), (0, 0, 1));
            assert_eq!(frame.colboxes, vec![7]);
        }
        _ => panic!("expected an insertion"),
    }
    match &updates[1] {
        PackageUpdate::InsertFighterFrame { frame_index, frame, .. } => {
            assert_eq!(*frame_index, 0);
            assert_eq!(frame.colboxes, vec![1]);
        }
        _ => panic!("expected an insertion"),
    }
    assert!(matches!(
        updates[2],
        PackageUpdate::DeleteFighterFrame { fighter: 0, action: 0, frame_index: 2 }
    ));
    assert!(p.updates().is_empty());
}

#[test]
fn the_last_frame_is_not_deleted() {
    let action = ActionDef { frames: vec![frame_with(vec![1])], iasa: 0 };
    let mut p: Package<u32> = Package::new(meta(0, ""), vec![Fighter { actions: vec![action] }]);
    assert!(!p.delete_fighter_frame(0, 0, 0));
    assert_eq!(p.fighters[0].actions[0].frames.len(), 1);
    assert!(p.updates().is_empty());
}

#[test]
fn colbox_edits_record_the_changed_frame() {
    let mut p = package();
    let mut set = HashSet::new();
    set.insert(0usize);
    let i = p.append_fighter_colbox(0, 0, 1, 9, &set, LinkType::Simple);
    assert_eq!(i, 1);
    let f = &p.fighters[0].actions[0].frames[1];
    assert_eq!(f.colboxes, vec![2, 9]);
    assert_eq!(f.colbox_links, vec![CollisionBoxLink { one: 0, two: 1, link_type: LinkType::Simple }]);
    assert_eq!(f.render_order, vec![RenderOrder::Link(0)]);

    p.fighter_colboxes_send_to_back(0, 0, 1, &set);
    p.fighter_colboxes_send_to_front(0, 0, 1, &set);
    assert_eq!(
        p.fighters[0].actions[0].frames[1].render_order,
        vec![RenderOrder::Link(0)]
    );

    let mut del = HashSet::new();
    del.insert(1usize);
    p.delete_fighter_colboxes(0, 0, 1, &del);
    let f = &p.fighters[0].actions[0].frames[1];
    assert_eq!(f.colboxes, vec![2]);
    assert!(f.colbox_links.is_empty());
    assert!(f.render_order.is_empty());

    p.fighter_frame_changed(0, 0, 0);

    let updates = p.updates();
    assert_eq!(updates.len(), 10);
    for pair in updates.chunks(2) {
        assert!(matches!(pair[0], PackageUpdate::DeleteFighterFrame { .. }));
        assert!(matches!(pair[1], PackageUpdate::InsertFighterFrame { .. }));
    }
    match &updates[7] {
        PackageUpdate::InsertFighterFrame { frame, .. } => assert_eq!(frame.colboxes, vec![2]),
        _ => panic!("expected an insertion"),
    }
    match &updates[9] {
        PackageUpdate::InsertFighterFrame { frame_index, frame, .. } => {
            assert_eq!(*frame_index, 0);
            assert_eq!(frame.colboxes, vec![1]);
        }
        _ => panic!("expected an insertion"),
    }
}

#[test]
fn copied_frames_are_equal() {
    let mut f = frame_with(vec![3, 4]);
    f.render_order = vec![RenderOrder::Colbox(1)];
    f.ledge_cancel = false;
    let c = f.copy_frame();
    assert_eq!(c.colboxes, f.colboxes);
    assert_eq!(c.render_order, f.render_order);
    assert!(!c.ledge_cancel);
}

#[test]
fn default_fighter_has_one_frame_per_action() {
    let f: Fighter<u32> = Fighter::default_fighter();
    let actions = all_actions();
    assert_eq!(actions.len(), 88);
    assert_eq!(f.actions.len(), 88);
    for (a, def) in actions.iter().zip(f.actions.iter()) {
        assert_eq!(def.frames.len(), 1);
        assert_eq!(def.iasa, 0);
        let frame = &def.frames[0];
        let blocks_pass = matches!(
            a,
            Action::Damage | Action::DamageFly | Action::DamageFall | Action::AerialDodge
                | Action::Uair | Action::Dair | Action::Fair | Action::Bair | Action::Nair
        );
        assert_eq!(frame.pass_through, !blocks_pass);
    }
    let index = |a: Action| actions.iter().position(|x| *x == a).unwrap();
    assert!(!f.actions[index(Action::Teeter)].frames[0].ledge_cancel);
    assert!(!f.actions[index(Action::SpotDodge)].frames[0].ledge_cancel);
    assert!(f.actions[index(Action::Idle)].frames[0].ledge_cancel);
    assert!(f.actions[index(Action::Dsmash)].frames[0].use_platform_angle);
    assert!(f.actions[index(Action::MissedTechIdle)].frames[0].use_platform_angle);
    assert!(!f.actions[index(Action::Usmash)].frames[0].use_platform_angle);
    assert!(!f.actions[index(Action::Nair)].frames[0].pass_through);
}

#[test]
fn action_order_and_kinds() {
    let actions = all_actions();
    assert_eq!(actions[0], Action::Spawn);
    assert_eq!(actions[87], Action::DummyFramePreStart);
    assert!(Action::Fair.is_air_attack());
    assert!(!Action::Jab.is_air_attack());
    assert!(Action::NairLand.is_attack_land());
    assert!(Action::Land.is_land());
    assert!(!Action::Land.is_attack_land());
    assert_eq!(Action::default_action(), Action::Spawn);
}

#[test]
fn package_hashes_are_sha256_of_the_parts_in_order() {
    let empty = compute_hash(&String::new(), &vec![], &vec![]);
    assert_eq!(empty, "e3b0c44298fc1c149afbf4c8996fb92427ae41e4649b934ca495991b7852b855");
    let abc = compute_hash(&"a".to_string(), &vec!["b".to_string()], &vec!["c".to_string()]);
    assert_eq!(abc, "ba7816bf8f01cfea414140de5dae2223b00361a396177a9cb410ff61f20015ad");
    let split = compute_hash(&"ab".to_string(), &vec![], &vec!["c".to_string()]);
    assert_eq!(split, abc);
    let other = compute_hash(&"a".to_string(), &vec!["c".to_string()], &vec!["b".to_string()]);
    assert_ne!(other, abc);
}

#[test]
fn expired_actions_lead_on() {
    let next = |a| expired_action(a, false, false, false).map(|e| e.next);
    assert_eq!(next(Action::Spawn), Some(Action::SpawnIdle));
    assert_eq!(next(Action::Dash), Some(Action::Run));
    assert_eq!(next(Action::Dtilt), Some(Action::Crouch));
    assert_eq!(next(Action::Nair), Some(Action::Fall));
    assert_eq!(next(Action::AerialDodge), Some(Action::SpecialFall));
    assert_eq!(next(Action::LedgeIdle), None);
    assert_eq!(expired_action(Action::Turn, true, false, false).map(|e| e.next), Some(Action::Dash));
    assert_eq!(expired_action(Action::Turn, false, false, true).map(|e| e.next), Some(Action::Idle));
    assert_eq!(
        expired_action(Action::JumpSquat, false, true, true),
        Some(Expiry { next: Action::JumpF, leaves_ground: true, short_hop: true })
    );
    assert_eq!(expired_action(Action::JumpSquat, false, false, false).map(|e| e.next), Some(Action::JumpB));
}
