use pf_sandbox::json_upgrade::{engine_version, engine_version_json, get_meta_engine_version, upgrade_to_latest, Json};

fn text(x: &str) -> Json {
    Json::String(String::from(x))
}

fn num(x: &str) -> Json {
    Json::Number(String::from(x))
}

fn arr(items: Vec<Json>) -> Json {
    Json::Array(items)
}

fn obj(members: Vec<(&str, Json)>) -> Json {
    Json::Object(members.into_iter().map(|(k, v)| (String::from(k), v)).collect())
}

fn old_fighter() -> Json {
    let hitbox = obj(vec![("role", obj(vec![("Hit", obj(vec![("damage", num("3"))]))]))]);
    let hurtbox = obj(vec![("role", text("Hurt"))]);
    let frame = obj(vec![
        ("colboxes", arr(vec![hitbox, hurtbox])),
        (
            "colbox_links",
            arr(vec![
                obj(vec![("one", num("0")), ("link_type", text("Meld"))]),
                obj(vec![("link_type", text("Simple"))]),
            ]),
        ),
    ]);
    obj(vec![("name", text("a")), ("actions", arr(vec![obj(vec![("frames", arr(vec![frame]))])]))])
}

fn meta(version: Json) -> Option<Json> {
    Some(obj(vec![("title", text("t")), ("engine_version", version)]))
}

#[test]
fn upgrades_run_in_order_from_the_recorded_version() {
    let mut m = meta(num("0"));
    let mut rules = None;
    let mut fighters = vec![(String::from("a"), old_fighter())];
    let mut stages = vec![];
    upgrade_to_latest(&mut m, &mut rules, &mut fighters, &mut stages);

    let hitbox = obj(vec![(
        "role",
        obj(vec![(
            "Hit",
            obj(vec![("damage", num("3")), ("hitstun", obj(vec![("FramesTimesKnockback", num("0.5"))]))]),
        )]),
    )]);
    let hurtbox = obj(vec![("role", text("Hurt"))]);
    let frame = obj(vec![
        ("colboxes", arr(vec![hitbox, hurtbox])),
        (
            "colbox_links",
            arr(vec![
                obj(vec![("one", num("0")), ("link_type", text("MeldFirst"))]),
                obj(vec![("link_type", text("Simple"))]),
            ]),
        ),
        ("render_order", arr(vec![])),
        ("force_hitlist_reset", Json::Bool(false)),
    ]);
    let expected = obj(vec![("name", text("a")), ("actions", arr(vec![obj(vec![("frames", arr(vec![frame]))])]))]);
    assert_eq!(fighters.len(), 1);
    assert_eq!(fighters[0].0, "a");
    assert_eq!(fighters[0].1, expected);
    assert_eq!(m, meta(num("3.0")));
    assert!(rules.is_none());
    assert!(stages.is_empty());
}

#[test]
fn only_the_missing_upgrades_run() {
    let mut m = meta(num("2"));
    let mut fighters = vec![(String::from("a"), old_fighter())];
    upgrade_to_latest(&mut m, &mut None, &mut fighters, &mut vec![]);
    let hitbox = obj(vec![("role", obj(vec![("Hit", obj(vec![("damage", num("3"))]))]))]);
    let hurtbox = obj(vec![("role", text("Hurt"))]);
    let frame = obj(vec![
        ("colboxes", arr(vec![hitbox, hurtbox])),
        (
            "colbox_links",
            arr(vec![
                obj(vec![("one", num("0")), ("link_type", text("Meld"))]),
                obj(vec![("link_type", text("Simple"))]),
            ]),
        ),
        ("force_hitlist_reset", Json::Bool(false)),
    ]);
    let expected = obj(vec![("name", text("a")), ("actions", arr(vec![obj(vec![("frames", arr(vec![frame]))])]))]);
    assert_eq!(fighters[0].1, expected);
    assert_eq!(m, meta(num("3.0")));
}

#[test]
fn current_data_is_left_alone() {
    let mut m = None;
    let mut fighters = vec![(String::from("a"), old_fighter())];
    upgrade_to_latest(&mut m, &mut None, &mut fighters, &mut vec![]);
    assert_eq!(fighters[0].1, old_fighter());
    assert!(m.is_none());

    let mut current = meta(num("3"));
    upgrade_to_latest(&mut current, &mut None, &mut fighters, &mut vec![]);
    assert_eq!(fighters[0].1, old_fighter());
    assert_eq!(current, meta(num("3")));
}

#[test]
fn existing_members_are_replaced_in_place() {
    let frame = obj(vec![("force_hitlist_reset", Json::Bool(true)), ("render_order", arr(vec![num("1")]))]);
    let fighter = obj(vec![("actions", arr(vec![obj(vec![("frames", arr(vec![frame]))])]))]);
    let mut fighters = vec![(String::from("b"), fighter)];
    upgrade_to_latest(&mut meta(num("0")), &mut None, &mut fighters, &mut vec![]);
    let frame = obj(vec![("force_hitlist_reset", Json::Bool(false)), ("render_order", arr(vec![]))]);
    let expected = obj(vec![("actions", arr(vec![obj(vec![("frames", arr(vec![frame]))])]))]);
    assert_eq!(fighters[0].1, expected);
}

#[test]
fn recorded_versions() {
    assert_eq!(engine_version(), 3);
    assert_eq!(engine_version_json(), num("3.0"));
    assert_eq!(get_meta_engine_version(&meta(num("2"))), 2);
    assert_eq!(get_meta_engine_version(&meta(num("7"))), 7);
    assert_eq!(get_meta_engine_version(&meta(num("3.0"))), 3);
    assert_eq!(get_meta_engine_version(&meta(num("+1"))), 3);
    assert_eq!(get_meta_engine_version(&meta(num("-1"))), 3);
    assert_eq!(get_meta_engine_version(&meta(text("1"))), 3);
    assert_eq!(get_meta_engine_version(&Some(arr(vec![]))), 3);
    assert_eq!(get_meta_engine_version(&Some(obj(vec![("title", text("t"))]))), 3);
    assert_eq!(get_meta_engine_version(&None), 3);
}

#[test]
fn a_second_upgrade_changes_nothing() {
    let mut m = meta(num("1"));
    let mut fighters = vec![(String::from("a"), old_fighter())];
    upgrade_to_latest(&mut m, &mut None, &mut fighters, &mut vec![]);
    assert_eq!(get_meta_engine_version(&m), 3);
    let once = format!("{:?}", fighters);
    upgrade_to_latest(&mut m, &mut None, &mut fighters, &mut vec![]);
    assert_eq!(format!("{:?}", fighters), once);
    assert_eq!(m, meta(num("3.0")));
}
