//! Versioning of the package data format.

use vstd::prelude::*;
use crate::text::{chars_of, is_decimal_digit, parse_unsigned, spec_parse_unsigned, str_eq, string_from_chars};

verus! {

broadcast use vstd::std_specs::vec::group_vec_axioms;

/// A JSON document as the package loader reads it. A number keeps the text
/// it is written with; an object keeps its members in order, each name once.
#[derive(Debug, PartialEq)]
pub enum Json {
    Null,
    Bool(bool),
    Number(String),
    String(String),
    Array(Vec<Json>),
    Object(Vec<(String, Json)>),
}

/// A JSON document as values.
pub enum JsonView {
    Null,
    Bool(bool),
    Number(Seq<char>),
    String(Seq<char>),
    Array(Seq<JsonView>),
    Object(Seq<(Seq<char>, JsonView)>),
}

/// The value of a document.
pub open spec fn json_view(j: Json) -> JsonView
    decreases j, 0nat,
{
    match j {
        Json::Null => JsonView::Null,
        Json::Bool(b) => JsonView::Bool(b),
        Json::Number(n) => JsonView::Number(n@),
        Json::String(t) => JsonView::String(t@),
        Json::Array(v) => JsonView::Array(items_view(v@, v@.len())),
        Json::Object(ps) => JsonView::Object(pairs_view(ps@, ps@.len())),
    }
}

/// The values of the first `n` items of an array.
pub open spec fn items_view(s: Seq<Json>, n: nat) -> Seq<JsonView>
    decreases s, n,
{
    if n == 0 || n > s.len() {
        Seq::empty()
    } else {
        items_view(s, (n - 1) as nat).push(json_view(s[n - 1]))
    }
}

/// The values of the first `n` members of an object.
pub open spec fn pairs_view(s: Seq<(String, Json)>, n: nat) -> Seq<(Seq<char>, JsonView)>
    decreases s, n,
{
    if n == 0 || n > s.len() {
        Seq::empty()
    } else {
        pairs_view(s, (n - 1) as nat).push((s[n - 1].0@, json_view(s[n - 1].1)))
    }
}

impl View for Json {
    type V = JsonView;

    open spec fn view(&self) -> JsonView {
        json_view(*self)
    }
}

proof fn lemma_items_view(s: Seq<Json>, n: nat)
    requires
        n <= s.len(),
    ensures
        items_view(s, n).len() == n,
        forall|k: int| 0 <= k < n ==> #[trigger] items_view(s, n)[k] == json_view(s[k]),
    decreases n,
{
    if n > 0 {
        lemma_items_view(s, (n - 1) as nat);
    }
}

proof fn lemma_pairs_view(s: Seq<(String, Json)>, n: nat)
    requires
        n <= s.len(),
    ensures
        pairs_view(s, n).len() == n,
        forall|k: int|
            0 <= k < n ==> #[trigger] pairs_view(s, n)[k] == (s[k].0@, json_view(s[k].1)),
    decreases n,
{
    if n > 0 {
        lemma_pairs_view(s, (n - 1) as nat);
    }
}

/// The values of all items of an array.
pub open spec fn all_items(s: Seq<Json>) -> Seq<JsonView> {
    items_view(s, s.len())
}

/// The values of all members of an object.
pub open spec fn all_pairs(s: Seq<(String, Json)>) -> Seq<(Seq<char>, JsonView)> {
    pairs_view(s, s.len())
}

/// The position of the first member named `key`.
pub open spec fn key_at(ps: Seq<(Seq<char>, JsonView)>, key: Seq<char>) -> Option<int> {
    if exists|i: int|
        0 <= i < ps.len() && (#[trigger] ps[i]).0 == key && forall|j: int|
            0 <= j < i ==> (#[trigger] ps[j]).0 != key {
        Some(
            choose|i: int|
                0 <= i < ps.len() && (#[trigger] ps[i]).0 == key && forall|j: int|
                    0 <= j < i ==> (#[trigger] ps[j]).0 != key,
        )
    } else {
        None
    }
}

proof fn lemma_key_at(ps: Seq<(Seq<char>, JsonView)>, key: Seq<char>, i: int)
    requires
        0 <= i < ps.len(),
        ps[i].0 == key,
        forall|j: int| 0 <= j < i ==> (#[trigger] ps[j]).0 != key,
    ensures
        key_at(ps, key) == Some(i),
{
    let k = choose|k: int|
        0 <= k < ps.len() && (#[trigger] ps[k]).0 == key && forall|j: int| 0 <= j < k ==> (#[trigger] ps[j]).0 != key;
    assert(ps[i].0 == key);
    if k < i {
        assert(ps[k].0 != key);
    }
    if i < k {
        assert(ps[i].0 != key);
    }
}

proof fn lemma_key_found(ps: Seq<(Seq<char>, JsonView)>, key: Seq<char>)
    ensures
        key_at(ps, key) matches Some(i) ==> 0 <= i < ps.len() && ps[i].0 == key,
{
}

/// The document with member `key` set to `val`, when it is an object: the
/// member keeps its place, or is added at the end.
pub open spec fn set_member(v: JsonView, key: Seq<char>, val: JsonView) -> JsonView {
    match v {
        JsonView::Object(ps) => JsonView::Object(set_pair(ps, key, val)),
        _ => v,
    }
}

/// The members with `key` set to `val`: in its place, or added at the end.
pub open spec fn set_pair(ps: Seq<(Seq<char>, JsonView)>, key: Seq<char>, val: JsonView) -> Seq<
    (Seq<char>, JsonView),
> {
    match key_at(ps, key) {
        Some(i) => ps.update(i, (key, val)),
        None => ps.push((key, val)),
    }
}

/// The document with `f` applied to its member `key`, when it is an object
/// that has one.
pub open spec fn update_member(v: JsonView, key: Seq<char>, f: spec_fn(JsonView) -> JsonView) -> JsonView {
    match v {
        JsonView::Object(ps) => match key_at(ps, key) {
            Some(i) => JsonView::Object(ps.update(i, (key, f(ps[i].1)))),
            None => v,
        },
        _ => v,
    }
}

/// The document with `f` applied to each item, when it is an array.
pub open spec fn map_items(v: JsonView, f: spec_fn(JsonView) -> JsonView) -> JsonView {
    match v {
        JsonView::Array(items) => JsonView::Array(items.map_values(f)),
        _ => v,
    }
}

/// The position of the first member named `key`.
fn find_key(ps: &Vec<(String, Json)>, key: &str) -> (r: Option<usize>)
    ensures
        r matches Some(i) ==> key_at(all_pairs(ps@), key@) == Some(i as int) && i < ps@.len(),
        r is None ==> key_at(all_pairs(ps@), key@) is None,
{
    proof {
        lemma_pairs_view(ps@, ps@.len());
    }
    let ghost v = all_pairs(ps@);
    let mut i: usize = 0;
    while i < ps.len()
        invariant
            i <= ps@.len(),
            v == all_pairs(ps@),
            v.len() == ps@.len(),
            forall|k: int| 0 <= k < v.len() ==> #[trigger] v[k] == (ps@[k].0@, json_view(ps@[k].1)),
            forall|j: int| 0 <= j < i ==> (#[trigger] v[j]).0 != key@,
        decreases ps@.len() - i,
    {
        if str_eq(ps[i].0.as_str(), key) {
            proof {
                lemma_key_at(v, key@, i as int);
            }
            return Some(i);
        }
        assert(v[i as int].0 != key@);
        i = i + 1;
    }
    proof {
        if exists|k: int|
            0 <= k < v.len() && (#[trigger] v[k]).0 == key@ && forall|j: int|
                0 <= j < k ==> (#[trigger] v[j]).0 != key@ {
            let k = choose|k: int|
                0 <= k < v.len() && (#[trigger] v[k]).0 == key@ && forall|j: int|
                    0 <= j < k ==> (#[trigger] v[j]).0 != key@;
            assert(v[k].0 != key@);
        }
    }
    None
}

proof fn lemma_pairs_update(s: Seq<(String, Json)>, i: int, p: (String, Json))
    requires
        0 <= i < s.len(),
    ensures
        all_pairs(s.update(i, p)) == all_pairs(s).update(i, (p.0@, json_view(p.1))),
{
    lemma_pairs_view(s, s.len());
    lemma_pairs_view(s.update(i, p), s.len());
    assert(all_pairs(s.update(i, p)) =~= all_pairs(s).update(i, (p.0@, json_view(p.1))));
}

proof fn lemma_pairs_push(s: Seq<(String, Json)>, p: (String, Json))
    ensures
        all_pairs(s.push(p)) == all_pairs(s).push((p.0@, json_view(p.1))),
{
    lemma_pairs_view(s, s.len());
    lemma_pairs_view(s.push(p), s.len() + 1);
    assert(all_pairs(s.push(p)) =~= all_pairs(s).push((p.0@, json_view(p.1))));
}

/// Items whose values are those of `old` with `f` applied.
proof fn lemma_items_mapped(old: Seq<Json>, new: Seq<Json>, f: spec_fn(JsonView) -> JsonView)
    requires
        new.len() == old.len(),
        forall|m: int| 0 <= m < old.len() ==> json_view(#[trigger] new[m]) == f(json_view(old[m])),
    ensures
        all_items(new) == all_items(old).map_values(f),
{
    lemma_items_view(old, old.len());
    lemma_items_view(new, new.len());
    assert forall|m: int| 0 <= m < new.len() implies #[trigger] all_items(new)[m] == all_items(
        old,
    ).map_values(f)[m] by {
        assert(json_view(new[m]) == f(json_view(old[m])));
    }
    assert(all_items(new) =~= all_items(old).map_values(f));
}

/// The member `key` of an object replaced by a value that is `f` of the old one.
proof fn lemma_member_updated(
    old: Seq<(String, Json)>,
    new: Seq<(String, Json)>,
    i: int,
    key: Seq<char>,
    f: spec_fn(JsonView) -> JsonView,
)
    requires
        0 <= i < old.len(),
        key_at(all_pairs(old), key) == Some(i),
        new == old.update(i, (old[i].0, new[i].1)),
        json_view(new[i].1) == f(json_view(old[i].1)),
    ensures
        JsonView::Object(all_pairs(new)) == update_member(JsonView::Object(all_pairs(old)), key, f),
{
    lemma_pairs_view(old, old.len());
    lemma_pairs_update(old, i, (old[i].0, new[i].1));
    lemma_key_found(all_pairs(old), key);
}

/// Sets member `key` to `val`.
fn insert_pair(ps: &mut Vec<(String, Json)>, key: &str, val: Json)
    ensures
        all_pairs(final(ps)@) == set_pair(all_pairs(old(ps)@), key@, val@),
{
    let ghost old_ps = ps@;
    match find_key(ps, key) {
        Some(i) => {
            proof {
                lemma_pairs_view(old_ps, old_ps.len());
                lemma_key_found(all_pairs(old_ps), key@);
            }
            let name = string_from_chars(&chars_of(ps[i].0.as_str()));
            ps.set(i, (name, val));
            proof {
                lemma_pairs_update(old_ps, i as int, ps@[i as int]);
            }
        },
        None => {
            let name = string_from_chars(&chars_of(key));
            ps.push((name, val));
            proof {
                lemma_pairs_push(old_ps, ps@.last());
            }
        },
    }
}

/// Sets member `key` of `j` to `val` when `j` is an object.
fn insert_member(j: &mut Json, key: &str, val: Json)
    ensures
        final(j)@ == set_member(old(j)@, key@, val@),
{
    match j {
        Json::Object(ps) => {
            insert_pair(ps, key, val);
        },
        _ => {},
    }
}

/// A frame after upgrade 2: `force_hitlist_reset` is added, off.
pub open spec fn frame2(fr: JsonView) -> JsonView {
    set_member(fr, "force_hitlist_reset"@, JsonView::Bool(false))
}

/// An array of frames after upgrade 2.
pub open spec fn frames2(x: JsonView) -> JsonView {
    map_items(x, |e: JsonView| frame2(e))
}

/// An action after upgrade 2.
pub open spec fn action2(a: JsonView) -> JsonView {
    update_member(a, "frames"@, |x: JsonView| frames2(x))
}

/// An array of actions after upgrade 2.
pub open spec fn actions2(x: JsonView) -> JsonView {
    map_items(x, |e: JsonView| action2(e))
}

/// A fighter after upgrade 2, which adds `force_hitlist_reset` to every frame.
pub open spec fn fighter2(f: JsonView) -> JsonView {
    update_member(f, "actions"@, |x: JsonView| actions2(x))
}

fn upgrade_frame2(fr: &mut Json)
    ensures
        final(fr)@ == frame2(old(fr)@),
{
    insert_member(fr, "force_hitlist_reset", Json::Bool(false));
}

fn upgrade_frames2(x: &mut Json)
    ensures
        final(x)@ == frames2(old(x)@),
{
    match x {
        Json::Array(items) => {
            let ghost old_items = items@;
            let mut k: usize = 0;
            while k < items.len()
                invariant
                    k <= items@.len(),
                    items@.len() == old_items.len(),
                    forall|m: int|
                        0 <= m < k ==> json_view(#[trigger] items@[m]) == frame2(json_view(old_items[m])),
                    forall|m: int| k <= m < items@.len() ==> #[trigger] items@[m] == old_items[m],
                decreases items@.len() - k,
            {
                upgrade_frame2(&mut items[k]);
                k = k + 1;
            }
            proof {
                lemma_items_mapped(old_items, items@, |e: JsonView| frame2(e));
            }
        },
        _ => {},
    }
}

fn upgrade_action2(a: &mut Json)
    ensures
        final(a)@ == action2(old(a)@),
{
    match a {
        Json::Object(ps) => {
            match find_key(ps, "frames") {
                Some(i) => {
                    let ghost old_ps = ps@;
                    upgrade_frames2(&mut ps[i].1);
                    proof {
                        lemma_member_updated(old_ps, ps@, i as int, "frames"@, |x: JsonView| frames2(x));
                    }
                },
                None => {},
            }
        },
        _ => {},
    }
}

fn upgrade_actions2(x: &mut Json)
    ensures
        final(x)@ == actions2(old(x)@),
{
    match x {
        Json::Array(items) => {
            let ghost old_items = items@;
            let mut k: usize = 0;
            while k < items.len()
                invariant
                    k <= items@.len(),
                    items@.len() == old_items.len(),
                    forall|m: int|
                        0 <= m < k ==> json_view(#[trigger] items@[m]) == action2(json_view(old_items[m])),
                    forall|m: int| k <= m < items@.len() ==> #[trigger] items@[m] == old_items[m],
                decreases items@.len() - k,
            {
                upgrade_action2(&mut items[k]);
                k = k + 1;
            }
            proof {
                lemma_items_mapped(old_items, items@, |e: JsonView| action2(e));
            }
        },
        _ => {},
    }
}

fn upgrade_fighter2(a: &mut Json)
    ensures
        final(a)@ == fighter2(old(a)@),
{
    match a {
        Json::Object(ps) => {
            match find_key(ps, "actions") {
                Some(i) => {
                    let ghost old_ps = ps@;
                    upgrade_actions2(&mut ps[i].1);
                    proof {
                        lemma_member_updated(old_ps, ps@, i as int, "actions"@, |x: JsonView| actions2(x));
                    }
                },
                None => {},
            }
        },
        _ => {},
    }
}

/// The hitstun that upgrade 1 gives every hitbox: frames times knockback, 0.5.
pub open spec fn hitstun_json() -> JsonView {
    JsonView::Object(seq![("FramesTimesKnockback"@, JsonView::Number("0.5"@))])
}

/// A hitbox after upgrade 1: it gets the hitstun.
pub open spec fn hit1(h: JsonView) -> JsonView {
    set_member(h, "hitstun"@, hitstun_json())
}

/// A collision box role after upgrade 1.
pub open spec fn role1(v: JsonView) -> JsonView {
    update_member(v, "Hit"@, |x: JsonView| hit1(x))
}

/// A collision box after upgrade 1.
pub open spec fn colbox1(v: JsonView) -> JsonView {
    update_member(v, "role"@, |x: JsonView| role1(x))
}

/// An array of collision boxes after upgrade 1.
pub open spec fn colboxes1(x: JsonView) -> JsonView {
    map_items(x, |e: JsonView| colbox1(e))
}

/// A frame after upgrade 1.
pub open spec fn frame1(v: JsonView) -> JsonView {
    update_member(v, "colboxes"@, |x: JsonView| colboxes1(x))
}

/// An array of frames after upgrade 1.
pub open spec fn frames1(x: JsonView) -> JsonView {
    map_items(x, |e: JsonView| frame1(e))
}

/// An action after upgrade 1.
pub open spec fn action1(v: JsonView) -> JsonView {
    update_member(v, "frames"@, |x: JsonView| frames1(x))
}

/// An array of actions after upgrade 1.
pub open spec fn actions1(x: JsonView) -> JsonView {
    map_items(x, |e: JsonView| action1(e))
}

/// A fighter after upgrade 1, which gives every hitbox a hitstun.
pub open spec fn fighter1(v: JsonView) -> JsonView {
    update_member(v, "actions"@, |x: JsonView| actions1(x))
}

fn hitstun() -> (j: Json)
    ensures
        j@ == hitstun_json(),
{
    let name = string_from_chars(&chars_of("FramesTimesKnockback"));
    let value = Json::Number(string_from_chars(&chars_of("0.5")));
    let ps = vec![(name, value)];
    proof {
        lemma_pairs_view(ps@, 1);
        assert(all_pairs(ps@) =~= seq![("FramesTimesKnockback"@, JsonView::Number("0.5"@))]);
    }
    Json::Object(ps)
}

fn upgrade_hit1(h: &mut Json)
    ensures
        final(h)@ == hit1(old(h)@),
{
    let v = hitstun();
    insert_member(h, "hitstun", v);
}

fn upgrade_role1(a: &mut Json)
    ensures
        final(a)@ == role1(old(a)@),
{
    match a {
        Json::Object(ps) => {
            match find_key(ps, "Hit") {
                Some(i) => {
                    let ghost old_ps = ps@;
                    upgrade_hit1(&mut ps[i].1);
                    proof {
                        lemma_member_updated(old_ps, ps@, i as int, "Hit"@, |x: JsonView| hit1(x));
                    }
                },
                None => {},
            }
        },
        _ => {},
    }
}

fn upgrade_colbox1(a: &mut Json)
    ensures
        final(a)@ == colbox1(old(a)@),
{
    match a {
        Json::Object(ps) => {
            match find_key(ps, "role") {
                Some(i) => {
                    let ghost old_ps = ps@;
                    upgrade_role1(&mut ps[i].1);
                    proof {
                        lemma_member_updated(old_ps, ps@, i as int, "role"@, |x: JsonView| role1(x));
                    }
                },
                None => {},
            }
        },
        _ => {},
    }
}

fn upgrade_colboxes1(x: &mut Json)
    ensures
        final(x)@ == colboxes1(old(x)@),
{
    match x {
        Json::Array(items) => {
            let ghost old_items = items@;
            let mut k: usize = 0;
            while k < items.len()
                invariant
                    k <= items@.len(),
                    items@.len() == old_items.len(),
                    forall|m: int|
                        0 <= m < k ==> json_view(#[trigger] items@[m]) == colbox1(json_view(old_items[m])),
                    forall|m: int| k <= m < items@.len() ==> #[trigger] items@[m] == old_items[m],
                decreases items@.len() - k,
            {
                upgrade_colbox1(&mut items[k]);
                k = k + 1;
            }
            proof {
                lemma_items_mapped(old_items, items@, |e: JsonView| colbox1(e));
            }
        },
        _ => {},
    }
}

fn upgrade_frame1(a: &mut Json)
    ensures
        final(a)@ == frame1(old(a)@),
{
    match a {
        Json::Object(ps) => {
            match find_key(ps, "colboxes") {
                Some(i) => {
                    let ghost old_ps = ps@;
                    upgrade_colboxes1(&mut ps[i].1);
                    proof {
                        lemma_member_updated(old_ps, ps@, i as int, "colboxes"@, |x: JsonView| colboxes1(x));
                    }
                },
                None => {},
            }
        },
        _ => {},
    }
}

fn upgrade_frames1(x: &mut Json)
    ensures
        final(x)@ == frames1(old(x)@),
{
    match x {
        Json::Array(items) => {
            let ghost old_items = items@;
            let mut k: usize = 0;
            while k < items.len()
                invariant
                    k <= items@.len(),
                    items@.len() == old_items.len(),
                    forall|m: int|
                        0 <= m < k ==> json_view(#[trigger] items@[m]) == frame1(json_view(old_items[m])),
                    forall|m: int| k <= m < items@.len() ==> #[trigger] items@[m] == old_items[m],
                decreases items@.len() - k,
            {
                upgrade_frame1(&mut items[k]);
                k = k + 1;
            }
            proof {
                lemma_items_mapped(old_items, items@, |e: JsonView| frame1(e));
            }
        },
        _ => {},
    }
}

fn upgrade_action1(a: &mut Json)
    ensures
        final(a)@ == action1(old(a)@),
{
    match a {
        Json::Object(ps) => {
            match find_key(ps, "frames") {
                Some(i) => {
                    let ghost old_ps = ps@;
                    upgrade_frames1(&mut ps[i].1);
                    proof {
                        lemma_member_updated(old_ps, ps@, i as int, "frames"@, |x: JsonView| frames1(x));
                    }
                },
                None => {},
            }
        },
        _ => {},
    }
}

fn upgrade_actions1(x: &mut Json)
    ensures
        final(x)@ == actions1(old(x)@),
{
    match x {
        Json::Array(items) => {
            let ghost old_items = items@;
            let mut k: usize = 0;
            while k < items.len()
                invariant
                    k <= items@.len(),
                    items@.len() == old_items.len(),
                    forall|m: int|
                        0 <= m < k ==> json_view(#[trigger] items@[m]) == action1(json_view(old_items[m])),
                    forall|m: int| k <= m < items@.len() ==> #[trigger] items@[m] == old_items[m],
                decreases items@.len() - k,
            {
                upgrade_action1(&mut items[k]);
                k = k + 1;
            }
            proof {
                lemma_items_mapped(old_items, items@, |e: JsonView| action1(e));
            }
        },
        _ => {},
    }
}

fn upgrade_fighter1(a: &mut Json)
    ensures
        final(a)@ == fighter1(old(a)@),
{
    match a {
        Json::Object(ps) => {
            match find_key(ps, "actions") {
                Some(i) => {
                    let ghost old_ps = ps@;
                    upgrade_actions1(&mut ps[i].1);
                    proof {
                        lemma_member_updated(old_ps, ps@, i as int, "actions"@, |x: JsonView| actions1(x));
                    }
                },
                None => {},
            }
        },
        _ => {},
    }
}

/// A collision box link after upgrade 0: the link type `Meld` becomes
/// `MeldFirst`.
pub open spec fn link0(l: JsonView) -> JsonView {
    match l {
        JsonView::Object(ps) => match key_at(ps, "link_type"@) {
            Some(i) => if ps[i].1 == JsonView::String("Meld"@) {
                set_member(l, "link_type"@, JsonView::String("MeldFirst"@))
            } else {
                l
            },
            None => l,
        },
        _ => l,
    }
}

/// An array of collision box links after upgrade 0.
pub open spec fn links0(x: JsonView) -> JsonView {
    map_items(x, |e: JsonView| link0(e))
}

/// A frame after upgrade 0: it gets an empty draw order, and its links are
/// upgraded.
pub open spec fn frame0(fr: JsonView) -> JsonView {
    update_member(
        set_member(fr, "render_order"@, JsonView::Array(seq![])),
        "colbox_links"@,
        |x: JsonView| links0(x),
    )
}

/// An array of frames after upgrade 0.
pub open spec fn frames0(x: JsonView) -> JsonView {
    map_items(x, |e: JsonView| frame0(e))
}

/// An action after upgrade 0.
pub open spec fn action0(v: JsonView) -> JsonView {
    update_member(v, "frames"@, |x: JsonView| frames0(x))
}

/// An array of actions after upgrade 0.
pub open spec fn actions0(x: JsonView) -> JsonView {
    map_items(x, |e: JsonView| action0(e))
}

/// A fighter after upgrade 0, which adds draw orders and renames `Meld` links.
pub open spec fn fighter0(v: JsonView) -> JsonView {
    update_member(v, "actions"@, |x: JsonView| actions0(x))
}

fn upgrade_link0(l: &mut Json)
    ensures
        final(l)@ == link0(old(l)@),
{
    match l {
        Json::Object(ps) => {
            match find_key(ps, "link_type") {
                Some(i) => {
                    let is_meld = match &ps[i].1 {
                        Json::String(t) => str_eq(t.as_str(), "Meld"),
                        _ => false,
                    };
                    proof {
                        lemma_pairs_view(ps@, ps@.len());
                        lemma_key_found(all_pairs(ps@), "link_type"@);
                    }
                    if is_meld {
                        let v = Json::String(string_from_chars(&chars_of("MeldFirst")));
                        insert_pair(ps, "link_type", v);
                    }
                },
                None => {},
            }
        },
        _ => {},
    }
}

fn upgrade_links0(x: &mut Json)
    ensures
        final(x)@ == links0(old(x)@),
{
    match x {
        Json::Array(items) => {
            let ghost old_items = items@;
            let mut k: usize = 0;
            while k < items.len()
                invariant
                    k <= items@.len(),
                    items@.len() == old_items.len(),
                    forall|m: int|
                        0 <= m < k ==> json_view(#[trigger] items@[m]) == link0(json_view(old_items[m])),
                    forall|m: int| k <= m < items@.len() ==> #[trigger] items@[m] == old_items[m],
                decreases items@.len() - k,
            {
                upgrade_link0(&mut items[k]);
                k = k + 1;
            }
            proof {
                lemma_items_mapped(old_items, items@, |e: JsonView| link0(e));
            }
        },
        _ => {},
    }
}

fn upgrade_frame0(a: &mut Json)
    ensures
        final(a)@ == frame0(old(a)@),
{
    insert_member(a, "render_order", Json::Array(Vec::new()));
    let ghost with_order = a@;
    assert(with_order == set_member(old(a)@, "render_order"@, JsonView::Array(seq![])));
    match a {
        Json::Object(ps) => {
            match find_key(ps, "colbox_links") {
                Some(i) => {
                    let ghost old_ps = ps@;
                    upgrade_links0(&mut ps[i].1);
                    proof {
                        lemma_member_updated(old_ps, ps@, i as int, "colbox_links"@, |x: JsonView| links0(x));
                    }
                },
                None => {},
            }
        },
        _ => {},
    }
}

fn upgrade_frames0(x: &mut Json)
    ensures
        final(x)@ == frames0(old(x)@),
{
    match x {
        Json::Array(items) => {
            let ghost old_items = items@;
            let mut k: usize = 0;
            while k < items.len()
                invariant
                    k <= items@.len(),
                    items@.len() == old_items.len(),
                    forall|m: int|
                        0 <= m < k ==> json_view(#[trigger] items@[m]) == frame0(json_view(old_items[m])),
                    forall|m: int| k <= m < items@.len() ==> #[trigger] items@[m] == old_items[m],
                decreases items@.len() - k,
            {
                upgrade_frame0(&mut items[k]);
                k = k + 1;
            }
            proof {
                lemma_items_mapped(old_items, items@, |e: JsonView| frame0(e));
            }
        },
        _ => {},
    }
}

fn upgrade_action0(a: &mut Json)
    ensures
        final(a)@ == action0(old(a)@),
{
    match a {
        Json::Object(ps) => {
            match find_key(ps, "frames") {
                Some(i) => {
                    let ghost old_ps = ps@;
                    upgrade_frames0(&mut ps[i].1);
                    proof {
                        lemma_member_updated(old_ps, ps@, i as int, "frames"@, |x: JsonView| frames0(x));
                    }
                },
                None => {},
            }
        },
        _ => {},
    }
}

fn upgrade_actions0(x: &mut Json)
    ensures
        final(x)@ == actions0(old(x)@),
{
    match x {
        Json::Array(items) => {
            let ghost old_items = items@;
            let mut k: usize = 0;
            while k < items.len()
                invariant
                    k <= items@.len(),
                    items@.len() == old_items.len(),
                    forall|m: int|
                        0 <= m < k ==> json_view(#[trigger] items@[m]) == action0(json_view(old_items[m])),
                    forall|m: int| k <= m < items@.len() ==> #[trigger] items@[m] == old_items[m],
                decreases items@.len() - k,
            {
                upgrade_action0(&mut items[k]);
                k = k + 1;
            }
            proof {
                lemma_items_mapped(old_items, items@, |e: JsonView| action0(e));
            }
        },
        _ => {},
    }
}

fn upgrade_fighter0(a: &mut Json)
    ensures
        final(a)@ == fighter0(old(a)@),
{
    match a {
        Json::Object(ps) => {
            match find_key(ps, "actions") {
                Some(i) => {
                    let ghost old_ps = ps@;
                    upgrade_actions0(&mut ps[i].1);
                    proof {
                        lemma_member_updated(old_ps, ps@, i as int, "actions"@, |x: JsonView| actions0(x));
                    }
                },
                None => {},
            }
        },
        _ => {},
    }
}

/// The package data format version this engine reads and writes.
pub fn engine_version() -> (v: u64)
    ensures
        v == 3,
{
    3
}

/// A fighter after upgrade `k`, which turns format version `k` data into
/// version `k + 1` data.
pub open spec fn upgrade_step(k: int, f: JsonView) -> JsonView {
    if k == 0 {
        fighter0(f)
    } else if k == 1 {
        fighter1(f)
    } else if k == 2 {
        fighter2(f)
    } else {
        f
    }
}

/// A fighter of format version `from` brought to the current version: the
/// upgrades `from`, `from + 1`, ... run in that order.
pub open spec fn upgraded_from(f: JsonView, from: int) -> JsonView
    decreases 3 - from,
{
    if from >= 3 {
        f
    } else {
        upgraded_from(upgrade_step(from, f), from + 1)
    }
}

/// The value of a document that may be missing.
pub open spec fn opt_view(o: Option<Json>) -> Option<JsonView> {
    match o {
        Some(j) => Some(json_view(j)),
        None => None,
    }
}

/// The unsigned integer that a number's text writes in decimal digits, if
/// it is one that fits in 64 bits.
pub open spec fn number_u64(t: Seq<char>) -> Option<u64> {
    if t.len() > 0 && t[0] != '+' {
        match spec_parse_unsigned(t, u64::MAX as int) {
            Some(v) => Some(v as u64),
            None => None,
        }
    } else {
        None
    }
}

/// The format version recorded under `engine_version` in a package's
/// metadata, if it records one as an unsigned integer.
pub open spec fn recorded_version(meta: Option<JsonView>) -> Option<u64> {
    match meta {
        Some(JsonView::Object(ps)) => match key_at(ps, "engine_version"@) {
            Some(i) => match ps[i].1 {
                JsonView::Number(t) => number_u64(t),
                _ => None,
            },
            None => None,
        },
        _ => None,
    }
}

/// The format version of a package: the one its metadata records, else the
/// current one.
pub open spec fn meta_version(meta: Option<JsonView>) -> u64 {
    match recorded_version(meta) {
        Some(v) => v,
        None => 3,
    }
}

/// The current format version as a JSON number, as the metadata records it.
pub open spec fn engine_version_view() -> JsonView {
    JsonView::Number("3.0"@)
}

/// The current format version as a JSON number: the floating point number
/// 3, written `3.0`.
pub fn engine_version_json() -> (j: Json)
    ensures
        j@ == engine_version_view(),
{
    Json::Number(string_from_chars(&chars_of("3.0")))
}

/// The format version of a package's metadata `meta`.
pub fn get_meta_engine_version(meta: &Option<Json>) -> (v: u64)
    ensures
        v == meta_version(opt_view(*meta)),
{
    match meta {
        Some(Json::Object(ps)) => match find_key(ps, "engine_version") {
            Some(i) => {
                proof {
                    lemma_pairs_view(ps@, ps@.len());
                    lemma_key_found(all_pairs(ps@), "engine_version"@);
                }
                match &ps[i].1 {
                    Json::Number(t) => {
                        let chars = chars_of(t.as_str());
                        if chars.len() > 0 && chars[0] != '+' {
                            match parse_unsigned(t.as_str(), u64::MAX) {
                                Some(v) => v,
                                None => engine_version(),
                            }
                        } else {
                            engine_version()
                        }
                    },
                    _ => engine_version(),
                }
            },
            None => engine_version(),
        },
        _ => engine_version(),
    }
}

/// Records the current format version in the metadata, when it is an object.
fn upgrade_meta_engine_version(meta: &mut Option<Json>)
    ensures
        opt_view(*final(meta)) == match opt_view(*old(meta)) {
            Some(m) => Some(set_member(m, "engine_version"@, engine_version_view())),
            None => None,
        },
{
    match meta {
        Some(m) => {
            let v = engine_version_json();
            insert_member(m, "engine_version", v);
        },
        None => {},
    }
}

/// Every fighter (name and value) after upgrade `k`; the names stay.
pub open spec fn fighters_after_step(fs: Seq<(Seq<char>, JsonView)>, k: int) -> Seq<(Seq<char>, JsonView)> {
    fs.map_values(|p: (Seq<char>, JsonView)| (p.0, upgrade_step(k, p.1)))
}

/// Every fighter brought from format version `from` to the current one.
pub open spec fn fighters_upgraded(fs: Seq<(Seq<char>, JsonView)>, from: int) -> Seq<(Seq<char>, JsonView)> {
    fs.map_values(|p: (Seq<char>, JsonView)| (p.0, upgraded_from(p.1, from)))
}

fn upgrade_fighters_step(fighters: &mut Vec<(String, Json)>, k: u64)
    ensures
        all_pairs(final(fighters)@) == fighters_after_step(all_pairs(old(fighters)@), k as int),
{
    let ghost old_fs = fighters@;
    let mut m: usize = 0;
    while m < fighters.len()
        invariant
            m <= fighters@.len(),
            fighters@.len() == old_fs.len(),
            forall|j: int|
                0 <= j < m ==> (#[trigger] fighters@[j]).0 == old_fs[j].0 && json_view(fighters@[j].1)
                    == upgrade_step(k as int, json_view(old_fs[j].1)),
            forall|j: int| m <= j < fighters@.len() ==> #[trigger] fighters@[j] == old_fs[j],
        decreases fighters@.len() - m,
    {
        if k == 0 {
            upgrade_fighter0(&mut fighters[m].1);
        } else if k == 1 {
            upgrade_fighter1(&mut fighters[m].1);
        } else if k == 2 {
            upgrade_fighter2(&mut fighters[m].1);
        }
        m = m + 1;
    }
    proof {
        lemma_pairs_view(old_fs, old_fs.len());
        lemma_pairs_view(fighters@, fighters@.len());
        assert(all_pairs(fighters@) =~= fighters_after_step(all_pairs(old_fs), k as int));
    }
}

proof fn lemma_fighters_upgraded(fs: Seq<(Seq<char>, JsonView)>, from: int)
    requires
        from < 3,
    ensures
        fighters_upgraded(fighters_after_step(fs, from), from + 1) == fighters_upgraded(fs, from),
{
    assert(fighters_upgraded(fighters_after_step(fs, from), from + 1) =~= fighters_upgraded(fs, from));
}

/// A package's metadata after the upgrade: when it was older than the
/// engine, it records the current version.
pub open spec fn upgraded_meta(meta: Option<JsonView>) -> Option<JsonView> {
    if meta_version(meta) < 3 {
        match meta {
            Some(m) => Some(set_member(m, "engine_version"@, engine_version_view())),
            None => None,
        }
    } else {
        meta
    }
}

proof fn lemma_key_at_some(ps: Seq<(Seq<char>, JsonView)>, key: Seq<char>, j: int)
    requires
        0 <= j < ps.len(),
        ps[j].0 == key,
    ensures
        key_at(ps, key) is Some,
    decreases j,
{
    if exists|k: int| 0 <= k < j && (#[trigger] ps[k]).0 == key {
        let k = choose|k: int| 0 <= k < j && (#[trigger] ps[k]).0 == key;
        lemma_key_at_some(ps, key, k);
    } else {
        lemma_key_at(ps, key, j);
    }
}

proof fn lemma_set_pair_finds(ps: Seq<(Seq<char>, JsonView)>, key: Seq<char>, val: JsonView)
    ensures
        key_at(set_pair(ps, key, val), key) matches Some(i) && 0 <= i < set_pair(ps, key, val).len()
            && set_pair(ps, key, val)[i].1 == val,
{
    let qs = set_pair(ps, key, val);
    match key_at(ps, key) {
        Some(i) => {
            lemma_key_found(ps, key);
            assert forall|j: int| 0 <= j < i implies (#[trigger] qs[j]).0 != key by {
                assert(qs[j] == ps[j]);
                let m = choose|m: int|
                    0 <= m < ps.len() && (#[trigger] ps[m]).0 == key && forall|j: int|
                        0 <= j < m ==> (#[trigger] ps[j]).0 != key;
                assert(m == i);
            }
            lemma_key_at(qs, key, i);
        },
        None => {
            assert forall|j: int| 0 <= j < ps.len() implies (#[trigger] qs[j]).0 != key by {
                assert(qs[j] == ps[j]);
                if ps[j].0 == key {
                    lemma_key_at_some(ps, key, j);
                }
            }
            lemma_key_at(qs, key, ps.len() as int);
        },
    }
}

/// Upgrading is done once: metadata that went through the upgrade reads as
/// the current version, so a second upgrade finds nothing to do.
pub proof fn law_upgraded_meta_is_current(meta: Option<JsonView>)
    requires
        meta_version(meta) <= 3,
    ensures
        meta_version(upgraded_meta(meta)) == 3,
{
    if meta_version(meta) < 3 {
        if let Some(JsonView::Object(ps)) = meta {
            let qs = set_pair(ps, "engine_version"@, engine_version_view());
            lemma_set_pair_finds(ps, "engine_version"@, engine_version_view());
            reveal_strlit("3.0");
            assert(!is_decimal_digit("3.0"@[1]));
            assert(number_u64("3.0"@) is None);
        }
    }
}

/// Fighters of the current format version are left as they are.
pub proof fn law_current_fighters_unchanged(fs: Seq<(Seq<char>, JsonView)>)
    ensures
        fighters_upgraded(fs, 3) == fs,
{
    assert(fighters_upgraded(fs, 3) =~= fs);
}

/// Brings a package's data to the current format version: the fighters get
/// each upgrade from the metadata's version on, in order, and the metadata
/// records the current version. Data already current is left as it is. The
/// rules and stages need no upgrade so far. Data newer than the engine
/// cannot be read, so the metadata's version is at most the current one.
pub fn upgrade_to_latest(
    meta: &mut Option<Json>,
    rules: &mut Option<Json>,
    fighters: &mut Vec<(String, Json)>,
    stages: &mut Vec<Json>,
)
    requires
        meta_version(opt_view(*old(meta))) <= 3,
    ensures
        all_pairs(final(fighters)@) == fighters_upgraded(
            all_pairs(old(fighters)@),
            meta_version(opt_view(*old(meta))) as int,
        ),
        opt_view(*final(meta)) == upgraded_meta(opt_view(*old(meta))),
        *final(rules) == *old(rules),
        *final(stages) == *old(stages),
{
    let from = get_meta_engine_version(meta);
    if from < engine_version() {
        let ghost old_fs = all_pairs(fighters@);
        let mut k = from;
        proof {
            assert(fighters_upgraded(old_fs, from as int) =~= fighters_upgraded(
                all_pairs(fighters@),
                k as int,
            ));
        }
        while k < engine_version()
            invariant
                from <= k <= 3,
                fighters_upgraded(all_pairs(fighters@), k as int) == fighters_upgraded(
                    old_fs,
                    from as int,
                ),
            decreases 3 - k,
        {
            let ghost before = all_pairs(fighters@);
            upgrade_fighters_step(fighters, k);
            proof {
                lemma_fighters_upgraded(before, k as int);
            }
            k = k + 1;
        }
        proof {
            assert(fighters_upgraded(all_pairs(fighters@), 3) =~= all_pairs(fighters@));
        }
        upgrade_meta_engine_version(meta);
    } else {
        proof {
            assert(fighters_upgraded(all_pairs(fighters@), 3) =~= all_pairs(fighters@));
        }
    }
}

} // verus!
