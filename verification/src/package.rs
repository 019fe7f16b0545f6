//! Packages: their metadata, how a local package is checked against the
//! published one, and the edits the fighter editor makes to a package's
//! fighters, each recorded as an update for the running game.

use vstd::prelude::*;
use std::collections::HashSet;
use crate::fighter::{CollisionBoxLink, LinkType, RenderOrder};
use crate::frame::ActionFrame;
use crate::action::Action;
use crate::text::{chars_of, decimal_chars, extend_chars, string_from_chars};

verus! {

/// Identifies a package and the version of it that was saved.
pub struct PackageMeta {
    /// Compared with the engine's data format version.
    pub engine_version: u64,
    /// Incremented every time the package is saved.
    pub save_version: u64,
    pub title: String,
    /// The address the package is published at.
    pub source: String,
    pub hash: String,
}

/// The outcome of checking a local package against the published one.
#[derive(Clone, Copy, Debug, PartialEq, Eq, Structural)]
pub enum Verify {
    Valid,
    NoPackage,
    IncorrectHash,
    UpdateAvailable,
    CannotConnect,
}

/// The outcome of checking a package whose metadata is `meta` and whose
/// content hashes to `hash` against the published metadata `latest`
/// (`None` when it could not be fetched).
pub open spec fn spec_verify_outcome(
    meta: PackageMeta,
    hash: Seq<char>,
    latest: Option<PackageMeta>,
) -> Verify {
    match latest {
        None => Verify::CannotConnect,
        Some(l) => if meta.save_version >= l.save_version {
            if hash == l.hash@ {
                Verify::Valid
            } else {
                Verify::IncorrectHash
            }
        } else {
            Verify::UpdateAvailable
        },
    }
}

/// The SHA-256 digest, in lowercase hexadecimal, of the UTF-8 bytes of the
/// texts `parts` fed one after another.
pub uninterp spec fn sha256_hex(parts: Seq<Seq<char>>) -> Seq<char>;

/// `crypto::sha2::Sha256`: `input_str` of each part in order, then
/// `result_str`. Claimed: the digest is `sha256_hex` of the parts.
#[verifier::external_body]
fn sha256_of(parts: &Vec<String>) -> (h: String)
    ensures
        h@ == sha256_hex(parts@.map_values(|p: String| p@)),
{
    let mut hasher = crypto::sha2::Sha256::new();
    for p in parts.iter() {
        crypto::digest::Digest::input_str(&mut hasher, p);
    }
    crypto::digest::Digest::result_str(&mut hasher)
}

/// The texts of `s`.
pub open spec fn texts(s: Seq<String>) -> Seq<Seq<char>> {
    s.map_values(|p: String| p@)
}

/// The hash that identifies a package's content: the digest of its rules,
/// then each stage, then each fighter, each as the JSON text the caller
/// serialized it to.
pub fn compute_hash(rules_json: &String, stages_json: &Vec<String>, fighters_json: &Vec<String>) -> (h: String)
    ensures
        h@ == sha256_hex(seq![rules_json@] + texts(stages_json@) + texts(fighters_json@)),
{
    let mut parts: Vec<String> = Vec::new();
    parts.push(string_from_chars(&chars_of(rules_json.as_str())));
    let ns = stages_json.len();
    let mut i: usize = 0;
    while i < ns
        invariant
            ns == stages_json@.len(),
            i <= ns,
            parts@.len() == 1 + i,
            parts@[0]@ == rules_json@,
            forall|k: int| 0 <= k < i ==> (#[trigger] parts@[k + 1])@ == stages_json@[k]@,
        decreases ns - i,
    {
        parts.push(string_from_chars(&chars_of(stages_json[i].as_str())));
        i = i + 1;
    }
    let mut j: usize = 0;
    while j < fighters_json.len()
        invariant
            ns == stages_json@.len(),
            j <= fighters_json@.len(),
            parts@.len() == 1 + ns + j,
            parts@[0]@ == rules_json@,
            forall|k: int| 0 <= k < ns ==> (#[trigger] parts@[k + 1])@ == stages_json@[k]@,
            forall|k: int| 0 <= k < j ==> (#[trigger] parts@[k + 1 + ns])@ == fighters_json@[k]@,
        decreases fighters_json@.len() - j,
    {
        parts.push(string_from_chars(&chars_of(fighters_json[j].as_str())));
        j = j + 1;
    }
    let ghost want = seq![rules_json@] + texts(stages_json@) + texts(fighters_json@);
    assert forall|k: int| 0 <= k < parts@.len() implies #[trigger] texts(parts@)[k] == want[k] by {
        if 1 <= k < 1 + ns {
            assert(parts@[(k - 1) + 1]@ == stages_json@[k - 1]@);
        } else if k >= 1 + ns {
            assert(parts@[(k - 1 - ns) + 1 + ns]@ == fighters_json@[k - 1 - ns]@);
        }
    }
    assert(texts(parts@) =~= want);
    sha256_of(&parts)
}

impl PackageMeta {
    /// The metadata of a package that was never saved.
    pub fn new_meta(title: String, source: String) -> (m: PackageMeta)
        ensures
            m.engine_version == 3,
            m.save_version == 0,
            m.title == title,
            m.source == source,
            m.hash@.len() == 0,
    {
        PackageMeta {
            engine_version: crate::json_upgrade::engine_version(),
            save_version: 0,
            title,
            source,
            hash: String::new(),
        }
    }

    /// Checks this package, whose content hashes to `hash`, against the
    /// published metadata `latest` (`None` when it could not be fetched):
    /// a newer published save means an update is available; otherwise the
    /// hashes must agree.
    pub fn verify_against(&self, hash: &str, latest: Option<&PackageMeta>) -> (v: Verify)
        ensures
            v == spec_verify_outcome(
                *self,
                hash@,
                match latest {
                    Some(l) => Some(*l),
                    None => None,
                },
            ),
    {
        match latest {
            None => Verify::CannotConnect,
            Some(l) => {
                if self.save_version >= l.save_version {
                    if crate::text::str_eq(hash, l.hash.as_str()) {
                        Verify::Valid
                    } else {
                        Verify::IncorrectHash
                    }
                } else {
                    Verify::UpdateAvailable
                }
            },
        }
    }

    /// The save version to download when the published metadata `latest`
    /// is newer than this package; `None` when there is nothing newer.
    pub fn update_to(&self, latest: Option<&PackageMeta>) -> (r: Option<u64>)
        ensures
            r == match latest {
                Some(l) => if self.save_version < l.save_version {
                    Some(l.save_version)
                } else {
                    None::<u64>
                },
                None => None::<u64>,
            },
    {
        match latest {
            Some(l) => if self.save_version < l.save_version {
                Some(l.save_version)
            } else {
                None
            },
            None => None,
        }
    }

    /// The address of the published metadata of this package.
    pub fn meta_url(&self) -> (url: String)
        ensures
            url@ == self.source@ + "/package_meta.json"@,
    {
        let mut v = chars_of(self.source.as_str());
        let tail = chars_of("/package_meta.json");
        extend_chars(&mut v, &tail);
        string_from_chars(&v)
    }

    /// The address of the archive of save `version` of this package.
    pub fn archive_url(&self, version: u64) -> (url: String)
        ensures
            url@ == self.source@ + "/package"@ + crate::text::decimal(version as nat)
                + ".zip"@,
    {
        let mut v = chars_of(self.source.as_str());
        let a = chars_of("/package");
        extend_chars(&mut v, &a);
        let d = decimal_chars(version);
        extend_chars(&mut v, &d);
        let z = chars_of(".zip");
        extend_chars(&mut v, &z);
        string_from_chars(&v)
    }
}

/// When the packages directory does not exist yet, the metadata of the
/// example package to create in it; otherwise nothing, since the user may
/// have deleted the example on purpose.
pub fn generate_example_stub(packages_dir_exists: bool) -> (r: Option<PackageMeta>)
    ensures
        r is Some <==> !packages_dir_exists,
        r matches Some(m) ==> {
            &&& m.engine_version == 3
            &&& m.save_version == 0
            &&& m.title@ == "Example Package"@
            &&& m.source@ == "lucaskent.me/example_package"@
            &&& m.hash@.len() == 0
        },
{
    if packages_dir_exists {
        None
    } else {
        let title = string_from_chars(&chars_of("Example Package"));
        let source = string_from_chars(&chars_of("lucaskent.me/example_package"));
        Some(PackageMeta::new_meta(title, source))
    }
}

/// A frame as a value: its boxes, links, draw order and flags.
pub struct FrameView<C> {
    pub colboxes: Seq<C>,
    pub colbox_links: Seq<CollisionBoxLink>,
    pub render_order: Seq<RenderOrder>,
    pub pass_through: bool,
    pub ledge_cancel: bool,
    pub use_platform_angle: bool,
    pub force_hitlist_reset: bool,
}

impl<C> View for ActionFrame<C> {
    type V = FrameView<C>;

    open spec fn view(&self) -> FrameView<C> {
        FrameView {
            colboxes: self.colboxes@,
            colbox_links: self.colbox_links@,
            render_order: self.render_order@,
            pass_through: self.pass_through,
            ledge_cancel: self.ledge_cancel,
            use_platform_angle: self.use_platform_angle,
            force_hitlist_reset: self.force_hitlist_reset,
        }
    }
}

fn copy_vec<T: Copy>(v: &Vec<T>) -> (r: Vec<T>)
    ensures
        r@ == v@,
{
    let mut r: Vec<T> = Vec::new();
    let mut i: usize = 0;
    while i < v.len()
        invariant
            i <= v.len(),
            r@ == v@.take(i as int),
        decreases v.len() - i,
    {
        r.push(v[i]);
        i = i + 1;
        proof {
            assert(r@ =~= v@.take(i as int));
        }
    }
    assert(r@ =~= v@);
    r
}

impl<C: Copy> ActionFrame<C> {
    /// An independent copy of this frame.
    pub fn copy_frame(&self) -> (r: ActionFrame<C>)
        ensures
            r@ == self@,
    {
        ActionFrame {
            colboxes: copy_vec(&self.colboxes),
            colbox_links: copy_vec(&self.colbox_links),
            render_order: copy_vec(&self.render_order),
            pass_through: self.pass_through,
            ledge_cancel: self.ledge_cancel,
            use_platform_angle: self.use_platform_angle,
            force_hitlist_reset: self.force_hitlist_reset,
        }
    }
}

/// The frames of one of a fighter's actions.
pub struct ActionDef<C> {
    pub frames: Vec<ActionFrame<C>>,
    /// The frame from which the action can be interrupted.
    pub iasa: u64,
}

/// An action's frames as values.
pub struct ActionView<C> {
    pub frames: Seq<FrameView<C>>,
    pub iasa: u64,
}

impl<C> View for ActionDef<C> {
    type V = ActionView<C>;

    open spec fn view(&self) -> ActionView<C> {
        ActionView { frames: self.frames@.map_values(|f: ActionFrame<C>| f@), iasa: self.iasa }
    }
}

/// The part of a fighter that the editor changes: its actions, in the
/// order of `Action`.
pub struct Fighter<C> {
    pub actions: Vec<ActionDef<C>>,
}

impl<C> View for Fighter<C> {
    type V = Seq<ActionView<C>>;

    open spec fn view(&self) -> Seq<ActionView<C>> {
        self.actions@.map_values(|a: ActionDef<C>| a@)
    }
}

/// Whether a new fighter's first frame of action `a` keeps the fighter
/// from passing through platforms: true for being hit, air dodging and the
/// aerial attacks.
pub open spec fn spec_default_blocks_pass_through(a: Action) -> bool {
    ||| a == Action::Damage
    ||| a == Action::DamageFly
    ||| a == Action::DamageFall
    ||| a == Action::AerialDodge
    ||| a == Action::Uair
    ||| a == Action::Dair
    ||| a == Action::Fair
    ||| a == Action::Bair
    ||| a == Action::Nair
}

/// Whether a new fighter's first frame of action `a` keeps it from being
/// cancelled by falling off a ledge: true for teetering, rolls, techs,
/// getups and the spot dodge.
pub open spec fn spec_default_blocks_ledge_cancel(a: Action) -> bool {
    ||| a == Action::Teeter
    ||| a == Action::TeeterIdle
    ||| a == Action::RollB
    ||| a == Action::RollF
    ||| a == Action::TechB
    ||| a == Action::TechF
    ||| a == Action::MissedTechGetupB
    ||| a == Action::MissedTechGetupF
    ||| a == Action::SpotDodge
}

/// Whether a new fighter's first frame of action `a` follows the angle of
/// the platform it stands on.
pub open spec fn spec_default_uses_platform_angle(a: Action) -> bool {
    ||| a == Action::Dsmash
    ||| a == Action::Fsmash
    ||| a == Action::Dtilt
    ||| a == Action::MissedTechIdle
}

/// The single empty frame that a new fighter has for action `a`.
pub open spec fn default_frame_view<C>(a: Action) -> FrameView<C> {
    FrameView {
        colboxes: seq![],
        colbox_links: seq![],
        render_order: seq![],
        pass_through: !spec_default_blocks_pass_through(a),
        ledge_cancel: !spec_default_blocks_ledge_cancel(a),
        use_platform_angle: spec_default_uses_platform_angle(a),
        force_hitlist_reset: false,
    }
}

/// Action `a` of a new fighter.
pub open spec fn default_action_view<C>(a: Action) -> ActionView<C> {
    ActionView { frames: seq![default_frame_view(a)], iasa: 0 }
}

fn default_action_def<C>(a: Action) -> (d: ActionDef<C>)
    ensures
        d@ == default_action_view::<C>(a),
{
    let mut frame: ActionFrame<C> = ActionFrame::default_frame();
    frame.pass_through = match a {
        Action::Damage | Action::DamageFly | Action::DamageFall | Action::AerialDodge
        | Action::Uair | Action::Dair | Action::Fair | Action::Bair | Action::Nair => false,
        _ => true,
    };
    frame.ledge_cancel = match a {
        Action::Teeter | Action::TeeterIdle | Action::RollB | Action::RollF | Action::TechB
        | Action::TechF | Action::MissedTechGetupB | Action::MissedTechGetupF
        | Action::SpotDodge => false,
        _ => true,
    };
    frame.use_platform_angle = match a {
        Action::Dsmash | Action::Fsmash | Action::Dtilt | Action::MissedTechIdle => true,
        _ => false,
    };
    assert(frame.colboxes@ =~= Seq::<C>::empty());
    assert(frame.colbox_links@ =~= Seq::<CollisionBoxLink>::empty());
    assert(frame.render_order@ =~= Seq::<RenderOrder>::empty());
    assert(frame@ == default_frame_view::<C>(a));
    let frames = vec![frame];
    let d = ActionDef { frames, iasa: 0 };
    assert(d@.frames =~= seq![default_frame_view::<C>(a)]);
    d
}

impl<C> Fighter<C> {
    /// A new fighter: one empty frame for every action, in the order of
    /// `Action`.
    pub fn default_fighter() -> (f: Fighter<C>)
        ensures
            f@ == crate::action::action_list().map_values(|a: Action| default_action_view::<C>(a)),
    {
        let all = crate::action::all_actions();
        let mut actions: Vec<ActionDef<C>> = Vec::new();
        let mut i: usize = 0;
        while i < all.len()
            invariant
                i <= all.len(),
                all@ == crate::action::action_list(),
                actions@.map_values(|d: ActionDef<C>| d@) == all@.take(i as int).map_values(
                    |a: Action| default_action_view::<C>(a),
                ),
            decreases all.len() - i,
        {
            let d = default_action_def(all[i]);
            let ghost prev = actions@;
            let ghost dv = d@;
            actions.push(d);
            i = i + 1;
            proof {
                assert(all@.take(i as int) =~= all@.take(i - 1).push(all@[i - 1]));
                assert(actions@.map_values(|d: ActionDef<C>| d@) =~= prev.map_values(
                    |d: ActionDef<C>| d@,
                ).push(dv));
                assert(all@.take(i as int).map_values(|a: Action| default_action_view::<C>(a))
                    =~= all@.take(i - 1).map_values(|a: Action| default_action_view::<C>(a)).push(
                    default_action_view::<C>(all@[i - 1]),
                ));
                assert(actions@.map_values(|d: ActionDef<C>| d@) =~= all@.take(i as int).map_values(
                    |a: Action| default_action_view::<C>(a),
                ));
            }
        }
        assert(all@.take(all@.len() as int) =~= all@);
        Fighter { actions }
    }
}

/// A change to a package that the running game applies to its copy.
pub enum PackageUpdate<C> {
    DeleteFighterFrame { fighter: usize, action: usize, frame_index: usize },
    InsertFighterFrame { fighter: usize, action: usize, frame_index: usize, frame: ActionFrame<C> },
}

/// A package update as a value.
pub enum UpdateView<C> {
    DeleteFighterFrame { fighter: usize, action: usize, frame_index: usize },
    InsertFighterFrame { fighter: usize, action: usize, frame_index: usize, frame: FrameView<C> },
}

impl<C> View for PackageUpdate<C> {
    type V = UpdateView<C>;

    open spec fn view(&self) -> UpdateView<C> {
        match self {
            PackageUpdate::DeleteFighterFrame { fighter, action, frame_index } => {
                UpdateView::DeleteFighterFrame {
                    fighter: *fighter,
                    action: *action,
                    frame_index: *frame_index,
                }
            },
            PackageUpdate::InsertFighterFrame { fighter, action, frame_index, frame } => {
                UpdateView::InsertFighterFrame {
                    fighter: *fighter,
                    action: *action,
                    frame_index: *frame_index,
                    frame: frame@,
                }
            },
        }
    }
}

/// The fighters of `fv` with the frames of action `a` of fighter `f`
/// replaced by `frames`.
pub open spec fn with_frames<C>(
    fv: Seq<Seq<ActionView<C>>>,
    f: int,
    a: int,
    frames: Seq<FrameView<C>>,
) -> Seq<Seq<ActionView<C>>> {
    fv.update(f, fv[f].update(a, ActionView { frames, iasa: fv[f][a].iasa }))
}

/// The updates that tell the game that frame `fr` of action `a` of fighter
/// `f` now is `frame`.
pub open spec fn replaced_updates<C>(f: usize, a: usize, fr: usize, frame: FrameView<C>) -> Seq<
    UpdateView<C>,
> {
    seq![
        UpdateView::DeleteFighterFrame { fighter: f, action: a, frame_index: fr },
        UpdateView::InsertFighterFrame { fighter: f, action: a, frame_index: fr, frame },
    ]
}

/// The updates recorded for the game, oldest first.
pub struct UpdateLog<C> {
    updates: Vec<PackageUpdate<C>>,
}

impl<C> View for UpdateLog<C> {
    type V = Seq<UpdateView<C>>;

    closed spec fn view(&self) -> Seq<UpdateView<C>> {
        self.updates@.map_values(|u: PackageUpdate<C>| u@)
    }
}

impl<C> UpdateLog<C> {
    /// A log with nothing recorded.
    pub fn new() -> (l: UpdateLog<C>)
        ensures
            l@.len() == 0,
    {
        let l = UpdateLog { updates: Vec::new() };
        assert(l@ =~= Seq::<UpdateView<C>>::empty());
        l
    }

    fn record(&mut self, u: PackageUpdate<C>)
        ensures
            final(self)@ == old(self)@.push(u@),
    {
        self.updates.push(u);
        assert(self@ =~= old(self)@.push(u@));
    }

    /// Hands the recorded updates to the caller, oldest first, and forgets them.
    pub fn take(&mut self) -> (r: Vec<PackageUpdate<C>>)
        ensures
            r@.map_values(|u: PackageUpdate<C>| u@) == old(self)@,
            final(self)@.len() == 0,
    {
        let mut r: Vec<PackageUpdate<C>> = Vec::new();
        std::mem::swap(&mut r, &mut self.updates);
        assert(self@ =~= Seq::<UpdateView<C>>::empty());
        r
    }
}

/// A package: its metadata, its fighters, and the updates the game has not
/// taken yet.
pub struct Package<C> {
    pub meta: PackageMeta,
    pub fighters: Vec<Fighter<C>>,
    pub package_updates: UpdateLog<C>,
}

impl<C> Package<C> {
    /// Every fighter's actions as values.
    pub open spec fn fighters_view(&self) -> Seq<Seq<ActionView<C>>> {
        self.fighters@.map_values(|f: Fighter<C>| f@)
    }

    /// Whether action `a` of fighter `f` exists.
    pub open spec fn has_action(&self, f: int, a: int) -> bool {
        &&& 0 <= f < self.fighters_view().len()
        &&& 0 <= a < self.fighters_view()[f].len()
    }

    /// Whether frame `fr` of action `a` of fighter `f` exists.
    pub open spec fn has_frame(&self, f: int, a: int, fr: int) -> bool {
        &&& self.has_action(f, a)
        &&& 0 <= fr < self.fighters_view()[f][a].frames.len()
    }

    /// Frame `fr` of action `a` of fighter `f`.
    pub open spec fn frame_at(&self, f: int, a: int, fr: int) -> FrameView<C> {
        self.fighters_view()[f][a].frames[fr]
    }

    /// A package with nothing recorded yet.
    pub fn new(meta: PackageMeta, fighters: Vec<Fighter<C>>) -> (p: Package<C>)
        ensures
            p.meta == meta,
            p.fighters == fighters,
            p.package_updates@.len() == 0,
    {
        Package { meta, fighters, package_updates: UpdateLog::new() }
    }

    /// Hands the recorded updates to the caller, oldest first, and forgets them.
    pub fn updates(&mut self) -> (r: Vec<PackageUpdate<C>>)
        ensures
            r@.map_values(|u: PackageUpdate<C>| u@) == old(self).package_updates@,
            final(self).package_updates@.len() == 0,
            final(self).meta == old(self).meta,
            final(self).fighters == old(self).fighters,
    {
        self.package_updates.take()
    }
}

/// `fv` after deleting the boxes in `set` (see `ActionFrame::delete_colboxes`).
pub open spec fn deleted_view<C>(fv: FrameView<C>, set: Set<usize>) -> FrameView<C> {
    let nb = fv.colboxes.len() as int;
    FrameView {
        colboxes: crate::frame_edit::kept_boxes(fv.colboxes, set, nb),
        colbox_links: crate::frame_edit::kept_links(
            fv.colbox_links,
            set,
            nb,
            fv.colbox_links.len() as int,
        ),
        render_order: crate::frame_edit::kept_order(
            fv.render_order,
            fv.colbox_links,
            set,
            nb,
            fv.render_order.len() as int,
        ),
        ..fv
    }
}

/// `fv` after appending `c` linked to the boxes of `s`, in that order (see
/// `ActionFrame::append_colbox`).
pub open spec fn appended_view<C>(fv: FrameView<C>, c: C, s: Seq<usize>, link_type: LinkType) -> FrameView<C> {
    let nb = fv.colboxes.len() as usize;
    FrameView {
        colboxes: fv.colboxes.push(c),
        colbox_links: fv.colbox_links + crate::frame_edit::appended_links(s, nb, link_type),
        render_order: fv.render_order + crate::frame_edit::appended_order(
            s.len(),
            fv.colbox_links.len(),
            nb,
        ),
        ..fv
    }
}

/// `fv` with the boxes of `s` sent to the back one after another.
pub open spec fn sent_back_view<C>(fv: FrameView<C>, s: Seq<usize>) -> FrameView<C> {
    FrameView {
        render_order: crate::frame_edit::send_back_all(fv.render_order, fv.colbox_links, s),
        ..fv
    }
}

/// `fv` with the boxes of `s` sent to the front one after another.
pub open spec fn sent_front_view<C>(fv: FrameView<C>, s: Seq<usize>) -> FrameView<C> {
    FrameView {
        render_order: crate::frame_edit::send_front_all(fv.render_order, fv.colbox_links, s),
        ..fv
    }
}

proof fn lemma_frames_replaced<C>(
    old_f: Seq<Fighter<C>>,
    new_f: Seq<Fighter<C>>,
    f: int,
    a: int,
)
    requires
        0 <= f < old_f.len(),
        0 <= a < old_f[f].actions@.len(),
        new_f == old_f.update(f, new_f[f]),
        new_f[f].actions@ == old_f[f].actions@.update(a, new_f[f].actions@[a]),
        new_f[f].actions@[a].iasa == old_f[f].actions@[a].iasa,
    ensures
        new_f.map_values(|x: Fighter<C>| x@) == with_frames(
            old_f.map_values(|x: Fighter<C>| x@),
            f,
            a,
            new_f[f].actions@[a].frames@.map_values(|x: ActionFrame<C>| x@),
        ),
{
    let ov = old_f.map_values(|x: Fighter<C>| x@);
    let nv = new_f.map_values(|x: Fighter<C>| x@);
    let frames = new_f[f].actions@[a].frames@.map_values(|x: ActionFrame<C>| x@);
    assert(nv[f] =~= ov[f].update(a, ActionView { frames, iasa: ov[f][a].iasa }));
    assert(nv =~= with_frames(ov, f, a, frames));
}

impl<C: Copy> Package<C> {
    /// Inserts `action_frame` as frame `frame` of action `action` of fighter
    /// `fighter`, moving the later frames back, and records the insertion.
    pub fn insert_fighter_frame(
        &mut self,
        fighter: usize,
        action: usize,
        frame: usize,
        action_frame: ActionFrame<C>,
    )
        requires
            old(self).has_action(fighter as int, action as int),
            frame <= old(self).fighters_view()[fighter as int][action as int].frames.len(),
        ensures
            final(self).fighters_view() == with_frames(
                old(self).fighters_view(),
                fighter as int,
                action as int,
                old(self).fighters_view()[fighter as int][action as int].frames.insert(
                    frame as int,
                    action_frame@,
                ),
            ),
            final(self).meta == old(self).meta,
            final(self).package_updates@ == old(self).package_updates@.push(
                UpdateView::InsertFighterFrame {
                    fighter,
                    action,
                    frame_index: frame,
                    frame: action_frame@,
                },
            ),
    {
        let ghost old_f = self.fighters@;
        let copy = action_frame.copy_frame();
        self.fighters[fighter].actions[action].frames.insert(frame, copy);
        proof {
            lemma_frames_replaced(old_f, self.fighters@, fighter as int, action as int);
            let nf = self.fighters@[fighter as int].actions@[action as int].frames@;
            let of = old_f[fighter as int].actions@[action as int].frames@;
            assert(nf.map_values(|x: ActionFrame<C>| x@) =~= of.map_values(
                |x: ActionFrame<C>| x@,
            ).insert(frame as int, action_frame@));
        }
        self.package_updates.record(
            PackageUpdate::InsertFighterFrame { fighter, action, frame_index: frame, frame: action_frame },
        );
    }

    /// Duplicates frame `frame` of action `action` of fighter `fighter`; the
    /// copy goes in front of it.
    pub fn new_fighter_frame(&mut self, fighter: usize, action: usize, frame: usize)
        requires
            old(self).has_frame(fighter as int, action as int, frame as int),
        ensures
            final(self).fighters_view() == with_frames(
                old(self).fighters_view(),
                fighter as int,
                action as int,
                old(self).fighters_view()[fighter as int][action as int].frames.insert(
                    frame as int,
                    old(self).frame_at(fighter as int, action as int, frame as int),
                ),
            ),
            final(self).meta == old(self).meta,
            final(self).package_updates@ == old(self).package_updates@.push(
                UpdateView::InsertFighterFrame {
                    fighter,
                    action,
                    frame_index: frame,
                    frame: old(self).frame_at(fighter as int, action as int, frame as int),
                },
            ),
    {
        let new_frame = self.fighters[fighter].actions[action].frames[frame].copy_frame();
        self.insert_fighter_frame(fighter, action, frame, new_frame);
    }

    /// Deletes frame `frame` of action `action` of fighter `fighter` unless it
    /// is the action's only frame; returns whether it was deleted.
    pub fn delete_fighter_frame(&mut self, fighter: usize, action: usize, frame: usize) -> (r: bool)
        requires
            old(self).has_action(fighter as int, action as int),
            old(self).fighters_view()[fighter as int][action as int].frames.len() > 1 ==> frame
                < old(self).fighters_view()[fighter as int][action as int].frames.len(),
        ensures
            r == (old(self).fighters_view()[fighter as int][action as int].frames.len() > 1),
            r ==> final(self).fighters_view() == with_frames(
                old(self).fighters_view(),
                fighter as int,
                action as int,
                old(self).fighters_view()[fighter as int][action as int].frames.remove(
                    frame as int,
                ),
            ),
            r ==> final(self).package_updates@ == old(self).package_updates@.push(
                UpdateView::DeleteFighterFrame { fighter, action, frame_index: frame },
            ),
            !r ==> final(self).fighters_view() == old(self).fighters_view(),
            !r ==> final(self).package_updates@ == old(self).package_updates@,
            final(self).meta == old(self).meta,
    {
        let ghost old_f = self.fighters@;
        if self.fighters[fighter].actions[action].frames.len() > 1 {
            let _removed = self.fighters[fighter].actions[action].frames.remove(frame);
            proof {
                lemma_frames_replaced(old_f, self.fighters@, fighter as int, action as int);
                let nf = self.fighters@[fighter as int].actions@[action as int].frames@;
                let of = old_f[fighter as int].actions@[action as int].frames@;
                assert(nf.map_values(|x: ActionFrame<C>| x@) =~= of.map_values(
                    |x: ActionFrame<C>| x@,
                ).remove(frame as int));
            }
            self.package_updates.record(
                PackageUpdate::DeleteFighterFrame { fighter, action, frame_index: frame },
            );
            true
        } else {
            false
        }
    }

    /// Deletes the boxes in `colboxes_to_delete` from frame `frame` of action
    /// `action` of fighter `fighter`, with the links and draw order entries
    /// that refer to them, and records the changed frame.
    pub fn delete_fighter_colboxes(
        &mut self,
        fighter: usize,
        action: usize,
        frame: usize,
        colboxes_to_delete: &HashSet<usize>,
    )
        requires
            old(self).has_frame(fighter as int, action as int, frame as int),
            forall|d: usize|
                colboxes_to_delete@.contains(d) ==> d < old(self).frame_at(
                    fighter as int,
                    action as int,
                    frame as int,
                ).colboxes.len(),
        ensures
            final(self).fighters_view() == with_frames(
                old(self).fighters_view(),
                fighter as int,
                action as int,
                old(self).fighters_view()[fighter as int][action as int].frames.update(
                    frame as int,
                    deleted_view(
                        old(self).frame_at(fighter as int, action as int, frame as int),
                        colboxes_to_delete@,
                    ),
                ),
            ),
            final(self).meta == old(self).meta,
            final(self).package_updates@ == old(self).package_updates@ + replaced_updates(
                fighter,
                action,
                frame,
                deleted_view(
                    old(self).frame_at(fighter as int, action as int, frame as int),
                    colboxes_to_delete@,
                ),
            ),
    {
        let ghost old_f = self.fighters@;
        let ghost new_view = deleted_view(
            self.frame_at(fighter as int, action as int, frame as int),
            colboxes_to_delete@,
        );
        self.fighters[fighter].actions[action].frames[frame].delete_colboxes(colboxes_to_delete);
        proof {
            lemma_frames_replaced(old_f, self.fighters@, fighter as int, action as int);
            let nf = self.fighters@[fighter as int].actions@[action as int].frames@;
            let of = old_f[fighter as int].actions@[action as int].frames@;
            assert(nf.map_values(|x: ActionFrame<C>| x@) =~= of.map_values(
                |x: ActionFrame<C>| x@,
            ).update(frame as int, new_view));
        }
        self.fighter_frame_changed(fighter, action, frame);
    }

    /// Adds `new_colbox` to frame `frame` of action `action` of fighter
    /// `fighter`, linked to the boxes of `link_to`, records the changed frame
    /// and returns the index of the new box.
    pub fn append_fighter_colbox(
        &mut self,
        fighter: usize,
        action: usize,
        frame: usize,
        new_colbox: C,
        link_to: &HashSet<usize>,
        link_type: LinkType,
    ) -> (r: usize)
        requires
            old(self).has_frame(fighter as int, action as int, frame as int),
            old(self).frame_at(fighter as int, action as int, frame as int).colbox_links.len()
                + link_to@.len() <= usize::MAX,
        ensures
            r == old(self).frame_at(fighter as int, action as int, frame as int).colboxes.len(),
            exists|s: Seq<usize>|
                #![trigger appended_view(old(self).frame_at(fighter as int, action as int, frame as int), new_colbox, s, link_type)]
                {
                    &&& s.no_duplicates()
                    &&& s.to_set() == link_to@
                    &&& final(self).fighters_view() == with_frames(
                        old(self).fighters_view(),
                        fighter as int,
                        action as int,
                        old(self).fighters_view()[fighter as int][action as int].frames.update(
                            frame as int,
                            appended_view(
                                old(self).frame_at(fighter as int, action as int, frame as int),
                                new_colbox,
                                s,
                                link_type,
                            ),
                        ),
                    )
                    &&& final(self).package_updates@ == old(self).package_updates@
                        + replaced_updates(
                        fighter,
                        action,
                        frame,
                        appended_view(
                            old(self).frame_at(fighter as int, action as int, frame as int),
                            new_colbox,
                            s,
                            link_type,
                        ),
                    )
                },
            final(self).meta == old(self).meta,
    {
        let ghost old_f = self.fighters@;
        let ghost fv = self.frame_at(fighter as int, action as int, frame as int);
        let r = self.fighters[fighter].actions[action].frames[frame].append_colbox(
            new_colbox,
            link_to,
            link_type,
        );
        let ghost s = choose|s: Seq<usize>|
            #![trigger crate::frame_edit::appended_links(s, r, link_type)]
            s.no_duplicates() && s.to_set() == link_to@
                && self.fighters@[fighter as int].actions@[action as int].frames@[frame as int].colbox_links@
                == fv.colbox_links + crate::frame_edit::appended_links(s, r, link_type);
        proof {
            lemma_frames_replaced(old_f, self.fighters@, fighter as int, action as int);
            let nf = self.fighters@[fighter as int].actions@[action as int].frames@;
            let of = old_f[fighter as int].actions@[action as int].frames@;
            s.unique_seq_to_set();
            assert(nf[frame as int]@ == appended_view(fv, new_colbox, s, link_type));
            assert(nf.map_values(|x: ActionFrame<C>| x@) =~= of.map_values(
                |x: ActionFrame<C>| x@,
            ).update(frame as int, appended_view(fv, new_colbox, s, link_type)));
        }
        self.fighter_frame_changed(fighter, action, frame);
        r
    }

    /// Sends the boxes of `reordered_colboxes` in frame `frame` of action
    /// `action` of fighter `fighter` to the back of the draw order (see
    /// `ActionFrame::colboxes_send_to_back`) and records the changed frame.
    pub fn fighter_colboxes_send_to_back(
        &mut self,
        fighter: usize,
        action: usize,
        frame: usize,
        reordered_colboxes: &HashSet<usize>,
    )
        requires
            old(self).has_frame(fighter as int, action as int, frame as int),
            crate::frame_edit::link_entries_wf(
                old(self).frame_at(fighter as int, action as int, frame as int).render_order,
                old(self).frame_at(fighter as int, action as int, frame as int).colbox_links.len(),
            ),
        ensures
            exists|s: Seq<usize>|
                #![trigger sent_back_view(old(self).frame_at(fighter as int, action as int, frame as int), s)]
                {
                    &&& s.no_duplicates()
                    &&& s.to_set() == reordered_colboxes@
                    &&& final(self).fighters_view() == with_frames(
                        old(self).fighters_view(),
                        fighter as int,
                        action as int,
                        old(self).fighters_view()[fighter as int][action as int].frames.update(
                            frame as int,
                            sent_back_view(
                                old(self).frame_at(fighter as int, action as int, frame as int),
                                s,
                            ),
                        ),
                    )
                    &&& final(self).package_updates@ == old(self).package_updates@
                        + replaced_updates(
                        fighter,
                        action,
                        frame,
                        sent_back_view(
                            old(self).frame_at(fighter as int, action as int, frame as int),
                            s,
                        ),
                    )
                },
            final(self).meta == old(self).meta,
    {
        let ghost old_f = self.fighters@;
        let ghost fv = self.frame_at(fighter as int, action as int, frame as int);
        self.fighters[fighter].actions[action].frames[frame].colboxes_send_to_back(
            reordered_colboxes,
        );
        let ghost s = choose|s: Seq<usize>|
            #![trigger crate::frame_edit::send_back_all(fv.render_order, fv.colbox_links, s)]
            s.no_duplicates() && s.to_set() == reordered_colboxes@
                && self.fighters@[fighter as int].actions@[action as int].frames@[frame as int].render_order@
                == crate::frame_edit::send_back_all(fv.render_order, fv.colbox_links, s);
        proof {
            lemma_frames_replaced(old_f, self.fighters@, fighter as int, action as int);
            let nf = self.fighters@[fighter as int].actions@[action as int].frames@;
            let of = old_f[fighter as int].actions@[action as int].frames@;
            assert(nf[frame as int]@ == sent_back_view(fv, s));
            assert(nf.map_values(|x: ActionFrame<C>| x@) =~= of.map_values(
                |x: ActionFrame<C>| x@,
            ).update(frame as int, sent_back_view(fv, s)));
        }
        self.fighter_frame_changed(fighter, action, frame);
    }

    /// Sends the boxes of `reordered_colboxes` in frame `frame` of action
    /// `action` of fighter `fighter` to the front of the draw order (see
    /// `ActionFrame::colboxes_send_to_front`) and records the changed frame.
    pub fn fighter_colboxes_send_to_front(
        &mut self,
        fighter: usize,
        action: usize,
        frame: usize,
        reordered_colboxes: &HashSet<usize>,
    )
        requires
            old(self).has_frame(fighter as int, action as int, frame as int),
            crate::frame_edit::link_entries_wf(
                old(self).frame_at(fighter as int, action as int, frame as int).render_order,
                old(self).frame_at(fighter as int, action as int, frame as int).colbox_links.len(),
            ),
        ensures
            exists|s: Seq<usize>|
                #![trigger sent_front_view(old(self).frame_at(fighter as int, action as int, frame as int), s)]
                {
                    &&& s.no_duplicates()
                    &&& s.to_set() == reordered_colboxes@
                    &&& final(self).fighters_view() == with_frames(
                        old(self).fighters_view(),
                        fighter as int,
                        action as int,
                        old(self).fighters_view()[fighter as int][action as int].frames.update(
                            frame as int,
                            sent_front_view(
                                old(self).frame_at(fighter as int, action as int, frame as int),
                                s,
                            ),
                        ),
                    )
                    &&& final(self).package_updates@ == old(self).package_updates@
                        + replaced_updates(
                        fighter,
                        action,
                        frame,
                        sent_front_view(
                            old(self).frame_at(fighter as int, action as int, frame as int),
                            s,
                        ),
                    )
                },
            final(self).meta == old(self).meta,
    {
        let ghost old_f = self.fighters@;
        let ghost fv = self.frame_at(fighter as int, action as int, frame as int);
        self.fighters[fighter].actions[action].frames[frame].colboxes_send_to_front(
            reordered_colboxes,
        );
        let ghost s = choose|s: Seq<usize>|
            #![trigger crate::frame_edit::send_front_all(fv.render_order, fv.colbox_links, s)]
            s.no_duplicates() && s.to_set() == reordered_colboxes@
                && self.fighters@[fighter as int].actions@[action as int].frames@[frame as int].render_order@
                == crate::frame_edit::send_front_all(fv.render_order, fv.colbox_links, s);
        proof {
            lemma_frames_replaced(old_f, self.fighters@, fighter as int, action as int);
            let nf = self.fighters@[fighter as int].actions@[action as int].frames@;
            let of = old_f[fighter as int].actions@[action as int].frames@;
            assert(nf[frame as int]@ == sent_front_view(fv, s));
            assert(nf.map_values(|x: ActionFrame<C>| x@) =~= of.map_values(
                |x: ActionFrame<C>| x@,
            ).update(frame as int, sent_front_view(fv, s)));
        }
        self.fighter_frame_changed(fighter, action, frame);
    }

    /// Records that frame `frame` of action `action` of fighter `fighter` was
    /// changed in place, so that the game replaces its copy of the frame.
    pub fn fighter_frame_changed(&mut self, fighter: usize, action: usize, frame: usize)
        requires
            old(self).has_frame(fighter as int, action as int, frame as int),
        ensures
            final(self).fighters == old(self).fighters,
            final(self).meta == old(self).meta,
            final(self).package_updates@ == old(self).package_updates@ + replaced_updates(
                fighter,
                action,
                frame,
                old(self).frame_at(fighter as int, action as int, frame as int),
            ),
    {
        let copy = self.fighters[fighter].actions[action].frames[frame].copy_frame();
        self.package_updates.record(
            PackageUpdate::DeleteFighterFrame { fighter, action, frame_index: frame },
        );
        self.package_updates.record(
            PackageUpdate::InsertFighterFrame { fighter, action, frame_index: frame, frame: copy },
        );
        assert(self.package_updates@ =~= old(self).package_updates@ + replaced_updates(
            fighter,
            action,
            frame,
            old(self).frame_at(fighter as int, action as int, frame as int),
        ));
    }
}

/// Deleting a frame that was just inserted gives back the fighters as they
/// were before the insertion. The deletion is carried out because the action
/// then has at least two frames, when it had at least one before.
pub proof fn law_delete_frame_undoes_insert<C>(
    fv: Seq<Seq<ActionView<C>>>,
    f: int,
    a: int,
    i: int,
    frame: FrameView<C>,
)
    requires
        0 <= f < fv.len(),
        0 <= a < fv[f].len(),
        0 <= i <= fv[f][a].frames.len(),
        fv[f][a].frames.len() >= 1,
    ensures
        ({
            let ins = with_frames(fv, f, a, fv[f][a].frames.insert(i, frame));
            &&& ins[f][a].frames.len() > 1
            &&& with_frames(ins, f, a, ins[f][a].frames.remove(i)) == fv
        }),
{
    let frames = fv[f][a].frames;
    let ins = with_frames(fv, f, a, frames.insert(i, frame));
    assert(ins[f][a].frames == frames.insert(i, frame));
    assert(frames.insert(i, frame).remove(i) =~= frames);
    let back = with_frames(ins, f, a, ins[f][a].frames.remove(i));
    assert(back[f][a] == fv[f][a]);
    assert(back[f] =~= fv[f]);
    assert(back =~= fv);
}

} // verus!
