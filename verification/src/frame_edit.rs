//! Editing operations on the collision boxes of a frame.

use vstd::prelude::*;
use std::collections::HashSet;
use crate::fighter::{CollisionBoxLink, RenderOrder, LinkType};
use crate::frame::{links_wf, order_wf, ActionFrame};

verus! {

broadcast use vstd::std_specs::hash::group_hash_axioms;

/// How many of the indexes below `i` (and below `n`) are in `set`.
pub open spec fn count_below(set: Set<usize>, i: int, n: int) -> int
    decreases i,
{
    if i <= 0 {
        0
    } else {
        count_below(set, i - 1, n) + if i - 1 < n && set.contains((i - 1) as usize) {
            1int
        } else {
            0int
        }
    }
}

/// Whether a link touches a box of `set`.
pub open spec fn link_deleted(link: CollisionBoxLink, set: Set<usize>) -> bool {
    set.contains(link.one) || set.contains(link.two)
}

/// How many of the links below `l` touch a box of `set`.
pub open spec fn deleted_links_below(links: Seq<CollisionBoxLink>, set: Set<usize>, l: int) -> int
    decreases l,
{
    if l <= 0 {
        0
    } else {
        deleted_links_below(links, set, l - 1) + if l - 1 < links.len() && link_deleted(
            links[l - 1],
            set,
        ) {
            1int
        } else {
            0int
        }
    }
}

/// The boxes that survive deleting `set`, in their old order.
pub open spec fn kept_boxes<C>(boxes: Seq<C>, set: Set<usize>, n: int) -> Seq<C>
    decreases n,
{
    if n <= 0 {
        seq![]
    } else {
        let p = kept_boxes(boxes, set, n - 1);
        if set.contains((n - 1) as usize) {
            p
        } else {
            p.push(boxes[n - 1])
        }
    }
}

/// The new index of a surviving box `i`.
pub open spec fn new_box_index(set: Set<usize>, nb: int, i: usize) -> usize {
    (i - count_below(set, i as int, nb)) as usize
}

/// The links that survive deleting `set`, renumbered to the new box indexes.
pub open spec fn kept_links(links: Seq<CollisionBoxLink>, set: Set<usize>, nb: int, n: int) -> Seq<
    CollisionBoxLink,
>
    decreases n,
{
    if n <= 0 {
        seq![]
    } else {
        let p = kept_links(links, set, nb, n - 1);
        let link = links[n - 1];
        if link_deleted(link, set) {
            p
        } else {
            p.push(
                CollisionBoxLink {
                    one: new_box_index(set, nb, link.one),
                    two: new_box_index(set, nb, link.two),
                    link_type: link.link_type,
                },
            )
        }
    }
}

/// The draw order after deleting `set`: entries of deleted boxes and of
/// deleted links are dropped, the others renumbered.
pub open spec fn kept_order(
    order: Seq<RenderOrder>,
    links: Seq<CollisionBoxLink>,
    set: Set<usize>,
    nb: int,
    n: int,
) -> Seq<RenderOrder>
    decreases n,
{
    if n <= 0 {
        seq![]
    } else {
        let p = kept_order(order, links, set, nb, n - 1);
        match order[n - 1] {
            RenderOrder::Colbox(i) => if set.contains(i) {
                p
            } else {
                p.push(RenderOrder::Colbox(new_box_index(set, nb, i)))
            },
            RenderOrder::Link(l) => if l < links.len() && link_deleted(links[l as int], set) {
                p
            } else {
                p.push(
                    RenderOrder::Link((l - deleted_links_below(links, set, l as int)) as usize),
                )
            },
        }
    }
}

/// The links that connect each box of `s`, in order, to the new box `new_box`.
pub open spec fn appended_links(s: Seq<usize>, new_box: usize, link_type: LinkType) -> Seq<
    CollisionBoxLink,
> {
    s.map_values(|x: usize| CollisionBoxLink { one: x, two: new_box, link_type })
}

/// The draw order entries added for a new box linked to `count` boxes,
/// where the first new link has index `first_link`.
pub open spec fn appended_order(count: nat, first_link: nat, new_box: usize) -> Seq<RenderOrder> {
    if count == 0 {
        seq![RenderOrder::Colbox(new_box)]
    } else {
        Seq::new(count, |k: int| RenderOrder::Link((first_link + k) as usize))
    }
}

/// Whether a draw order entry stays when box `r` is moved to the back or
/// front: the entries of `r` itself and of the links that refer to `r` go.
pub open spec fn keeps_for_back(e: RenderOrder, links: Seq<CollisionBoxLink>, r: usize) -> bool {
    match e {
        RenderOrder::Colbox(c) => c != r,
        RenderOrder::Link(l) => !links[l as int].spec_contains(r),
    }
}

/// The entries of `ro` that stay when box `r` is moved.
pub open spec fn drop_for_back(ro: Seq<RenderOrder>, links: Seq<CollisionBoxLink>, r: usize) -> Seq<
    RenderOrder,
>
    decreases ro.len(),
{
    if ro.len() == 0 {
        seq![]
    } else {
        let p = drop_for_back(ro.drop_last(), links, r);
        if keeps_for_back(ro.last(), links, r) {
            p.push(ro.last())
        } else {
            p
        }
    }
}

/// The entries that draw box `r` after the move: its links, or the box alone.
/// `descending` lists the links last to first.
pub open spec fn entries_for_box(lr: Seq<usize>, r: usize, descending: bool) -> Seq<RenderOrder> {
    if lr.len() == 0 {
        seq![RenderOrder::Colbox(r)]
    } else if descending {
        Seq::new(lr.len(), |k: int| RenderOrder::Link(lr[lr.len() - 1 - k]))
    } else {
        lr.map_values(|l: usize| RenderOrder::Link(l))
    }
}

/// The draw order after sending box `r` to the back.
pub open spec fn send_back_one(ro: Seq<RenderOrder>, links: Seq<CollisionBoxLink>, r: usize) -> Seq<
    RenderOrder,
> {
    entries_for_box(crate::frame::links_containing(links, r, links.len() as int), r, true) + drop_for_back(
        ro,
        links,
        r,
    )
}

/// The draw order after sending box `r` to the front: the entries of `r`
/// and of the links that contain it are removed, then the links (or the
/// box alone) are put last.
pub open spec fn send_front_one(ro: Seq<RenderOrder>, links: Seq<CollisionBoxLink>, r: usize) -> Seq<
    RenderOrder,
> {
    drop_for_back(ro, links, r) + entries_for_box(
        crate::frame::links_containing(links, r, links.len() as int),
        r,
        false,
    )
}

/// The draw order after sending each box of `s` to the back, first to last.
pub open spec fn send_back_all(ro: Seq<RenderOrder>, links: Seq<CollisionBoxLink>, s: Seq<usize>) -> Seq<
    RenderOrder,
>
    decreases s.len(),
{
    if s.len() == 0 {
        ro
    } else {
        send_back_one(send_back_all(ro, links, s.drop_last()), links, s.last())
    }
}

/// The draw order after sending each box of `s` to the front, first to last.
pub open spec fn send_front_all(ro: Seq<RenderOrder>, links: Seq<CollisionBoxLink>, s: Seq<usize>) -> Seq<
    RenderOrder,
>
    decreases s.len(),
{
    if s.len() == 0 {
        ro
    } else {
        send_front_one(send_front_all(ro, links, s.drop_last()), links, s.last())
    }
}

/// Every link entry of the draw order names an existing link.
pub open spec fn link_entries_wf(ro: Seq<RenderOrder>, nl: nat) -> bool {
    forall|k: int|
        0 <= k < ro.len() ==> match #[trigger] ro[k] {
            RenderOrder::Colbox(_) => true,
            RenderOrder::Link(l) => l < nl,
        }
}

proof fn lemma_links_containing_bounds(links: Seq<CollisionBoxLink>, c: usize, n: int)
    requires
        n <= links.len(),
    ensures
        crate::frame::links_containing(links, c, n).len() <= if n < 0 {
            0
        } else {
            n
        },
        forall|j: int|
            0 <= j < crate::frame::links_containing(links, c, n).len() ==> #[trigger] crate::frame::links_containing(
                links,
                c,
                n,
            )[j] < n,
    decreases n,
{
    if n > 0 {
        lemma_links_containing_bounds(links, c, n - 1);
    }
}

proof fn lemma_drop_for_back_wf(ro: Seq<RenderOrder>, links: Seq<CollisionBoxLink>, r: usize)
    requires
        link_entries_wf(ro, links.len()),
    ensures
        link_entries_wf(drop_for_back(ro, links, r), links.len()),
        drop_for_back(ro, links, r).len() <= ro.len(),
    decreases ro.len(),
{
    if ro.len() > 0 {
        let q = ro.drop_last();
        assert forall|k: int| 0 <= k < q.len() implies match #[trigger] q[k] {
            RenderOrder::Colbox(_) => true,
            RenderOrder::Link(l) => l < links.len(),
        } by {
            assert(q[k] == ro[k]);
        }
        lemma_drop_for_back_wf(q, links, r);
        let p = drop_for_back(q, links, r);
        if keeps_for_back(ro.last(), links, r) {
            assert forall|k: int| 0 <= k < p.push(ro.last()).len() implies match #[trigger] p.push(
                ro.last(),
            )[k] {
                RenderOrder::Colbox(_) => true,
                RenderOrder::Link(l) => l < links.len(),
            } by {
                if k < p.len() {
                    assert(p.push(ro.last())[k] == p[k]);
                } else {
                    assert(ro.last() == ro[ro.len() - 1]);
                }
            }
        }
    }
}

proof fn lemma_count_below_bounds(set: Set<usize>, i: int, n: int)
    ensures
        0 <= count_below(set, i, n) <= if i < 0 {
            0
        } else {
            i
        },
        i >= n ==> count_below(set, i, n) == count_below(set, n, n),
    decreases i,
{
    if i > 0 {
        lemma_count_below_bounds(set, i - 1, n);
    }
}

proof fn lemma_deleted_links_bounds(links: Seq<CollisionBoxLink>, set: Set<usize>, l: int)
    ensures
        0 <= deleted_links_below(links, set, l) <= if l < 0 {
            0
        } else {
            l
        },
        l >= links.len() ==> deleted_links_below(links, set, l) == deleted_links_below(
            links,
            set,
            links.len() as int,
        ),
    decreases l,
{
    if l > 0 {
        lemma_deleted_links_bounds(links, set, l - 1);
    }
}

/// Appending a box linked to boxes that exist keeps the links and the draw
/// order referring to boxes and links that exist.
proof fn lemma_append_keeps_wf(
    links: Seq<CollisionBoxLink>,
    order: Seq<RenderOrder>,
    r: usize,
    gs: Seq<usize>,
    keys: Set<usize>,
    link_type: LinkType,
)
    requires
        links_wf(links, r as nat),
        order_wf(order, r as nat, links.len()),
        gs.to_set() == keys,
        forall|x: usize| keys.contains(x) ==> x <= r,
    ensures
        links_wf(links + appended_links(gs, r, link_type), (r + 1) as nat),
        order_wf(
            order + appended_order(gs.len(), links.len(), r),
            (r + 1) as nat,
            links.len() + gs.len(),
        ),
{
    let all = links + appended_links(gs, r, link_type);
    assert forall|k: int| 0 <= k < all.len() implies (#[trigger] all[k]).one < r + 1 && all[k].two
        < r + 1 by {
        if k >= links.len() {
            let x = gs[k - links.len()];
            assert(all[k] == appended_links(gs, r, link_type)[k - links.len()]);
            assert(all[k].one == x && all[k].two == r);
            assert(gs.contains(x));
            assert(gs.to_set().contains(x));
            assert(keys.contains(x));
            assert(x <= r);
            assert(all[k].one < r + 1);
            assert(all[k].two < r + 1);
        } else {
            assert(all[k] == links[k]);
            assert(links[k].one < r);
            assert(all[k].one < r + 1);
            assert(all[k].two < r + 1);
        }
    }
    let o = order + appended_order(gs.len(), links.len(), r);
    assert forall|k: int| 0 <= k < o.len() implies match #[trigger] o[k] {
        RenderOrder::Colbox(i) => i < r + 1,
        RenderOrder::Link(l) => l < links.len() + gs.len(),
    } by {
        if k < order.len() {
            assert(o[k] == order[k]);
        }
    }
}

impl<C> ActionFrame<C> {
    /// Deletes the boxes whose indexes are in `colboxes_to_delete`. Links that
    /// touch a deleted box are deleted too, draw order entries of deleted boxes
    /// and links are dropped, and every remaining index is renumbered so that
    /// it refers to the same box or link as before.
    pub fn delete_colboxes(&mut self, colboxes_to_delete: &HashSet<usize>)
        requires
            forall|d: usize| colboxes_to_delete@.contains(d) ==> d < old(self).colboxes@.len(),
        ensures
            final(self).colboxes@ == kept_boxes(
                old(self).colboxes@,
                colboxes_to_delete@,
                old(self).colboxes@.len() as int,
            ),
            final(self).colbox_links@ == kept_links(
                old(self).colbox_links@,
                colboxes_to_delete@,
                old(self).colboxes@.len() as int,
                old(self).colbox_links@.len() as int,
            ),
            final(self).render_order@ == kept_order(
                old(self).render_order@,
                old(self).colbox_links@,
                colboxes_to_delete@,
                old(self).colboxes@.len() as int,
                old(self).render_order@.len() as int,
            ),
            final(self).pass_through == old(self).pass_through,
            final(self).ledge_cancel == old(self).ledge_cancel,
            final(self).use_platform_angle == old(self).use_platform_angle,
            final(self).force_hitlist_reset == old(self).force_hitlist_reset,
            old(self).wf() ==> final(self).wf(),
    {
        let ghost set = colboxes_to_delete@;
        let ghost old_boxes = self.colboxes@;
        let ghost old_links = self.colbox_links@;
        let ghost old_order = self.render_order@;
        let nb = self.colboxes.len();
        let ghost nbi = nb as int;

        // surviving boxes and the number of deleted boxes below each index
        let mut old_colboxes: Vec<C> = Vec::new();
        std::mem::swap(&mut old_colboxes, &mut self.colboxes);
        let mut boxes_below: Vec<usize> = Vec::new();
        let mut deleted: usize = 0;
        let mut kept: Vec<C> = Vec::new();
        let mut remaining = old_colboxes;
        // take the boxes from the back so that each is moved exactly once
        let mut reversed: Vec<C> = Vec::new();
        while remaining.len() > 0
            invariant
                nb == old_boxes.len(),
                reversed@.len() + remaining@.len() == nb,
                remaining@ == old_boxes.subrange(0, remaining@.len() as int),
                forall|j: int|
                    0 <= j < reversed@.len() ==> #[trigger] reversed@[j] == old_boxes[nb - 1 - j],
            decreases remaining@.len(),
        {
            let b = remaining.pop().unwrap();
            reversed.push(b);
        }
        let mut i: usize = 0;
        while i < nb
            invariant
                0 <= i <= nb,
                nb == old_boxes.len(),
                nbi == nb,
                reversed@.len() == nb - i,
                forall|j: int|
                    0 <= j < reversed@.len() ==> #[trigger] reversed@[j] == old_boxes[nb - 1 - j],
                set == colboxes_to_delete@,
                boxes_below@.len() == i,
                forall|j: int| 0 <= j < i ==> #[trigger] boxes_below@[j] == count_below(set, j, nbi),
                deleted == count_below(set, i as int, nbi),
                kept@ == kept_boxes(old_boxes, set, i as int),
            decreases nb - i,
        {
            proof {
                lemma_count_below_bounds(set, i as int, nbi);
            }
            let b = reversed.pop().unwrap();
            boxes_below.push(deleted);
            if colboxes_to_delete.contains(&i) {
                deleted = deleted + 1;
            } else {
                kept.push(b);
            }
            i = i + 1;
        }
        self.colboxes = kept;

        // surviving links and the number of deleted links below each index
        let nl = self.colbox_links.len();
        let mut links_below: Vec<usize> = Vec::new();
        let mut link_gone: Vec<bool> = Vec::new();
        let mut deleted_links: usize = 0;
        let mut new_links: Vec<CollisionBoxLink> = Vec::new();
        let mut k: usize = 0;
        while k < nl
            invariant
                0 <= k <= nl,
                nl == old_links.len(),
                nb == old_boxes.len(),
                nbi == nb,
                self.colbox_links@ == old_links,
                set == colboxes_to_delete@,
                boxes_below@.len() == nb,
                forall|j: int| 0 <= j < nb ==> #[trigger] boxes_below@[j] == count_below(set, j, nbi),
                forall|d: usize| set.contains(d) ==> d < nb,
                deleted == count_below(set, nbi, nbi),
                links_below@.len() == k,
                link_gone@.len() == k,
                forall|j: int|
                    0 <= j < k ==> #[trigger] links_below@[j] == deleted_links_below(old_links, set, j),
                forall|j: int|
                    0 <= j < k ==> #[trigger] link_gone@[j] == link_deleted(old_links[j], set),
                deleted_links == deleted_links_below(old_links, set, k as int),
                new_links@ == kept_links(old_links, set, nbi, k as int),
            decreases nl - k,
        {
            proof {
                lemma_deleted_links_bounds(old_links, set, k as int);
            }
            let link = self.colbox_links[k];
            links_below.push(deleted_links);
            let gone = colboxes_to_delete.contains(&link.one) || colboxes_to_delete.contains(
                &link.two,
            );
            link_gone.push(gone);
            if gone {
                deleted_links = deleted_links + 1;
            } else {
                // neither end is deleted, so both ends are boxes that keep existing
                let one = self.renumber_box(&boxes_below, deleted, link.one, Ghost(set), Ghost(nbi));
                let two = self.renumber_box(&boxes_below, deleted, link.two, Ghost(set), Ghost(nbi));
                new_links.push(CollisionBoxLink { one, two, link_type: link.link_type });
            }
            k = k + 1;
        }
        self.colbox_links = new_links;

        // the draw order without the deleted boxes and links
        let no = self.render_order.len();
        let mut new_order: Vec<RenderOrder> = Vec::new();
        let mut m: usize = 0;
        while m < no
            invariant
                0 <= m <= no,
                no == old_order.len(),
                self.render_order@ == old_order,
                nl == old_links.len(),
                nb == old_boxes.len(),
                nbi == nb,
                set == colboxes_to_delete@,
                boxes_below@.len() == nb,
                forall|j: int| 0 <= j < nb ==> #[trigger] boxes_below@[j] == count_below(set, j, nbi),
                deleted == count_below(set, nbi, nbi),
                links_below@.len() == nl,
                link_gone@.len() == nl,
                forall|j: int|
                    0 <= j < nl ==> #[trigger] links_below@[j] == deleted_links_below(old_links, set, j),
                forall|j: int|
                    0 <= j < nl ==> #[trigger] link_gone@[j] == link_deleted(old_links[j], set),
                deleted_links == deleted_links_below(old_links, set, nl as int),
                new_order@ == kept_order(old_order, old_links, set, nbi, m as int),
            decreases no - m,
        {
            match self.render_order[m] {
                RenderOrder::Colbox(c) => {
                    if !colboxes_to_delete.contains(&c) {
                        let c2 = self.renumber_box(&boxes_below, deleted, c, Ghost(set), Ghost(nbi));
                        new_order.push(RenderOrder::Colbox(c2));
                    }
                },
                RenderOrder::Link(l) => {
                    if l < nl {
                        if !link_gone[l] {
                            proof {
                                lemma_deleted_links_bounds(old_links, set, l as int);
                            }
                            new_order.push(RenderOrder::Link(l - links_below[l]));
                        }
                    } else {
                        proof {
                            lemma_deleted_links_bounds(old_links, set, l as int);
                            lemma_deleted_links_bounds(old_links, set, nl as int);
                        }
                        new_order.push(RenderOrder::Link(l - deleted_links));
                    }
                },
            }
            m = m + 1;
        }
        self.render_order = new_order;
        proof {
            if old(self).wf() {
                law_delete_keeps_frame_valid(*old(self), set);
            }
        }
    }

    /// Adds `new_colbox` after the existing boxes and links it to every box
    /// in `link_to`; each new link gets its own draw order entry, and an
    /// unlinked box gets a draw order entry of its own. Returns the index the
    /// box was added at. The new links follow the set's iteration order.
    #[verifier::rlimit(40)]
    pub fn append_colbox(
        &mut self,
        new_colbox: C,
        link_to: &HashSet<usize>,
        link_type: LinkType,
    ) -> (r: usize)
        requires
            old(self).colbox_links@.len() + link_to@.len() <= usize::MAX,
        ensures
            r == old(self).colboxes@.len(),
            final(self).colboxes@ == old(self).colboxes@.push(new_colbox),
            exists|s: Seq<usize>|
                #![trigger appended_links(s, r, link_type)]
                s.no_duplicates() && s.to_set() == link_to@ && final(self).colbox_links@
                    == old(self).colbox_links@ + appended_links(s, r, link_type),
            final(self).render_order@ == old(self).render_order@ + appended_order(
                link_to@.len(),
                old(self).colbox_links@.len(),
                r,
            ),
            final(self).pass_through == old(self).pass_through,
            final(self).ledge_cancel == old(self).ledge_cancel,
            final(self).use_platform_angle == old(self).use_platform_angle,
            final(self).force_hitlist_reset == old(self).force_hitlist_reset,
            old(self).wf() && (forall|x: usize| link_to@.contains(x) ==> x <= r) ==> final(self).wf(),
    {
        let ghost old_links = self.colbox_links@;
        let ghost old_order = self.render_order@;
        let new_colbox_index = self.colboxes.len();
        self.colboxes.push(new_colbox);
        let nl = self.colbox_links.len();
        let ghost keys = link_to@;
        let mut count: usize = 0;
        let ghost mut gs: Seq<usize> = Seq::empty();
        for colbox_index in it: link_to.iter()
            invariant
                gs == it.seq().unref().take(count as int),
                count == it.seq().len() ==> gs.to_set() == keys,
                gs.no_duplicates(),
                nl == old_links.len(),
                self.colboxes@ == old(self).colboxes@.push(new_colbox),
                self.pass_through == old(self).pass_through,
                self.ledge_cancel == old(self).ledge_cancel,
                self.use_platform_angle == old(self).use_platform_angle,
                self.force_hitlist_reset == old(self).force_hitlist_reset,
                count == it.index(),
                nl + keys.len() <= usize::MAX,
                keys == link_to@,
                it.seq().len() == keys.len(),
                it.seq().unref().no_duplicates(),
                it.seq().unref().to_set() == keys,
                self.colbox_links@ == old_links + appended_links(
                    gs,
                    new_colbox_index,
                    link_type,
                ),
                self.render_order@ == old_order + Seq::new(
                    count as nat,
                    |k: int| RenderOrder::Link((nl + k) as usize),
                ),
        {
            proof {
                gs = gs.push(*colbox_index);
            }
            let new_link_index = self.colbox_links.len();
            self.colbox_links.push(
                CollisionBoxLink { one: *colbox_index, two: new_colbox_index, link_type },
            );
            self.render_order.push(RenderOrder::Link(new_link_index));
            count = count + 1;
            proof {
                assert(gs =~= it.seq().unref().take(count as int));
                assert(count == it.seq().len() ==> gs =~= it.seq().unref());
                assert(it.seq().unref().take(count - 1).no_duplicates());
            }
        }
        proof {
            assert(count == keys.len());
            assert(gs.take(count as int) =~= gs);
        }
        if link_to.len() == 0 {
            self.render_order.push(RenderOrder::Colbox(new_colbox_index));
        }
        proof {
            if old(self).wf() && (forall|x: usize| link_to@.contains(x) ==> x <= new_colbox_index) {
                lemma_append_keeps_wf(old_links, old_order, new_colbox_index, gs, keys, link_type);
            }
        }
        new_colbox_index
    }

    /// The draw order entries that stay when box `r` is moved.
    fn entries_kept(&self, r: usize) -> (kept: Vec<RenderOrder>)
        requires
            link_entries_wf(self.render_order@, self.colbox_links@.len()),
        ensures
            kept@ == drop_for_back(self.render_order@, self.colbox_links@, r),
            link_entries_wf(kept@, self.colbox_links@.len()),
    {
        let ghost links = self.colbox_links@;
        let ghost ro = self.render_order@;
        let mut kept: Vec<RenderOrder> = Vec::new();
        let mut k: usize = 0;
        while k < self.render_order.len()
            invariant
                0 <= k <= ro.len(),
                ro == self.render_order@,
                links == self.colbox_links@,
                link_entries_wf(ro, links.len()),
                kept@ == drop_for_back(ro.take(k as int), links, r),
            decreases ro.len() - k,
        {
            proof {
                assert(ro.take(k + 1).drop_last() =~= ro.take(k as int));
            }
            let e = self.render_order[k];
            let keep = match e {
                RenderOrder::Colbox(c) => c != r,
                RenderOrder::Link(l) => !self.colbox_links[l].contains(r),
            };
            if keep {
                kept.push(e);
            }
            k = k + 1;
        }
        proof {
            assert(ro.take(ro.len() as int) =~= ro);
            lemma_drop_for_back_wf(ro, links, r);
        }
        kept
    }

    /// Moves the entries of box `r` (or of the links that contain it) to the
    /// front of the draw order, so they are drawn first.
    fn send_one_to_back(&mut self, r: usize)
        requires
            link_entries_wf(old(self).render_order@, old(self).colbox_links@.len()),
        ensures
            final(self).render_order@ == send_back_one(
                old(self).render_order@,
                old(self).colbox_links@,
                r,
            ),
            link_entries_wf(final(self).render_order@, final(self).colbox_links@.len()),
            final(self).colboxes == old(self).colboxes,
            final(self).colbox_links == old(self).colbox_links,
            final(self).pass_through == old(self).pass_through,
            final(self).ledge_cancel == old(self).ledge_cancel,
            final(self).use_platform_angle == old(self).use_platform_angle,
            final(self).force_hitlist_reset == old(self).force_hitlist_reset,
    {
        let ghost links = self.colbox_links@;
        let ghost ro = self.render_order@;
        let lr = self.get_links_containing_colbox(r);
        proof {
            lemma_links_containing_bounds(links, r, links.len() as int);
        }
        let kept = self.entries_kept(r);
        let mut result: Vec<RenderOrder> = Vec::new();
        if lr.len() == 0 {
            result.push(RenderOrder::Colbox(r));
        } else {
            let mut j: usize = lr.len();
            while j > 0
                invariant
                    0 <= j <= lr@.len(),
                    lr@.len() > 0,
                    result@ =~= Seq::new(
                        (lr@.len() - j) as nat,
                        |q: int| RenderOrder::Link(lr@[lr@.len() - 1 - q]),
                    ),
                decreases j,
            {
                j = j - 1;
                result.push(RenderOrder::Link(lr[j]));
            }
        }
        let mut q: usize = 0;
        let ghost front = result@;
        while q < kept.len()
            invariant
                0 <= q <= kept@.len(),
                result@ == front + kept@.take(q as int),
            decreases kept@.len() - q,
        {
            proof {
                assert(kept@.take(q + 1) =~= kept@.take(q as int).push(kept@[q as int]));
            }
            result.push(kept[q]);
            q = q + 1;
        }
        proof {
            assert(kept@.take(kept@.len() as int) =~= kept@);
            assert(front =~= entries_for_box(lr@, r, true));
            let res = front + kept@;
            assert forall|k: int| 0 <= k < res.len() implies match #[trigger] res[k] {
                RenderOrder::Colbox(_) => true,
                RenderOrder::Link(l) => l < links.len(),
            } by {
                if k >= front.len() {
                    assert(res[k] == kept@[k - front.len()]);
                }
            }
        }
        self.render_order = result;
    }

    /// Moves the entries of box `r` (or of the links that contain it) to the
    /// end of the draw order, so they are drawn last.
    fn send_one_to_front(&mut self, r: usize)
        requires
            link_entries_wf(old(self).render_order@, old(self).colbox_links@.len()),
        ensures
            final(self).render_order@ == send_front_one(
                old(self).render_order@,
                old(self).colbox_links@,
                r,
            ),
            link_entries_wf(final(self).render_order@, final(self).colbox_links@.len()),
            final(self).colboxes == old(self).colboxes,
            final(self).colbox_links == old(self).colbox_links,
            final(self).pass_through == old(self).pass_through,
            final(self).ledge_cancel == old(self).ledge_cancel,
            final(self).use_platform_angle == old(self).use_platform_angle,
            final(self).force_hitlist_reset == old(self).force_hitlist_reset,
    {
        let ghost links = self.colbox_links@;
        let lr = self.get_links_containing_colbox(r);
        proof {
            lemma_links_containing_bounds(links, r, links.len() as int);
        }
        let mut result = self.entries_kept(r);
        let ghost kept = result@;
        if lr.len() == 0 {
            result.push(RenderOrder::Colbox(r));
        } else {
            let mut j: usize = 0;
            while j < lr.len()
                invariant
                    0 <= j <= lr@.len(),
                    result@ =~= kept + lr@.take(j as int).map_values(|l: usize| RenderOrder::Link(l)),
                decreases lr@.len() - j,
            {
                proof {
                    assert(lr@.take(j + 1).map_values(|l: usize| RenderOrder::Link(l))
                        =~= lr@.take(j as int).map_values(|l: usize| RenderOrder::Link(l)).push(
                        RenderOrder::Link(lr@[j as int]),
                    ));
                }
                result.push(RenderOrder::Link(lr[j]));
                j = j + 1;
            }
            proof {
                assert(lr@.take(lr@.len() as int) =~= lr@);
            }
        }
        proof {
            let res = result@;
            let back = entries_for_box(lr@, r, false);
            assert(res =~= kept + back);
            assert forall|k: int| 0 <= k < res.len() implies match #[trigger] res[k] {
                RenderOrder::Colbox(_) => true,
                RenderOrder::Link(l) => l < links.len(),
            } by {
                if k < kept.len() {
                    assert(res[k] == kept[k]);
                } else {
                    assert(res[k] == back[k - kept.len()]);
                }
            }
        }
        self.render_order = result;
    }

    /// Sends every box of `reordered_colboxes` to the back of the draw order,
    /// one after another in the set's iteration order: the entries of the box
    /// and of the links that contain it are removed, then the links that
    /// contain it (or the box alone) are put first.
    pub fn colboxes_send_to_back(&mut self, reordered_colboxes: &HashSet<usize>)
        requires
            link_entries_wf(old(self).render_order@, old(self).colbox_links@.len()),
        ensures
            exists|s: Seq<usize>|
                #![trigger send_back_all(old(self).render_order@, old(self).colbox_links@, s)]
                s.no_duplicates() && s.to_set() == reordered_colboxes@ && final(self).render_order@
                    == send_back_all(old(self).render_order@, old(self).colbox_links@, s),
            final(self).colboxes == old(self).colboxes,
            final(self).colbox_links == old(self).colbox_links,
            final(self).pass_through == old(self).pass_through,
            final(self).ledge_cancel == old(self).ledge_cancel,
            final(self).use_platform_angle == old(self).use_platform_angle,
            final(self).force_hitlist_reset == old(self).force_hitlist_reset,
    {
        let ghost ro = self.render_order@;
        let ghost links = self.colbox_links@;
        let ghost keys = reordered_colboxes@;
        let ghost mut gs: Seq<usize> = Seq::empty();
        for r in it: reordered_colboxes.iter()
            invariant
                gs == it.seq().unref().take(it.index() as int),
                it.index() == it.seq().len() ==> gs.to_set() == keys,
                gs.no_duplicates(),
                keys == reordered_colboxes@,
                it.seq().len() == keys.len(),
                it.seq().unref().no_duplicates(),
                it.seq().unref().to_set() == keys,
                links == self.colbox_links@,
                self.colboxes == old(self).colboxes,
                self.colbox_links == old(self).colbox_links,
                self.pass_through == old(self).pass_through,
                self.ledge_cancel == old(self).ledge_cancel,
                self.use_platform_angle == old(self).use_platform_angle,
                self.force_hitlist_reset == old(self).force_hitlist_reset,
                link_entries_wf(self.render_order@, links.len()),
                self.render_order@ == send_back_all(ro, links, gs),
        {
            proof {
                gs = gs.push(*r);
                assert(gs.drop_last() =~= it.seq().unref().take(it.index() as int));
                assert(gs =~= it.seq().unref().take(it.index() + 1));
                assert(it.index() + 1 == it.seq().len() ==> gs =~= it.seq().unref());
                assert(it.seq().unref().take(it.index() + 1).no_duplicates());
            }
            self.send_one_to_back(*r);
        }
    }

    /// Sends every box of `reordered_colboxes` to the front of the draw order,
    /// one after another in the set's iteration order: the box's own entries
    /// are removed, then the links that contain it (or the box alone) are put last.
    pub fn colboxes_send_to_front(&mut self, reordered_colboxes: &HashSet<usize>)
        requires
            link_entries_wf(old(self).render_order@, old(self).colbox_links@.len()),
        ensures
            exists|s: Seq<usize>|
                #![trigger send_front_all(old(self).render_order@, old(self).colbox_links@, s)]
                s.no_duplicates() && s.to_set() == reordered_colboxes@ && final(self).render_order@
                    == send_front_all(old(self).render_order@, old(self).colbox_links@, s),
            link_entries_wf(final(self).render_order@, final(self).colbox_links@.len()),
            final(self).colboxes == old(self).colboxes,
            final(self).colbox_links == old(self).colbox_links,
            final(self).pass_through == old(self).pass_through,
            final(self).ledge_cancel == old(self).ledge_cancel,
            final(self).use_platform_angle == old(self).use_platform_angle,
            final(self).force_hitlist_reset == old(self).force_hitlist_reset,
    {
        let ghost ro = self.render_order@;
        let ghost links = self.colbox_links@;
        let ghost keys = reordered_colboxes@;
        let ghost mut gs: Seq<usize> = Seq::empty();
        for r in it: reordered_colboxes.iter()
            invariant
                gs == it.seq().unref().take(it.index() as int),
                it.index() == it.seq().len() ==> gs.to_set() == keys,
                gs.no_duplicates(),
                keys == reordered_colboxes@,
                it.seq().len() == keys.len(),
                it.seq().unref().no_duplicates(),
                it.seq().unref().to_set() == keys,
                links == self.colbox_links@,
                self.colboxes == old(self).colboxes,
                self.colbox_links == old(self).colbox_links,
                self.pass_through == old(self).pass_through,
                self.ledge_cancel == old(self).ledge_cancel,
                self.use_platform_angle == old(self).use_platform_angle,
                self.force_hitlist_reset == old(self).force_hitlist_reset,
                link_entries_wf(self.render_order@, links.len()),
                self.render_order@ == send_front_all(ro, links, gs),
        {
            proof {
                gs = gs.push(*r);
                assert(gs.drop_last() =~= it.seq().unref().take(it.index() as int));
                assert(gs =~= it.seq().unref().take(it.index() + 1));
                assert(it.index() + 1 == it.seq().len() ==> gs =~= it.seq().unref());
                assert(it.seq().unref().take(it.index() + 1).no_duplicates());
            }
            self.send_one_to_front(*r);
        }
    }

    /// The new index of box `i`, which is not deleted.
    fn renumber_box(
        &self,
        boxes_below: &Vec<usize>,
        deleted: usize,
        i: usize,
        Ghost(set): Ghost<Set<usize>>,
        Ghost(nb): Ghost<int>,
    ) -> (r: usize)
        requires
            boxes_below@.len() == nb,
            nb >= 0,
            forall|j: int| 0 <= j < nb ==> #[trigger] boxes_below@[j] == count_below(set, j, nb),
            deleted == count_below(set, nb, nb),
        ensures
            r == new_box_index(set, nb, i),
    {
        proof {
            lemma_count_below_bounds(set, i as int, nb);
        }
        if i < boxes_below.len() {
            i - boxes_below[i]
        } else {
            i - deleted
        }
    }
}

proof fn lemma_count_below_step(set: Set<usize>, i: int, j: int, nb: int)
    requires
        0 <= i <= j,
    ensures
        count_below(set, j, nb) - count_below(set, i, nb) <= j - i,
        count_below(set, i, nb) <= count_below(set, j, nb),
    decreases j - i,
{
    if i < j {
        lemma_count_below_step(set, i, j - 1, nb);
    }
}

proof fn lemma_deleted_below_step(links: Seq<CollisionBoxLink>, set: Set<usize>, i: int, j: int)
    requires
        0 <= i <= j,
    ensures
        deleted_links_below(links, set, j) - deleted_links_below(links, set, i) <= j - i,
        deleted_links_below(links, set, i) <= deleted_links_below(links, set, j),
    decreases j - i,
{
    if i < j {
        lemma_deleted_below_step(links, set, i, j - 1);
    }
}

proof fn lemma_new_box_index(set: Set<usize>, nb: int, i: usize, n: int)
    requires
        i < n <= nb,
        !set.contains(i),
    ensures
        0 <= i - count_below(set, i as int, nb),
        i - count_below(set, i as int, nb) < n - count_below(set, n, nb),
        new_box_index(set, nb, i) == i - count_below(set, i as int, nb),
{
    lemma_count_below_bounds(set, i as int, nb);
    assert(count_below(set, i + 1, nb) == count_below(set, i as int, nb));
    lemma_count_below_step(set, i + 1, n, nb);
}

proof fn lemma_new_link_index(links: Seq<CollisionBoxLink>, set: Set<usize>, l: int, n: int)
    requires
        0 <= l < n <= links.len(),
        !link_deleted(links[l], set),
    ensures
        0 <= l - deleted_links_below(links, set, l),
        l - deleted_links_below(links, set, l) < n - deleted_links_below(links, set, n),
{
    lemma_deleted_links_bounds(links, set, l);
    assert(deleted_links_below(links, set, l + 1) == deleted_links_below(links, set, l));
    lemma_deleted_below_step(links, set, l + 1, n);
}

/// The boxes kept by a deletion are the surviving boxes, each at its new index.
proof fn lemma_kept_boxes<C>(boxes: Seq<C>, set: Set<usize>, nb: int, n: int)
    requires
        0 <= n <= nb,
        nb == boxes.len(),
    ensures
        kept_boxes(boxes, set, n).len() == n - count_below(set, n, nb),
        forall|i: usize|
            i < n && !set.contains(i) ==> #[trigger] kept_boxes(boxes, set, n)[new_box_index(set, nb, i) as int]
                == boxes[i as int],
    decreases n,
{
    if n > 0 {
        lemma_kept_boxes(boxes, set, nb, n - 1);
        assert forall|i: usize|
            i < n && !set.contains(i) implies #[trigger] kept_boxes(boxes, set, n)[new_box_index(set, nb, i) as int]
                == boxes[i as int] by {
            if i < n - 1 {
                lemma_new_box_index(set, nb, i, n - 1);
            } else {
                lemma_new_box_index(set, nb, i, n);
            }
        }
    }
}

/// The links kept by a deletion are the surviving links, each at its new index.
proof fn lemma_kept_links(links: Seq<CollisionBoxLink>, set: Set<usize>, nb: int, n: int)
    requires
        0 <= n <= links.len(),
    ensures
        kept_links(links, set, nb, n).len() == n - deleted_links_below(links, set, n),
        forall|l: int|
            0 <= l < n && !link_deleted(links[l], set) ==> #[trigger] kept_links(links, set, nb, n)[l
                - deleted_links_below(links, set, l)] == (CollisionBoxLink {
                one: new_box_index(set, nb, links[l].one),
                two: new_box_index(set, nb, links[l].two),
                link_type: links[l].link_type,
            }),
    decreases n,
{
    if n > 0 {
        lemma_kept_links(links, set, nb, n - 1);
        assert forall|l: int|
            0 <= l < n && !link_deleted(links[l], set) implies #[trigger] kept_links(links, set, nb, n)[l
                - deleted_links_below(links, set, l)] == (CollisionBoxLink {
                one: new_box_index(set, nb, links[l].one),
                two: new_box_index(set, nb, links[l].two),
                link_type: links[l].link_type,
            }) by {
            if l < n - 1 {
                lemma_new_link_index(links, set, l, n - 1);
            } else {
                lemma_new_link_index(links, set, l, n);
            }
        }
    }
}

/// Every entry of the draw order kept by a deletion is in range.
proof fn lemma_kept_order_wf(
    order: Seq<RenderOrder>,
    links: Seq<CollisionBoxLink>,
    set: Set<usize>,
    nb: int,
    n: int,
)
    requires
        0 <= n <= order.len(),
        0 <= nb,
        crate::frame::order_wf(order, nb as nat, links.len()),
    ensures
        forall|k: int|
            0 <= k < kept_order(order, links, set, nb, n).len() ==> match #[trigger] kept_order(
                order,
                links,
                set,
                nb,
                n,
            )[k] {
                RenderOrder::Colbox(i) => i < nb - count_below(set, nb, nb),
                RenderOrder::Link(l) => l < links.len() - deleted_links_below(
                    links,
                    set,
                    links.len() as int,
                ),
            },
    decreases n,
{
    if n > 0 {
        lemma_kept_order_wf(order, links, set, nb, n - 1);
        let p = kept_order(order, links, set, nb, n - 1);
        let e = order[n - 1];
        assert(match e {
            RenderOrder::Colbox(i) => i < nb,
            RenderOrder::Link(l) => l < links.len(),
        });
        match e {
            RenderOrder::Colbox(i) => {
                if !set.contains(i) {
                    lemma_new_box_index(set, nb, i, nb);
                }
            },
            RenderOrder::Link(l) => {
                if !(l < links.len() && link_deleted(links[l as int], set)) {
                    lemma_new_link_index(links, set, l as int, links.len() as int);
                }
            },
        }
        let q = kept_order(order, links, set, nb, n);
        assert forall|k: int| 0 <= k < q.len() implies match #[trigger] q[k] {
            RenderOrder::Colbox(i) => i < nb - count_below(set, nb, nb),
            RenderOrder::Link(l) => l < links.len() - deleted_links_below(
                links,
                set,
                links.len() as int,
            ),
        } by {
            if k < p.len() {
                assert(q[k] == p[k]);
            }
        }
    }
}

/// Deleting boxes keeps what remains: every surviving box is found at its
/// new index, and every surviving link joins the same boxes as before.
pub proof fn law_delete_keeps_boxes_and_links<C>(
    boxes: Seq<C>,
    links: Seq<CollisionBoxLink>,
    set: Set<usize>,
)
    requires
        crate::frame::links_wf(links, boxes.len()),
    ensures
        forall|i: usize|
            i < boxes.len() && !set.contains(i) ==> #[trigger] kept_boxes(
                boxes,
                set,
                boxes.len() as int,
            )[new_box_index(set, boxes.len() as int, i) as int] == boxes[i as int],
        forall|l: int|
            0 <= l < links.len() && !link_deleted(links[l], set) ==> {
                let k = kept_links(links, set, boxes.len() as int, links.len() as int)[l
                    - deleted_links_below(links, set, l)];
                let kb = kept_boxes(boxes, set, boxes.len() as int);
                &&& kb[k.one as int] == boxes[links[l].one as int]
                &&& kb[k.two as int] == boxes[links[l].two as int]
                &&& k.link_type == links[l].link_type
            },
{
    let nb = boxes.len() as int;
    lemma_kept_boxes(boxes, set, nb, nb);
    lemma_kept_links(links, set, nb, links.len() as int);
    assert forall|l: int|
        0 <= l < links.len() && !link_deleted(links[l], set) implies {
            let k = kept_links(links, set, nb, links.len() as int)[l - deleted_links_below(links, set, l)];
            let kb = kept_boxes(boxes, set, nb);
            &&& kb[k.one as int] == boxes[links[l].one as int]
            &&& kb[k.two as int] == boxes[links[l].two as int]
            &&& k.link_type == links[l].link_type
        } by {
        assert(links[l].one < nb && links[l].two < nb);
        let a = links[l].one;
        let b = links[l].two;
        assert(kept_boxes(boxes, set, nb)[new_box_index(set, nb, a) as int] == boxes[a as int]);
        assert(kept_boxes(boxes, set, nb)[new_box_index(set, nb, b) as int] == boxes[b as int]);
    }
}

/// Deleting boxes from a valid frame leaves a valid frame: every link and
/// every draw order entry refers to a box or link that still exists.
pub proof fn law_delete_keeps_frame_valid<C>(f: ActionFrame<C>, set: Set<usize>)
    requires
        f.wf(),
    ensures
        crate::frame::links_wf(
            kept_links(f.colbox_links@, set, f.colboxes@.len() as int, f.colbox_links@.len() as int),
            kept_boxes(f.colboxes@, set, f.colboxes@.len() as int).len(),
        ),
        crate::frame::order_wf(
            kept_order(
                f.render_order@,
                f.colbox_links@,
                set,
                f.colboxes@.len() as int,
                f.render_order@.len() as int,
            ),
            kept_boxes(f.colboxes@, set, f.colboxes@.len() as int).len(),
            kept_links(f.colbox_links@, set, f.colboxes@.len() as int, f.colbox_links@.len() as int).len(),
        ),
{
    let boxes = f.colboxes@;
    let links = f.colbox_links@;
    let nb = boxes.len() as int;
    let nl = links.len() as int;
    lemma_kept_boxes(boxes, set, nb, nb);
    lemma_kept_links(links, set, nb, nl);
    lemma_kept_order_wf(f.render_order@, links, set, nb, f.render_order@.len() as int);
    let kl = kept_links(links, set, nb, nl);
    assert forall|k: int| 0 <= k < kl.len() implies #[trigger] kl[k].one < nb - count_below(set, nb, nb)
        && kl[k].two < nb - count_below(set, nb, nb) by {
        lemma_kept_link_source(links, set, nb, nl, k);
        let l = choose|l: int|
            0 <= l < nl && !link_deleted(links[l], set) && l - deleted_links_below(links, set, l) == k;
        let a = links[l].one;
        let b = links[l].two;
        assert(a < nb && b < nb);
        lemma_new_box_index(set, nb, a, nb);
        lemma_new_box_index(set, nb, b, nb);
    }
}

/// Every kept link comes from a surviving link.
proof fn lemma_kept_link_source(links: Seq<CollisionBoxLink>, set: Set<usize>, nb: int, n: int, k: int)
    requires
        0 <= n <= links.len(),
        0 <= k < kept_links(links, set, nb, n).len(),
    ensures
        exists|l: int|
            0 <= l < n && !link_deleted(links[l], set) && l - deleted_links_below(links, set, l) == k,
    decreases n,
{
    lemma_kept_links(links, set, nb, n);
    if n > 0 {
        if k < kept_links(links, set, nb, n - 1).len() {
            lemma_kept_link_source(links, set, nb, n - 1, k);
            let l = choose|l: int|
                0 <= l < n - 1 && !link_deleted(links[l], set) && l - deleted_links_below(links, set, l)
                    == k;
            assert(0 <= l < n && !link_deleted(links[l], set) && l - deleted_links_below(links, set, l)
                == k);
        } else {
            lemma_kept_links(links, set, nb, n - 1);
            let l = n - 1;
            assert(0 <= l < n && !link_deleted(links[l], set) && l - deleted_links_below(links, set, l)
                == k);
        }
    }
}

} // verus!
