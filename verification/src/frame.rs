//! One frame of a fighter action: its collision boxes, the links between
//! them, and the explicit draw order.

use vstd::prelude::*;
use crate::fighter::{CollisionBoxLink, RenderOrder, LinkType};

verus! {

/// A frame of an action. `C` is the collision box type; the frame only
/// refers to boxes by their index in `colboxes`.
///
/// Boxes and links that do not appear in `render_order` are drawn first,
/// in index order, followed by the entries of `render_order`.
pub struct ActionFrame<C> {
    pub colboxes: Vec<C>,
    pub colbox_links: Vec<CollisionBoxLink>,
    pub render_order: Vec<RenderOrder>,
    /// only used on aerial actions
    pub pass_through: bool,
    /// only used on ground actions
    pub ledge_cancel: bool,
    /// only used on ground actions
    pub use_platform_angle: bool,
    pub force_hitlist_reset: bool,
}

/// A drawable element of a frame.
pub enum ColboxOrLink<'a, C> {
    Colbox(&'a C),
    Link(&'a CollisionBoxLink),
}

/// Whether a drawn element is the box or link that a draw entry names.
pub open spec fn refers_to<'a, C>(
    item: ColboxOrLink<'a, C>,
    entry: RenderOrder,
    boxes: Seq<C>,
    links: Seq<CollisionBoxLink>,
) -> bool {
    match entry {
        RenderOrder::Colbox(i) => match item {
            ColboxOrLink::Colbox(c) => *c == boxes[i as int],
            ColboxOrLink::Link(_) => false,
        },
        RenderOrder::Link(l) => match item {
            ColboxOrLink::Link(k) => *k == links[l as int],
            ColboxOrLink::Colbox(_) => false,
        },
    }
}

/// Every link joins two boxes that exist.
pub open spec fn links_wf(links: Seq<CollisionBoxLink>, n: nat) -> bool {
    forall|k: int| 0 <= k < links.len() ==> #[trigger] links[k].one < n && links[k].two < n
}

/// Every draw order entry refers to a box or link that exists.
pub open spec fn order_wf(order: Seq<RenderOrder>, n: nat, nl: nat) -> bool {
    forall|k: int|
        0 <= k < order.len() ==> match #[trigger] order[k] {
            RenderOrder::Colbox(i) => i < n,
            RenderOrder::Link(l) => l < nl,
        }
}

/// The boxes below `n` that have no entry of their own in the draw order, ascending.
pub open spec fn unordered_boxes(order: Seq<RenderOrder>, n: usize) -> Seq<usize>
    decreases n,
{
    if n == 0 {
        seq![]
    } else {
        let p = unordered_boxes(order, (n - 1) as usize);
        if order.contains(RenderOrder::Colbox((n - 1) as usize)) {
            p
        } else {
            p.push((n - 1) as usize)
        }
    }
}

/// The links below `n` that have no entry of their own in the draw order, ascending.
pub open spec fn unordered_links(order: Seq<RenderOrder>, n: usize) -> Seq<usize>
    decreases n,
{
    if n == 0 {
        seq![]
    } else {
        let p = unordered_links(order, (n - 1) as usize);
        if order.contains(RenderOrder::Link((n - 1) as usize)) {
            p
        } else {
            p.push((n - 1) as usize)
        }
    }
}

/// Every box entry of the draw order names an existing box.
pub open spec fn box_entries_wf(order: Seq<RenderOrder>, n: nat) -> bool {
    forall|k: int| 0 <= k < order.len() ==> (#[trigger] order[k] matches RenderOrder::Colbox(i) ==> i < n)
}

/// Every link entry of the draw order names an existing link.
pub open spec fn link_entries_valid(order: Seq<RenderOrder>, nl: nat) -> bool {
    forall|k: int| 0 <= k < order.len() ==> (#[trigger] order[k] matches RenderOrder::Link(l) ==> l < nl)
}

/// The entries of the draw order that are drawn: links, and boxes that no
/// link refers to (a linked box is drawn as part of its links).
pub open spec fn drawn_entries(order: Seq<RenderOrder>, links: Seq<CollisionBoxLink>) -> Seq<RenderOrder>
    decreases order.len(),
{
    if order.len() == 0 {
        seq![]
    } else {
        let p = drawn_entries(order.drop_last(), links);
        match order.last() {
            RenderOrder::Colbox(c) => if box_unlinked(links, c) {
                p.push(order.last())
            } else {
                p
            },
            RenderOrder::Link(_) => p.push(order.last()),
        }
    }
}

/// Whether no link refers to box `i`.
pub open spec fn box_unlinked(links: Seq<CollisionBoxLink>, i: usize) -> bool {
    forall|k: int| 0 <= k < links.len() ==> !(#[trigger] links[k]).spec_contains(i)
}

/// The boxes below `n` that are neither ordered nor linked, ascending, as draw entries.
pub open spec fn loose_boxes(order: Seq<RenderOrder>, links: Seq<CollisionBoxLink>, n: usize) -> Seq<
    RenderOrder,
>
    decreases n,
{
    if n == 0 {
        seq![]
    } else {
        let p = loose_boxes(order, links, (n - 1) as usize);
        let i = (n - 1) as usize;
        if !order.contains(RenderOrder::Colbox(i)) && box_unlinked(links, i) {
            p.push(RenderOrder::Colbox(i))
        } else {
            p
        }
    }
}

/// The boxes named by the draw order, in draw order.
pub open spec fn ordered_boxes(order: Seq<RenderOrder>) -> Seq<usize>
    decreases order.len(),
{
    if order.len() == 0 {
        seq![]
    } else {
        let p = ordered_boxes(order.drop_last());
        match order.last() {
            RenderOrder::Colbox(i) => p.push(i),
            RenderOrder::Link(_) => p,
        }
    }
}

/// The links named by the draw order, in draw order.
pub open spec fn ordered_links(order: Seq<RenderOrder>) -> Seq<usize>
    decreases order.len(),
{
    if order.len() == 0 {
        seq![]
    } else {
        let p = ordered_links(order.drop_last());
        match order.last() {
            RenderOrder::Colbox(_) => p,
            RenderOrder::Link(l) => p.push(l),
        }
    }
}

/// Indexes of the links that refer to box `c`, among the first `n` links, ascending.
pub open spec fn links_containing(links: Seq<CollisionBoxLink>, c: usize, n: int) -> Seq<usize>
    decreases n,
{
    if n <= 0 {
        seq![]
    } else {
        let p = links_containing(links, c, n - 1);
        if links[n - 1].spec_contains(c) {
            p.push((n - 1) as usize)
        } else {
            p
        }
    }
}

impl<C> ActionFrame<C> {
    /// Links and draw order entries only refer to existing boxes and links.
    pub open spec fn wf(&self) -> bool {
        &&& links_wf(self.colbox_links@, self.colboxes@.len())
        &&& order_wf(self.render_order@, self.colboxes@.len(), self.colbox_links@.len())
    }

    /// The indexes of the boxes in the order they are drawn.
    pub open spec fn box_draw_order(&self) -> Seq<usize> {
        unordered_boxes(self.render_order@, self.colboxes@.len() as usize) + ordered_boxes(
            self.render_order@,
        )
    }

    /// The indexes of the links in the order they are drawn.
    pub open spec fn link_draw_order(&self) -> Seq<usize> {
        unordered_links(self.render_order@, self.colbox_links@.len() as usize) + ordered_links(
            self.render_order@,
        )
    }

    /// Every drawn element in draw order; boxes that belong to a link are
    /// drawn only as part of the link.
    pub open spec fn draw_entries(&self) -> Seq<RenderOrder> {
        loose_boxes(self.render_order@, self.colbox_links@, self.colboxes@.len() as usize)
            + unordered_links(self.render_order@, self.colbox_links@.len() as usize).map_values(
            |l: usize| RenderOrder::Link(l),
        ) + drawn_entries(self.render_order@, self.colbox_links@)
    }

    /// A frame with no boxes and the default flags.
    pub fn default_frame() -> (f: ActionFrame<C>)
        ensures
            f.colboxes@.len() == 0,
            f.colbox_links@.len() == 0,
            f.render_order@.len() == 0,
            f.pass_through,
            f.ledge_cancel,
            !f.use_platform_angle,
            !f.force_hitlist_reset,
            f.wf(),
    {
        ActionFrame {
            colboxes: Vec::new(),
            colbox_links: Vec::new(),
            render_order: Vec::new(),
            pass_through: true,
            ledge_cancel: true,
            use_platform_angle: false,
            force_hitlist_reset: false,
        }
    }

    /// Whether `check_order` has no entry in the draw order.
    pub fn is_unordered(&self, check_order: &RenderOrder) -> (r: bool)
        ensures
            r == !self.render_order@.contains(*check_order),
    {
        let mut k: usize = 0;
        while k < self.render_order.len()
            invariant
                0 <= k <= self.render_order@.len(),
                forall|j: int| 0 <= j < k ==> self.render_order@[j] != *check_order,
            decreases self.render_order@.len() - k,
        {
            if *check_order == self.render_order[k] {
                return false;
            }
            k = k + 1;
        }
        true
    }

    /// Whether no link refers to box `i`.
    pub fn is_unlinked(&self, i: usize) -> (r: bool)
        ensures
            r == box_unlinked(self.colbox_links@, i),
    {
        let mut k: usize = 0;
        while k < self.colbox_links.len()
            invariant
                0 <= k <= self.colbox_links@.len(),
                forall|j: int| 0 <= j < k ==> !(#[trigger] self.colbox_links@[j]).spec_contains(i),
            decreases self.colbox_links@.len() - k,
        {
            if self.colbox_links[k].one == i || self.colbox_links[k].two == i {
                return false;
            }
            k = k + 1;
        }
        true
    }

    /// Indexes of the links that refer to box `colbox_i`, ascending.
    pub fn get_links_containing_colbox(&self, colbox_i: usize) -> (r: Vec<usize>)
        ensures
            r@ == links_containing(self.colbox_links@, colbox_i, self.colbox_links@.len() as int),
    {
        let mut result: Vec<usize> = Vec::new();
        let mut k: usize = 0;
        while k < self.colbox_links.len()
            invariant
                0 <= k <= self.colbox_links@.len(),
                result@ == links_containing(self.colbox_links@, colbox_i, k as int),
            decreases self.colbox_links@.len() - k,
        {
            let link = self.colbox_links[k];
            if link.one == colbox_i || link.two == colbox_i {
                result.push(k);
            }
            k = k + 1;
        }
        result
    }

    /// The boxes in the order they are drawn.
    pub fn get_colboxes(&self) -> (r: Vec<&C>)
        requires
            box_entries_wf(self.render_order@, self.colboxes@.len()),
        ensures
            r@.len() == self.box_draw_order().len(),
            forall|j: int|
                0 <= j < r@.len() ==> *r@[j] == self.colboxes@[#[trigger] self.box_draw_order()[j] as int],
    {
        let mut result: Vec<&C> = Vec::new();
        let ghost order = self.render_order@;
        let mut i: usize = 0;
        while i < self.colboxes.len()
            invariant
                0 <= i <= self.colboxes@.len(),
                order == self.render_order@,
                result@.len() == unordered_boxes(order, i).len(),
                forall|j: int|
                    0 <= j < result@.len() ==> *result@[j] == self.colboxes@[#[trigger] unordered_boxes(order, i)[j] as int],
                forall|j: int| 0 <= j < unordered_boxes(order, i).len() ==> #[trigger] unordered_boxes(order, i)[j] < i,
            decreases self.colboxes@.len() - i,
        {
            proof {
                reveal_with_fuel(unordered_boxes, 2);
            }
            if self.is_unordered(&RenderOrder::Colbox(i)) {
                result.push(&self.colboxes[i]);
            }
            i = i + 1;
        }
        let ghost base = result@.len();
        let mut k: usize = 0;
        while k < self.render_order.len()
            invariant
                0 <= k <= self.render_order@.len(),
                order == self.render_order@,
                box_entries_wf(order, self.colboxes@.len()),
                base == unordered_boxes(order, self.colboxes@.len() as usize).len(),
                result@.len() == base + ordered_boxes(order.take(k as int)).len(),
                forall|j: int|
                    0 <= j < base ==> *result@[j] == self.colboxes@[#[trigger] unordered_boxes(order, self.colboxes@.len() as usize)[j] as int],
                forall|j: int|
                    0 <= j < ordered_boxes(order.take(k as int)).len() ==> *result@[base + j] == self.colboxes@[#[trigger] ordered_boxes(order.take(k as int))[j] as int],
            decreases self.render_order@.len() - k,
        {
            proof {
                assert(order.take(k + 1).drop_last() =~= order.take(k as int));
            }
            match self.render_order[k] {
                RenderOrder::Colbox(index) => {
                    result.push(&self.colboxes[index]);
                },
                RenderOrder::Link(_) => {},
            }
            k = k + 1;
        }
        proof {
            assert(order.take(order.len() as int) =~= order);
        }
        result
    }

    /// The links in the order they are drawn.
    pub fn get_links(&self) -> (r: Vec<&CollisionBoxLink>)
        requires
            link_entries_valid(self.render_order@, self.colbox_links@.len()),
        ensures
            r@.len() == self.link_draw_order().len(),
            forall|j: int|
                0 <= j < r@.len() ==> *r@[j] == self.colbox_links@[#[trigger] self.link_draw_order()[j] as int],
    {
        let mut result: Vec<&CollisionBoxLink> = Vec::new();
        let ghost order = self.render_order@;
        let mut i: usize = 0;
        while i < self.colbox_links.len()
            invariant
                0 <= i <= self.colbox_links@.len(),
                order == self.render_order@,
                result@.len() == unordered_links(order, i).len(),
                forall|j: int|
                    0 <= j < result@.len() ==> *result@[j] == self.colbox_links@[#[trigger] unordered_links(order, i)[j] as int],
                forall|j: int| 0 <= j < unordered_links(order, i).len() ==> #[trigger] unordered_links(order, i)[j] < i,
            decreases self.colbox_links@.len() - i,
        {
            proof {
                reveal_with_fuel(unordered_links, 2);
            }
            if self.is_unordered(&RenderOrder::Link(i)) {
                result.push(&self.colbox_links[i]);
            }
            i = i + 1;
        }
        let ghost base = result@.len();
        let mut k: usize = 0;
        while k < self.render_order.len()
            invariant
                0 <= k <= self.render_order@.len(),
                order == self.render_order@,
                link_entries_valid(order, self.colbox_links@.len()),
                base == unordered_links(order, self.colbox_links@.len() as usize).len(),
                result@.len() == base + ordered_links(order.take(k as int)).len(),
                forall|j: int|
                    0 <= j < base ==> *result@[j] == self.colbox_links@[#[trigger] unordered_links(order, self.colbox_links@.len() as usize)[j] as int],
                forall|j: int|
                    0 <= j < ordered_links(order.take(k as int)).len() ==> *result@[base + j] == self.colbox_links@[#[trigger] ordered_links(order.take(k as int))[j] as int],
            decreases self.render_order@.len() - k,
        {
            proof {
                assert(order.take(k + 1).drop_last() =~= order.take(k as int));
            }
            match self.render_order[k] {
                RenderOrder::Colbox(_) => {},
                RenderOrder::Link(index) => {
                    result.push(&self.colbox_links[index]);
                },
            }
            k = k + 1;
        }
        proof {
            assert(order.take(order.len() as int) =~= order);
        }
        result
    }

    /// Every drawn element in draw order: the boxes that are neither
    /// ordered nor linked, then the unordered links, then the draw order.
    /// Boxes referenced by a link are not included individually.
    pub fn get_colboxes_and_links(&self) -> (r: Vec<ColboxOrLink<'_, C>>)
        requires
            order_wf(self.render_order@, self.colboxes@.len(), self.colbox_links@.len()),
        ensures
            r@.len() == self.draw_entries().len(),
            forall|j: int|
                0 <= j < r@.len() ==> refers_to(r@[j], #[trigger] self.draw_entries()[j], self.colboxes@, self.colbox_links@),
    {
        let mut result: Vec<ColboxOrLink<'_, C>> = Vec::new();
        let ghost order = self.render_order@;
        let ghost links = self.colbox_links@;
        let ghost boxes = self.colboxes@;
        let ghost n = self.colboxes@.len() as usize;
        let ghost nl = self.colbox_links@.len() as usize;
        let mut i: usize = 0;
        while i < self.colboxes.len()
            invariant
                0 <= i <= self.colboxes@.len(),
                order == self.render_order@,
                links == self.colbox_links@,
                boxes == self.colboxes@,
                result@.len() == loose_boxes(order, links, i).len(),
                forall|j: int|
                    0 <= j < result@.len() ==> refers_to(result@[j], #[trigger] loose_boxes(order, links, i)[j], boxes, links),
            decreases self.colboxes@.len() - i,
        {
            proof {
                reveal_with_fuel(loose_boxes, 2);
            }
            if self.is_unordered(&RenderOrder::Colbox(i)) && self.is_unlinked(i) {
                result.push(ColboxOrLink::Colbox(&self.colboxes[i]));
            }
            i = i + 1;
        }
        let ghost base1 = result@.len();
        let mut l: usize = 0;
        while l < self.colbox_links.len()
            invariant
                0 <= l <= self.colbox_links@.len(),
                order == self.render_order@,
                links == self.colbox_links@,
                boxes == self.colboxes@,
                n == self.colboxes@.len(),
                base1 == loose_boxes(order, links, n).len(),
                result@.len() == base1 + unordered_links(order, l).len(),
                forall|j: int|
                    0 <= j < base1 ==> refers_to(result@[j], #[trigger] loose_boxes(order, links, n)[j], boxes, links),
                forall|j: int|
                    0 <= j < unordered_links(order, l).len() ==> #[trigger] unordered_links(order, l)[j] < l
                        && refers_to(result@[base1 + j], RenderOrder::Link(unordered_links(order, l)[j]), boxes, links),
            decreases self.colbox_links@.len() - l,
        {
            proof {
                reveal_with_fuel(unordered_links, 2);
            }
            if self.is_unordered(&RenderOrder::Link(l)) {
                result.push(ColboxOrLink::Link(&self.colbox_links[l]));
            }
            l = l + 1;
        }
        let ghost base2 = result@.len();
        let mut k: usize = 0;
        while k < self.render_order.len()
            invariant
                0 <= k <= self.render_order@.len(),
                order == self.render_order@,
                links == self.colbox_links@,
                boxes == self.colboxes@,
                n == self.colboxes@.len(),
                nl == self.colbox_links@.len(),
                order_wf(order, n as nat, nl as nat),
                base1 == loose_boxes(order, links, n).len(),
                base2 == base1 + unordered_links(order, nl).len(),
                result@.len() == base2 + drawn_entries(order.take(k as int), links).len(),
                forall|j: int|
                    0 <= j < base1 ==> refers_to(result@[j], #[trigger] loose_boxes(order, links, n)[j], boxes, links),
                forall|j: int|
                    0 <= j < unordered_links(order, nl).len() ==> refers_to(result@[base1 + j], RenderOrder::Link(#[trigger] unordered_links(order, nl)[j]), boxes, links),
                forall|j: int|
                    0 <= j < drawn_entries(order.take(k as int), links).len() ==> refers_to(
                        result@[base2 + j],
                        #[trigger] drawn_entries(order.take(k as int), links)[j],
                        boxes,
                        links,
                    ),
            decreases self.render_order@.len() - k,
        {
            proof {
                assert(order.take(k + 1).drop_last() =~= order.take(k as int));
                assert(order.take(k + 1).last() == order[k as int]);
            }
            match self.render_order[k] {
                RenderOrder::Colbox(index) => {
                    if self.is_unlinked(index) {
                        result.push(ColboxOrLink::Colbox(&self.colboxes[index]));
                    }
                },
                RenderOrder::Link(index) => {
                    result.push(ColboxOrLink::Link(&self.colbox_links[index]));
                },
            }
            k = k + 1;
        }
        proof {
            assert(order.take(order.len() as int) =~= order);
            let e = self.draw_entries();
            let ul = unordered_links(order, nl).map_values(|x: usize| RenderOrder::Link(x));
            let de = drawn_entries(order, links);
            assert(e =~= loose_boxes(order, links, n) + ul + de);
            assert forall|j: int| 0 <= j < result@.len() implies refers_to(result@[j], #[trigger] e[j], boxes, links) by {
                if j < base1 {
                    assert(e[j] == loose_boxes(order, links, n)[j]);
                } else if j < base2 {
                    assert(e[j] == ul[j - base1]);
                    assert(ul[j - base1] == RenderOrder::Link(unordered_links(order, nl)[j - base1]));
                } else {
                    assert(e[j] == de[j - base2]);
                }
            }
        }
        result
    }
}

} // verus!
