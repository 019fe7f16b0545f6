use std::collections::HashSet;

use pf_sandbox::fighter::{CollisionBoxLink, LinkType, RenderOrder};
use pf_sandbox::frame::{ActionFrame, ColboxOrLink};

fn link(one: usize, two: usize) -> CollisionBoxLink {
    CollisionBoxLink { one, two, link_type: LinkType::Simple }
}

fn frame(boxes: Vec<u32>, links: Vec<CollisionBoxLink>, order: Vec<RenderOrder>) -> ActionFrame<u32> {
    let mut f: ActionFrame<u32> = ActionFrame::default_frame();
    f.colboxes = boxes;
    f.colbox_links = links;
    f.render_order = order;
    f
}

#[test]
fn link_queries() {
    let l = link(2, 5);
    assert!(l.equals(2, 5));
    assert!(l.equals(5, 2));
    assert!(!l.equals(2, 4));
    assert!(l.contains(5));
    assert!(!l.contains(3));
    let d = l.dec_greater_than(3);
    assert_eq!((d.one, d.two), (2, 4));
    assert_eq!(RenderOrder::Colbox(4).dec_greater_than(2), RenderOrder::Colbox(3));
    assert_eq!(RenderOrder::Link(1).dec_greater_than(2), RenderOrder::Link(1));
    assert_eq!(LinkType::default_link(), LinkType::MeldFirst);
    assert_eq!(RenderOrder::default_order(), RenderOrder::Colbox(0));
}

#[test]
fn default_frame_flags() {
    let f: ActionFrame<u32> = ActionFrame::default_frame();
    assert!(f.colboxes.is_empty() && f.colbox_links.is_empty() && f.render_order.is_empty());
    assert!(f.pass_through);
    assert!(f.ledge_cancel);
    assert!(!f.use_platform_angle);
    assert!(!f.force_hitlist_reset);
}

#[test]
fn links_containing_a_box() {
    let f = frame(vec![10, 11, 12], vec![link(0, 1), link(1, 2), link(2, 0)], vec![]);
    assert_eq!(f.get_links_containing_colbox(1), vec![0, 1]);
    assert_eq!(f.get_links_containing_colbox(0), vec![0, 2]);
    assert!(f.is_unlinked(3));
    assert!(!f.is_unlinked(2));
}

#[test]
fn draw_order_puts_loose_boxes_and_unordered_links_first() {
    let f = frame(vec![10, 11, 12, 13], vec![link(0, 1)], vec![RenderOrder::Colbox(3)]);
    assert!(f.is_unordered(&RenderOrder::Colbox(2)));
    assert!(!f.is_unordered(&RenderOrder::Colbox(3)));
    let entries = f.get_colboxes_and_links();
    assert_eq!(entries.len(), 3);
    match entries[0] {
        ColboxOrLink::Colbox(c) => assert_eq!(*c, 12),
        _ => panic!("expected a box"),
    }
    match entries[1] {
        ColboxOrLink::Link(l) => assert_eq!((l.one, l.two), (0, 1)),
        _ => panic!("expected a link"),
    }
    match entries[2] {
        ColboxOrLink::Colbox(c) => assert_eq!(*c, 13),
        _ => panic!("expected a box"),
    }
    let boxes: Vec<u32> = f.get_colboxes().into_iter().copied().collect();
    assert_eq!(boxes, vec![10, 11, 12, 13]);
    let links = f.get_links();
    assert_eq!(links.len(), 1);
}

#[test]
fn deleting_a_box_renumbers_links_and_draw_order() {
    let mut f = frame(
        vec![10, 11, 12, 13],
        vec![link(0, 1), link(1, 2), link(2, 3)],
        vec![RenderOrder::Colbox(0), RenderOrder::Link(1), RenderOrder::Link(2), RenderOrder::Colbox(3)],
    );
    let mut set = HashSet::new();
    set.insert(1usize);
    f.delete_colboxes(&set);
    assert_eq!(f.colboxes, vec![10, 12, 13]);
    assert_eq!(f.colbox_links, vec![link(1, 2)]);
    assert_eq!(
        f.render_order,
        vec![RenderOrder::Colbox(0), RenderOrder::Link(0), RenderOrder::Colbox(2)]
    );
}

#[test]
fn deleting_several_boxes() {
    let mut f = frame(
        vec![1, 2, 3, 4, 5],
        vec![link(0, 4), link(1, 3)],
        vec![RenderOrder::Link(1), RenderOrder::Colbox(2), RenderOrder::Link(0)],
    );
    let mut set = HashSet::new();
    set.insert(0usize);
    set.insert(2usize);
    f.delete_colboxes(&set);
    assert_eq!(f.colboxes, vec![2, 4, 5]);
    assert_eq!(f.colbox_links, vec![link(0, 1)]);
    assert_eq!(f.render_order, vec![RenderOrder::Link(0)]);
}

#[test]
fn appending_a_linked_box() {
    let mut f = frame(vec![10, 11], vec![], vec![]);
    let mut set = HashSet::new();
    set.insert(0usize);
    let i = f.append_colbox(12, &set, LinkType::Simple);
    assert_eq!(i, 2);
    assert_eq!(f.colboxes, vec![10, 11, 12]);
    assert_eq!(f.colbox_links, vec![link(0, 2)]);
    assert_eq!(f.render_order, vec![RenderOrder::Link(0)]);
}

#[test]
fn appending_an_unlinked_box() {
    let mut f = frame(vec![10], vec![], vec![RenderOrder::Colbox(0)]);
    let i = f.append_colbox(20, &HashSet::new(), LinkType::MeldSecond);
    assert_eq!(i, 1);
    assert_eq!(f.render_order, vec![RenderOrder::Colbox(0), RenderOrder::Colbox(1)]);
    assert!(f.colbox_links.is_empty());
}

#[test]
fn sending_to_back_moves_the_links_of_the_box_first() {
    let mut f = frame(vec![1, 2, 3], vec![link(0, 1)], vec![RenderOrder::Colbox(2), RenderOrder::Link(0)]);
    let mut set = HashSet::new();
    set.insert(0usize);
    f.colboxes_send_to_back(&set);
    assert_eq!(f.render_order, vec![RenderOrder::Link(0), RenderOrder::Colbox(2)]);

    let mut set = HashSet::new();
    set.insert(2usize);
    f.colboxes_send_to_back(&set);
    assert_eq!(f.render_order, vec![RenderOrder::Colbox(2), RenderOrder::Link(0)]);
}

#[test]
fn sending_to_front_moves_the_links_of_the_box_last() {
    let mut f = frame(vec![1, 2, 3], vec![link(0, 1)], vec![RenderOrder::Colbox(2), RenderOrder::Link(0)]);
    let mut set = HashSet::new();
    set.insert(2usize);
    f.colboxes_send_to_front(&set);
    assert_eq!(f.render_order, vec![RenderOrder::Link(0), RenderOrder::Colbox(2)]);

    let mut set = HashSet::new();
    set.insert(0usize);
    f.colboxes_send_to_front(&set);
    assert_eq!(
        f.render_order,
        vec![RenderOrder::Colbox(2), RenderOrder::Link(0)]
    );
}

#[test]
fn linked_boxes_are_drawn_only_through_their_links() {
    let f = frame(vec![10, 11, 12], vec![link(0, 1)], vec![RenderOrder::Colbox(1), RenderOrder::Link(0), RenderOrder::Colbox(2)]);
    let entries = f.get_colboxes_and_links();
    assert_eq!(entries.len(), 2);
    match entries[0] {
        ColboxOrLink::Link(l) => assert_eq!((l.one, l.two), (0, 1)),
        _ => panic!("expected a link"),
    }
    match entries[1] {
        ColboxOrLink::Colbox(c) => assert_eq!(*c, 12),
        _ => panic!("expected a box"),
    }
}
