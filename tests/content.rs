use ag::ports::PORT_COLUMN_WIDTH;
use ag::{Connectors, Content, Length, Limits, PortType, Ports, Rectangle, Size, TitleBarArea, UNIT};
use ag::{LayoutNode, LayoutWord, Node, Point};

fn limits(w: i64, h: i64) -> Limits {
    Limits::new(Size::new(0, 0), Size::new(w * UNIT, h * UNIT))
}

fn two_ports() -> Ports {
    let t = PortType::new();
    Ports::new(vec![t], vec![t.fresh()])
}

#[test]
fn port_types_are_fresh() {
    let t = PortType::new();
    assert_eq!(t, PortType(0));
    assert_eq!(t.fresh(), PortType(1));
    assert_ne!(t.fresh(), t);
}

#[test]
fn ports_answer_as_connectors() {
    let p = two_ports();
    assert_eq!(p.input_connections(), 1);
    assert_eq!(p.output_connections(), 1);
    assert_eq!(p.input_port_type(0), Some(PortType(0)));
    assert_eq!(p.output_port_type(0), Some(PortType(1)));
    assert_eq!(p.output_port_type(1), None);
    assert_eq!(p.inputs(), &[PortType(0)]);
    assert_eq!(Ports::empty().input_connections(), 0);
}

#[test]
fn empty_ports_have_no_columns() {
    let p = Ports::empty();
    assert_eq!(p.layout_inputs(&limits(300, 300)), None);
    assert_eq!(p.layout_outputs(&limits(300, 300)), None);
    let c = Content::new(Length::Fill, Length::Fill).ports(Ports::empty());
    let l = c.layout(&limits(300, 300), Size::new(0, 0));
    assert!(!l.wrapped);
    assert_eq!(l.inputs, None);
    assert_eq!(l.outputs, None);
    assert_eq!(l.body_limits, limits(300, 300));
}

#[test]
fn empty_ports_under_a_title_take_no_width() {
    let c = Content::new(Length::Fill, Length::Fill).title_bar().ports(Ports::empty());
    let l = c.layout(&limits(300, 200), Size::new(300 * UNIT, 20 * UNIT));
    assert!(l.wrapped);
    assert_eq!(l.body_limits.max, Size::new(300 * UNIT, 180 * UNIT));
    assert_eq!(l.body_offset, Point::new(0, 20 * UNIT));
}

#[test]
fn port_columns_are_padded() {
    let p = two_ports().padding(5);
    assert_eq!(p.layout_inputs(&limits(300, 100)), Some(Size::new(PORT_COLUMN_WIDTH, 90 * UNIT)));
    assert_eq!(p.layout_inputs(&limits(300, 4)), Some(Size::new(PORT_COLUMN_WIDTH, 0)));
}

#[test]
fn title_ports_and_body_are_placed() {
    let c = Content::new(Length::Fill, Length::Fill).title_bar().ports(two_ports());
    let l = c.layout(&limits(300, 200), Size::new(300 * UNIT, 20 * UNIT));
    assert!(l.wrapped);
    assert_eq!(l.size, Size::new(300 * UNIT, 200 * UNIT));
    assert_eq!(l.title_bar, Some(Rectangle::new(0, 0, 300 * UNIT, 20 * UNIT)));
    assert_eq!(l.inputs, Some(Rectangle::new(0, 20 * UNIT, 40 * UNIT, 180 * UNIT)));
    assert_eq!(l.outputs, Some(Rectangle::new(260 * UNIT, 20 * UNIT, 40 * UNIT, 180 * UNIT)));
    assert_eq!(l.body_limits.max, Size::new(220 * UNIT, 180 * UNIT));
    assert_eq!(l.body_offset, Point::new(40 * UNIT, 20 * UNIT));
    assert_eq!(l.title_bar_index(), Some(0));
    assert_eq!(l.body_index(), Some(3));
}

#[test]
fn fixed_body_sets_the_box() {
    let c = Content::new(Length::Units(100), Length::Units(50)).title_bar();
    assert_eq!(c.title_bar_limits(&limits(300, 300)).max, Size::new(100 * UNIT, 50 * UNIT));
    let l = c.layout(&limits(300, 300), Size::new(100 * UNIT, 10 * UNIT));
    assert_eq!(l.size, Size::new(100 * UNIT, 50 * UNIT));
    assert_eq!(l.body_limits.max, Size::new(100 * UNIT, 40 * UNIT));
    assert_eq!(l.body_index(), Some(1));
}

#[test]
fn ports_without_title_use_the_full_height() {
    let t = PortType::new();
    let c = Content::new(Length::Fill, Length::Fill).ports(Ports::new(vec![t, t], vec![]));
    let l = c.layout(&limits(300, 200), Size::new(0, 0));
    assert!(l.wrapped);
    assert_eq!(l.title_bar, None);
    assert_eq!(l.inputs, Some(Rectangle::new(0, 0, 40 * UNIT, 200 * UNIT)));
    assert_eq!(l.outputs, None);
    assert_eq!(l.body_limits.max, Size::new(260 * UNIT, 200 * UNIT));
    assert_eq!(l.body_offset, Point::new(40 * UNIT, 0));
    assert_eq!(l.title_bar_index(), None);
    assert_eq!(l.body_index(), Some(1));
}

#[test]
fn narrow_box_leaves_the_body_no_width() {
    let c = Content::new(Length::Units(50), Length::Fill).ports(two_ports());
    let l = c.layout(&limits(300, 200), Size::new(0, 0));
    assert_eq!(l.body_limits.max.width, 0);
}

#[test]
fn bare_body_is_the_node() {
    let c = Content::new(Length::Fill, Length::Fill);
    let l = c.layout(&limits(300, 200), Size::new(0, 0));
    assert!(!l.wrapped);
    assert_eq!(l.body_index(), None);
    assert_eq!(l.body_offset, Point::new(0, 0));
}

#[test]
fn only_the_title_bar_picks_up() {
    let area = TitleBarArea {
        bounds: Rectangle::new(0, 0, 100 * UNIT, 20 * UNIT),
        controls: Some(Rectangle::new(80 * UNIT, 0, 20 * UNIT, 20 * UNIT)),
    };
    let titled = Content::new(Length::Fill, Length::Fill).title_bar();
    assert!(titled.can_be_picked_at(&area, Point::from_units(10, 10)));
    assert!(!titled.can_be_picked_at(&area, Point::from_units(90, 10)));
    assert!(!titled.can_be_picked_at(&area, Point::from_units(10, 30)));
    let bare = Content::new(Length::Fill, Length::Fill);
    assert!(!bare.can_be_picked_at(&area, Point::from_units(10, 10)));
}

#[test]
fn rectangle_contains_its_edges() {
    let r = Rectangle::new(0, 0, 10, 10);
    assert!(r.contains(Point::new(10, 10)));
    assert!(r.contains(Point::new(0, 0)));
    assert!(!r.contains(Point::new(11, 5)));
    assert!(!r.contains(Point::new(-1, 5)));
}

#[test]
fn layout_node_push_and_first() {
    let one = LayoutNode::Node(Node::new(0));
    assert_eq!(one.node(), Some(Node::new(0)));
    let two = LayoutNode::push(one, Node::new(1));
    assert_eq!(two.node(), None);
    assert_eq!(two.first_node(), Node::new(0));
    let three = LayoutNode::push(two, Node::new(2));
    assert_eq!(three.layout_words().len(), 3);
}

#[test]
fn port_words_list_padding_and_types() {
    assert_eq!(
        two_ports().padding(3).hash_layout(),
        vec![LayoutWord::Units(3), LayoutWord::Index(0), LayoutWord::Index(1)]
    );
}
