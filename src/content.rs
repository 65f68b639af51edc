//! The composition of one node: an optional title bar, optional port
//! columns, and a body, laid out in that order.
use vstd::prelude::*;
use crate::geometry::{floor_zero, Length, Limits, Point, Rectangle, Size};
use crate::ports::{column_size, Ports, PORT_COLUMN_WIDTH};

verus! {

/// The part of a title bar that picks its node up: the bar, less its
/// controls, if it has any.
#[derive(Clone, Copy, Debug, PartialEq, Eq, Structural)]
pub struct TitleBarArea {
    pub bounds: Rectangle,
    pub controls: Option<Rectangle>,
}

impl TitleBarArea {
    pub open spec fn is_over_pick_area_spec(self, cursor: Point) -> bool {
        &&& self.bounds.contains_spec(cursor)
        &&& match self.controls {
            Some(c) => !c.contains_spec(cursor),
            None => true,
        }
    }

    /// Whether a press at `cursor` picks the node up.
    pub fn is_over_pick_area(&self, cursor: Point) -> (r: bool)
        ensures
            r == self.is_over_pick_area_spec(cursor),
    {
        if self.bounds.contains(cursor) {
            match self.controls {
                Some(c) => !c.contains(cursor),
                None => true,
            }
        } else {
            false
        }
    }
}

/// How the parts of a node are placed within it.
///
/// When `wrapped` is false the node is its body alone, laid out within the
/// limits the node was given; otherwise the node has size `size` and its
/// children are, in order, the title bar, the input column, the output
/// column (each if present) and the body.
#[derive(Clone, Copy, Debug, PartialEq, Eq, Structural)]
pub struct ContentLayout {
    pub wrapped: bool,
    pub size: Size,
    pub title_bar: Option<Rectangle>,
    pub inputs: Option<Rectangle>,
    pub outputs: Option<Rectangle>,
    /// The limits to lay the body out within.
    pub body_limits: Limits,
    /// Where the body's top-left corner goes.
    pub body_offset: Point,
}

/// The content of a node, as its layout sees it: whether it has a title bar,
/// its ports, and the lengths its body asks for.
#[derive(Clone, Debug)]
pub struct Content {
    title_bar: bool,
    ports: Option<Ports>,
    body_width: Length,
    body_height: Length,
}

/// The extent along one axis: the body's fixed length, else all there is.
pub open spec fn extent(l: Length, available: i64) -> int {
    match l.fixed_spec() {
        Some(v) => v,
        None => available as int,
    }
}

/// The width a column takes: its own when present, else nothing.
pub open spec fn column_width(column: Option<Rectangle>) -> int {
    match column {
        Some(c) => c.width as int,
        None => 0,
    }
}

impl Content {
    /// A node that is its body alone, which asks for `body_width` by
    /// `body_height`.
    pub fn new(body_width: Length, body_height: Length) -> (r: Self)
        ensures
            !r.has_title_bar(),
            r.ports_spec().is_none(),
            r.body_width_spec() == body_width,
            r.body_height_spec() == body_height,
    {
        Content { title_bar: false, ports: None, body_width, body_height }
    }

    pub closed spec fn has_title_bar(&self) -> bool {
        self.title_bar
    }

    pub closed spec fn ports_spec(&self) -> Option<Ports> {
        self.ports
    }

    pub closed spec fn body_width_spec(&self) -> Length {
        self.body_width
    }

    pub closed spec fn body_height_spec(&self) -> Length {
        self.body_height
    }

    /// Gives the node a title bar.
    pub fn title_bar(self) -> (r: Self)
        ensures
            r.has_title_bar(),
            r.ports_spec() == self.ports_spec(),
            r.body_width_spec() == self.body_width_spec(),
            r.body_height_spec() == self.body_height_spec(),
    {
        Content { title_bar: true, ..self }
    }

    /// Gives the node ports.
    pub fn ports(self, ports: Ports) -> (r: Self)
        ensures
            r.has_title_bar() == self.has_title_bar(),
            r.ports_spec() == Some(ports),
            r.body_width_spec() == self.body_width_spec(),
            r.body_height_spec() == self.body_height_spec(),
    {
        Content { ports: Some(ports), ..self }
    }

    /// Whether the node has any port column to show.
    pub open spec fn has_columns(&self) -> bool {
        match self.ports_spec() {
            Some(p) => p.inputs_spec().len() > 0 || p.outputs_spec().len() > 0,
            None => false,
        }
    }

    /// The size of the node's box within `limits`: the body's fixed lengths,
    /// else all of the limits.
    pub open spec fn box_size(&self, limits: Limits) -> Size {
        Size {
            width: extent(self.body_width_spec(), limits.max.width) as i64,
            height: extent(self.body_height_spec(), limits.max.height) as i64,
        }
    }

    /// The limits to measure the title bar within.
    pub fn title_bar_limits(&self, limits: &Limits) -> (r: Limits)
        ensures
            r == (Limits { min: Size { width: 0, height: 0 }, max: self.box_size(*limits) }),
    {
        Limits { min: Size { width: 0, height: 0 }, max: self.box_size_exec(limits) }
    }

    fn box_size_exec(&self, limits: &Limits) -> (r: Size)
        ensures
            r == self.box_size(*limits),
    {
        let width = match self.body_width.fixed() {
            Some(w) => w,
            None => limits.max.width,
        };
        let height = match self.body_height.fixed() {
            Some(h) => h,
            None => limits.max.height,
        };
        Size { width, height }
    }

    /// Lays the node out within `limits`, its title bar, if it has one,
    /// measured at `title_bar_size`.
    ///
    /// The title bar sits at the top left. Each port column that has ports
    /// is `PORT_COLUMN_WIDTH` wide and spans the height below the title bar,
    /// the inputs at the left edge and the outputs at the right. The body
    /// takes what is left and sits right of the inputs, below the title bar.
    /// A column without ports takes no room at all.
    pub fn layout(&self, limits: &Limits, title_bar_size: Size) -> (r: ContentLayout)
        requires
            limits.max.width >= 0,
            limits.max.height >= 0,
            title_bar_size.width >= 0,
            title_bar_size.height >= 0,
        ensures
            ({
                let size = self.box_size(*limits);
                let top: int = if self.has_title_bar() { title_bar_size.height as int } else { 0 };
                let col = column_size(size.height - top, match self.ports_spec() {
                    Some(p) => p.padding_spec(),
                    None => 0u16,
                });
                let has_inputs = match self.ports_spec() {
                    Some(p) => p.inputs_spec().len() > 0,
                    None => false,
                };
                let has_outputs = match self.ports_spec() {
                    Some(p) => p.outputs_spec().len() > 0,
                    None => false,
                };
                &&& r.wrapped == (self.has_title_bar() || self.has_columns())
                &&& r.wrapped ==> r.size == size
                &&& r.title_bar == (if self.has_title_bar() {
                    Some(
                        Rectangle {
                            x: 0,
                            y: 0,
                            width: title_bar_size.width,
                            height: title_bar_size.height,
                        },
                    )
                } else {
                    None
                })
                &&& r.inputs == (if has_inputs {
                    Some(Rectangle { x: 0, y: top as i64, width: col.width, height: col.height })
                } else {
                    None
                })
                &&& r.outputs == (if has_outputs {
                    Some(
                        Rectangle {
                            x: (size.width - PORT_COLUMN_WIDTH) as i64,
                            y: top as i64,
                            width: col.width,
                            height: col.height,
                        },
                    )
                } else {
                    None
                })
                &&& r.wrapped ==> r.body_limits == (Limits {
                    min: Size { width: 0, height: 0 },
                    max: Size {
                        width: floor_zero(
                            size.width - column_width(r.inputs) - column_width(r.outputs),
                        ) as i64,
                        height: floor_zero(size.height - top) as i64,
                    },
                })
                &&& r.wrapped ==> r.body_offset == (Point {
                    x: column_width(r.inputs) as i64,
                    y: top as i64,
                })
                &&& !r.wrapped ==> r.body_limits == *limits && r.body_offset == (Point {
                    x: 0,
                    y: 0,
                })
            }),
    {
        let size = self.box_size_exec(limits);
        let top: i64 = if self.title_bar {
            title_bar_size.height
        } else {
            0
        };
        let title_bar = if self.title_bar {
            Some(
                Rectangle { x: 0, y: 0, width: title_bar_size.width, height: title_bar_size.height },
            )
        } else {
            None
        };
        let below = size.height as i128 - top as i128;
        let column_limits = Limits {
            min: Size { width: 0, height: 0 },
            max: Size { width: size.width, height: below as i64 },
        };
        let (inputs, outputs) = match &self.ports {
            Some(p) => {
                let inputs = match p.layout_inputs(&column_limits) {
                    Some(s) => Some(Rectangle { x: 0, y: top, width: s.width, height: s.height }),
                    None => None,
                };
                let outputs = match p.layout_outputs(&column_limits) {
                    Some(s) => Some(
                        Rectangle {
                            x: size.width - PORT_COLUMN_WIDTH,
                            y: top,
                            width: s.width,
                            height: s.height,
                        },
                    ),
                    None => None,
                };
                (inputs, outputs)
            },
            None => (None, None),
        };
        let wrapped = self.title_bar || inputs.is_some() || outputs.is_some();
        if !wrapped {
            return ContentLayout {
                wrapped,
                size,
                title_bar,
                inputs,
                outputs,
                body_limits: *limits,
                body_offset: Point { x: 0, y: 0 },
            };
        }
        let left: i64 = match inputs {
            Some(c) => c.width,
            None => 0,
        };
        let right: i64 = match outputs {
            Some(c) => c.width,
            None => 0,
        };
        let rest = size.width as i128 - left as i128 - right as i128;
        let body_width: i64 = if rest < 0 {
            0
        } else {
            rest as i64
        };
        let body_height: i64 = if below < 0 {
            0
        } else {
            below as i64
        };
        ContentLayout {
            wrapped,
            size,
            title_bar,
            inputs,
            outputs,
            body_limits: Limits {
                min: Size { width: 0, height: 0 },
                max: Size { width: body_width, height: body_height },
            },
            body_offset: Point { x: left, y: top },
        }
    }

    /// Whether a press at `cursor` picks the node up: only over the pick
    /// area of its title bar, so never for a node without one.
    pub fn can_be_picked_at(&self, title_bar: &TitleBarArea, cursor: Point) -> (r: bool)
        ensures
            r == (self.has_title_bar() && title_bar.is_over_pick_area_spec(cursor)),
    {
        self.title_bar && title_bar.is_over_pick_area(cursor)
    }
}

impl ContentLayout {
    /// The number of children of the node, when it is wrapped.
    pub open spec fn child_count(self) -> nat {
        (if self.title_bar.is_some() { 1nat } else { 0nat }) + (if self.inputs.is_some() {
            1nat
        } else {
            0nat
        }) + (if self.outputs.is_some() { 1nat } else { 0nat }) + 1
    }

    /// Where the title bar is among the node's children.
    pub fn title_bar_index(&self) -> (r: Option<usize>)
        ensures
            r == (if self.wrapped && self.title_bar.is_some() { Some(0usize) } else { None }),
    {
        if self.wrapped && self.title_bar.is_some() {
            Some(0)
        } else {
            None
        }
    }

    /// Where the input column is among the node's children.
    pub fn input_index(&self) -> (r: Option<usize>)
        ensures
            r == (if self.wrapped && self.inputs.is_some() {
                Some((if self.title_bar.is_some() { 1usize } else { 0usize }))
            } else {
                None
            }),
    {
        if self.wrapped && self.inputs.is_some() {
            Some(if self.title_bar.is_some() { 1 } else { 0 })
        } else {
            None
        }
    }

    /// Where the output column is among the node's children.
    pub fn output_index(&self) -> (r: Option<usize>)
        ensures
            r == (if self.wrapped && self.outputs.is_some() {
                Some(
                    ((if self.title_bar.is_some() { 1nat } else { 0nat }) + (if self.inputs.is_some() {
                        1nat
                    } else {
                        0nat
                    })) as usize,
                )
            } else {
                None
            }),
    {
        if self.wrapped && self.outputs.is_some() {
            let mut i: usize = 0;
            if self.title_bar.is_some() {
                i += 1;
            }
            if self.inputs.is_some() {
                i += 1;
            }
            Some(i)
        } else {
            None
        }
    }

    /// Where the body is among the node's children; none when the node is
    /// its body.
    pub fn body_index(&self) -> (r: Option<usize>)
        ensures
            r == (if self.wrapped { Some((self.child_count() - 1) as usize) } else { None }),
    {
        if self.wrapped {
            let mut i: usize = 0;
            if self.title_bar.is_some() {
                i += 1;
            }
            if self.inputs.is_some() {
                i += 1;
            }
            if self.outputs.is_some() {
                i += 1;
            }
            Some(i)
        } else {
            None
        }
    }
}

} // verus!
