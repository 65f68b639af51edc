//! The input and output connection points of a node.
use vstd::prelude::*;
use crate::geometry::{floor_zero, Limits, Size, UNIT};
use crate::layout_node::LayoutWord;

verus! {

/// Width of the column that holds a node's inputs or its outputs.
pub const PORT_COLUMN_WIDTH: i64 = 40 * UNIT;

/// A tag for the kind of data a port carries.
#[derive(Clone, Copy, Debug, PartialEq, Eq, Hash, Structural)]
pub struct PortType(pub usize);

impl PortType {
    /// The first port type.
    pub fn new() -> (r: Self)
        ensures
            r.0 == 0,
    {
        PortType(0)
    }

    /// The port type that follows this one; it differs from it.
    pub fn fresh(self) -> (r: Self)
        requires
            self.0 < usize::MAX,
        ensures
            r.0 == self.0 + 1,
    {
        PortType(self.0 + 1)
    }
}

/// What a node offers to connect to: how many inputs and outputs it has,
/// and the type of each.
pub trait Connectors {
    /// The types of the input ports, in order.
    spec fn input_types(&self) -> Seq<PortType>;

    /// The types of the output ports, in order.
    spec fn output_types(&self) -> Seq<PortType>;

    /// Number of input connections.
    fn input_connections(&self) -> (r: usize)
        ensures
            r == self.input_types().len(),
    ;

    /// Number of output connections.
    fn output_connections(&self) -> (r: usize)
        ensures
            r == self.output_types().len(),
    ;

    /// The type of the input port at `index`, if there is one.
    fn input_port_type(&self, index: usize) -> (r: Option<PortType>)
        ensures
            r == (if index < self.input_types().len() {
                Some(self.input_types()[index as int])
            } else {
                None
            }),
    ;

    /// The type of the output port at `index`, if there is one.
    fn output_port_type(&self, index: usize) -> (r: Option<PortType>)
        ensures
            r == (if index < self.output_types().len() {
                Some(self.output_types()[index as int])
            } else {
                None
            }),
    ;

    /// All input port types, in order.
    fn inputs(&self) -> (r: &[PortType])
        ensures
            r@ == self.input_types(),
    ;

    /// All output port types, in order.
    fn outputs(&self) -> (r: &[PortType])
        ensures
            r@ == self.output_types(),
    ;
}

/// The ports of one node, with the padding around their columns.
#[derive(Clone, Debug)]
pub struct Ports {
    inputs: Vec<PortType>,
    outputs: Vec<PortType>,
    padding: u16,
}

/// The words that identify a ports block: its padding, then each input type
/// and each output type.
pub open spec fn port_words(padding: u16, inputs: Seq<PortType>, outputs: Seq<PortType>) -> Seq<
    LayoutWord,
> {
    seq![LayoutWord::Units(padding)] + inputs.map_values(|p: PortType| LayoutWord::Index(p.0))
        + outputs.map_values(|p: PortType| LayoutWord::Index(p.0))
}

/// The size of a port column within `max_height`, shrunk by `padding` on
/// each side.
pub open spec fn column_size(max_height: int, padding: u16) -> Size {
    Size { width: PORT_COLUMN_WIDTH, height: floor_zero(max_height - 2 * padding * UNIT) as i64 }
}

/// Appends the words of `types` to `words`.
fn push_type_words(types: &Vec<PortType>, words: &mut Vec<LayoutWord>)
    ensures
        final(words)@ == old(words)@ + types@.map_values(|p: PortType| LayoutWord::Index(p.0)),
{
    let ghost start = words@;
    let mut i: usize = 0;
    while i < types.len()
        invariant
            i <= types@.len(),
            words@ == start + types@.subrange(0, i as int).map_values(
                |p: PortType| LayoutWord::Index(p.0),
            ),
        decreases types@.len() - i,
    {
        words.push(LayoutWord::Index(types[i].0));
        i += 1;
        proof {
            assert(types@.subrange(0, i as int).map_values(|p: PortType| LayoutWord::Index(p.0))
                =~= types@.subrange(0, i - 1 as int).map_values(
                |p: PortType| LayoutWord::Index(p.0),
            ).push(LayoutWord::Index(types@[i - 1].0)));
        }
    }
    proof {
        assert(types@.subrange(0, types@.len() as int) =~= types@);
    }
}

/// The column of a port block within `limits`, when it has ports.
fn layout_column(count: usize, padding: u16, limits: &Limits) -> (r: Option<Size>)
    ensures
        count == 0 ==> r.is_none(),
        count > 0 ==> r == Some(column_size(limits.max.height as int, padding)),
{
    if count > 0 {
        let pad = padding as i128;
        let both_sides = (2 * UNIT) as i128;
        assert(0 <= pad * both_sides <= 65535 * both_sides) by (nonlinear_arith)
            requires
                0 <= pad <= 65535,
                both_sides == 2097152,
        ;
        let shrunk = limits.max.height as i128 - pad * both_sides;
        let height: i64 = if shrunk < 0 {
            0
        } else {
            shrunk as i64
        };
        Some(Size { width: PORT_COLUMN_WIDTH, height })
    } else {
        None
    }
}

impl Ports {
    /// Ports with the given input and output types, and no padding.
    pub fn new(inputs: Vec<PortType>, outputs: Vec<PortType>) -> (r: Self)
        ensures
            r.inputs_spec() == inputs@,
            r.outputs_spec() == outputs@,
            r.padding_spec() == 0,
    {
        Ports { inputs, outputs, padding: 0 }
    }

    /// A block with no ports at all.
    pub fn empty() -> (r: Self)
        ensures
            r.inputs_spec() == Seq::<PortType>::empty(),
            r.outputs_spec() == Seq::<PortType>::empty(),
            r.padding_spec() == 0,
    {
        Ports { inputs: Vec::new(), outputs: Vec::new(), padding: 0 }
    }

    pub closed spec fn inputs_spec(&self) -> Seq<PortType> {
        self.inputs@
    }

    pub closed spec fn outputs_spec(&self) -> Seq<PortType> {
        self.outputs@
    }

    pub closed spec fn padding_spec(&self) -> u16 {
        self.padding
    }

    /// Sets the padding, in layout units.
    pub fn padding(self, units: u16) -> (r: Self)
        ensures
            r.inputs_spec() == self.inputs_spec(),
            r.outputs_spec() == self.outputs_spec(),
            r.padding_spec() == units,
    {
        Ports { padding: units, ..self }
    }

    pub fn input_count(&self) -> (r: usize)
        ensures
            r == self.inputs_spec().len(),
    {
        self.inputs.len()
    }

    pub fn output_count(&self) -> (r: usize)
        ensures
            r == self.outputs_spec().len(),
    {
        self.outputs.len()
    }

    /// The words that identify this block for relayout.
    pub fn hash_layout(&self) -> (r: Vec<LayoutWord>)
        ensures
            r@ == port_words(self.padding_spec(), self.inputs_spec(), self.outputs_spec()),
    {
        let mut words: Vec<LayoutWord> = Vec::new();
        words.push(LayoutWord::Units(self.padding));
        push_type_words(&self.inputs, &mut words);
        push_type_words(&self.outputs, &mut words);
        words
    }

    /// The size of the input column within `limits`; none when there are no
    /// inputs.
    pub fn layout_inputs(&self, limits: &Limits) -> (r: Option<Size>)
        ensures
            self.inputs_spec().len() == 0 ==> r.is_none(),
            self.inputs_spec().len() > 0 ==> r == Some(
                column_size(limits.max.height as int, self.padding_spec()),
            ),
    {
        layout_column(self.inputs.len(), self.padding, limits)
    }

    /// The size of the output column within `limits`; none when there are no
    /// outputs.
    pub fn layout_outputs(&self, limits: &Limits) -> (r: Option<Size>)
        ensures
            self.outputs_spec().len() == 0 ==> r.is_none(),
            self.outputs_spec().len() > 0 ==> r == Some(
                column_size(limits.max.height as int, self.padding_spec()),
            ),
    {
        layout_column(self.outputs.len(), self.padding, limits)
    }
}

impl Connectors for Ports {
    closed spec fn input_types(&self) -> Seq<PortType> {
        self.inputs@
    }

    closed spec fn output_types(&self) -> Seq<PortType> {
        self.outputs@
    }

    fn input_connections(&self) -> usize {
        self.inputs.len()
    }

    fn output_connections(&self) -> usize {
        self.outputs.len()
    }

    fn input_port_type(&self, index: usize) -> Option<PortType> {
        if index < self.inputs.len() {
            Some(self.inputs[index])
        } else {
            None
        }
    }

    fn output_port_type(&self, index: usize) -> Option<PortType> {
        if index < self.outputs.len() {
            Some(self.outputs[index])
        } else {
            None
        }
    }

    fn inputs(&self) -> &[PortType] {
        self.inputs.as_slice()
    }

    fn outputs(&self) -> &[PortType] {
        self.outputs.as_slice()
    }
}

} // verus!
