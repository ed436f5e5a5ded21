//! The layout solver: what it holds, the calls the library makes of it, and the two
//! steps a layer takes with it.
use vstd::prelude::*;
use crate::layer::{Layer, LayerView};

verus! {

/// The layout solver. What it holds is told by [`solver_places`], [`solver_children`]
/// and [`solver_styles`].
#[verifier::external_type_specification]
#[verifier::external_body]
pub struct ExSolver(stretch::node::Stretch);

/// The solver's error. Its variant is told by [`fault_kind`].
#[verifier::external_type_specification]
#[verifier::external_body]
pub struct ExSolverError(stretch::Error);

/// Why the solver refused.
#[derive(Copy, Clone, Debug, PartialEq, Eq, Structural)]
pub enum SolverFault {
    /// The node does not belong to this solver.
    InvalidNode,
    /// A measure function of a node failed.
    Measure,
}

/// Why a layout step could not be taken.
#[derive(Copy, Clone, Debug, PartialEq, Eq, Structural)]
pub enum LayoutError {
    /// The play has no stage at that place.
    NoSuchStage,
    /// The layer has no solver node: no strategy has registered it yet.
    NotRegistered,
    /// The solver does not hold the node.
    InvalidNode,
    /// A measure function failed while the solver computed.
    Measure,
}

/// The nodes that the solver holds, each with the place the solver has for it: whole
/// pixels, X before Y.
pub uninterp spec fn solver_places(solver: stretch::node::Stretch) -> Map<stretch::node::Node, (i32, i32)>;

/// The children of each node that the solver holds, in their order.
pub uninterp spec fn solver_children(solver: stretch::node::Stretch) -> Map<
    stretch::node::Node,
    Seq<stretch::node::Node>,
>;

/// The style of each node that the solver holds.
pub uninterp spec fn solver_styles(solver: stretch::node::Stretch) -> Map<
    stretch::node::Node,
    stretch::style::Style,
>;

/// The variant of a solver's error.
pub uninterp spec fn fault_kind(error: stretch::Error) -> SolverFault;

/// The style that asks for the given size in pixels and leaves everything else at the
/// solver's defaults.
pub uninterp spec fn style_of_size(width: u32, height: u32) -> stretch::style::Style;

/// Whether the solver holds `node`.
pub open spec fn solver_holds(solver: stretch::node::Stretch, node: stretch::node::Node) -> bool {
    solver_places(solver).dom().contains(node)
}

/// `stretch::node::Stretch::new`: a solver of its own, which holds no node.
#[verifier::external_body]
pub(crate) fn new_solver() -> (solver: stretch::node::Stretch)
    ensures
        (solver_places(solver) == Map::<stretch::node::Node, (i32, i32)>::empty()),
        (solver_children(solver) == Map::<stretch::node::Node, Seq<stretch::node::Node>>::empty()),
        (solver_styles(solver) == Map::<stretch::node::Node, stretch::style::Style>::empty()),
{
    stretch::node::Stretch::new()
}

/// `stretch::node::Stretch::compute_layout`, with no size given for the space
/// available: the solver lays out the tree below `node`.
///
/// The call fails with `InvalidNode` exactly where the solver does not hold `node`, and
/// then changes nothing; else it fails only where a measure function fails. It may move
/// the nodes the solver holds, and changes neither which nodes those are nor their
/// children nor their styles. Where the solver puts the nodes is not claimed: that
/// depends on the measure functions that the solver was given.
#[verifier::external_body]
pub(crate) fn compute_layout(solver: &mut stretch::node::Stretch, node: stretch::node::Node) -> (outcome: Result<
    (),
    stretch::Error,
>)
    ensures
        solver_places(*final(solver)).dom() == solver_places(*old(solver)).dom(),
        solver_children(*final(solver)) == solver_children(*old(solver)),
        solver_styles(*final(solver)) == solver_styles(*old(solver)),
        !solver_holds(*old(solver), node) ==> outcome.is_err() && solver_places(*final(solver))
            == solver_places(*old(solver)),
        outcome matches Err(e) ==> solver_holds(*old(solver), node) ==> fault_kind(e) == SolverFault::Measure,
        outcome matches Err(e) ==> !solver_holds(*old(solver), node) ==> fault_kind(e)
            == SolverFault::InvalidNode,
{
    solver.compute_layout(node, stretch::geometry::Size::undefined())
}

/// `stretch::node::Stretch::new_node`, without children: the solver takes a new node of
/// the given style.
///
/// With no children to look up the call cannot fail. The node is one the solver did not
/// hold; it has no children, and its place is the origin until the solver computes.
/// Nothing else that the solver holds changes. (The solver numbers its nodes in 32 bits
/// and would stop at the last number; no memory holds so many nodes.)
#[verifier::external_body]
fn new_node(solver: &mut stretch::node::Stretch, style: stretch::style::Style) -> (outcome: Result<
    stretch::node::Node,
    stretch::Error,
>)
    ensures
        outcome.is_ok(),
        outcome matches Ok(node) ==> !solver_holds(*old(solver), node),
        outcome matches Ok(node) ==> solver_places(*final(solver)) == solver_places(*old(solver)).insert(
            node,
            (0i32, 0i32),
        ),
        outcome matches Ok(node) ==> solver_children(*final(solver)) == solver_children(*old(solver)).insert(
            node,
            Seq::empty(),
        ),
        outcome matches Ok(node) ==> solver_styles(*final(solver)) == solver_styles(*old(solver)).insert(
            node,
            style,
        ),
{
    solver.new_node(style, Vec::new())
}

/// `stretch::node::Stretch::add_child`: the solver makes `child` the last child of
/// `parent`.
///
/// The call fails with `InvalidNode` exactly where the solver does not hold both nodes,
/// and then changes nothing. A child that is the parent itself, or stands above it,
/// would make the solver walk in a circle without end: so where the solver holds both,
/// the child has to be another node than the parent and without children of its own.
#[verifier::external_body]
fn add_child(
    solver: &mut stretch::node::Stretch,
    parent: stretch::node::Node,
    child: stretch::node::Node,
) -> (outcome: Result<(), stretch::Error>)
    requires
        solver_holds(*old(solver), parent) && solver_holds(*old(solver), child) ==> child != parent
            && solver_children(*old(solver))[child].len() == 0,
    ensures
        outcome.is_ok() == (solver_holds(*old(solver), parent) && solver_holds(*old(solver), child)),
        outcome matches Err(e) ==> fault_kind(e) == SolverFault::InvalidNode,
        solver_places(*final(solver)) == solver_places(*old(solver)),
        solver_styles(*final(solver)) == solver_styles(*old(solver)),
        outcome.is_ok() ==> solver_children(*final(solver)) == solver_children(*old(solver)).insert(
            parent,
            solver_children(*old(solver))[parent].push(child),
        ),
        outcome.is_err() ==> solver_children(*final(solver)) == solver_children(*old(solver)),
{
    solver.add_child(parent, child)
}

/// `stretch::node::Stretch::layout`: the place the solver has for `node`, in whole
/// pixels. The call fails with `InvalidNode` exactly where the solver does not hold the
/// node.
#[verifier::external_body]
fn location(solver: &stretch::node::Stretch, node: stretch::node::Node) -> (outcome: Result<
    (i32, i32),
    stretch::Error,
>)
    ensures
        outcome.is_ok() == solver_holds(*solver, node),
        outcome matches Ok(place) ==> solver_places(*solver)[node] == place,
        outcome matches Err(e) ==> fault_kind(e) == SolverFault::InvalidNode,
{
    match solver.layout(node) {
        Ok(layout) => Ok((layout.location.x as i32, layout.location.y as i32)),
        Err(error) => Err(error),
    }
}

/// Whether the solver holds `node`.
pub fn holds(solver: &stretch::node::Stretch, node: stretch::node::Node) -> (held: bool)
    ensures
        held == solver_holds(*solver, node),
{
    location(solver, node).is_ok()
}

/// A `stretch::style::Style` that asks for the given size in pixels and leaves
/// everything else at the solver's defaults.
#[verifier::external_body]
fn sized_style(width: u32, height: u32) -> (style: stretch::style::Style)
    ensures
        style == style_of_size(width, height),
{
    stretch::style::Style {
        size: stretch::geometry::Size {
            width: stretch::style::Dimension::Points(width as _),
            height: stretch::style::Dimension::Points(height as _),
        },
        ..Default::default()
    }
}

/// The variant of a `stretch::Error`.
#[verifier::external_body]
fn fault_of(error: &stretch::Error) -> (fault: SolverFault)
    ensures
        fault == fault_kind(*error),
{
    match error {
        stretch::Error::InvalidNode(_) => SolverFault::InvalidNode,
        stretch::Error::Measure(_) => SolverFault::Measure,
    }
}

/// What a step returns for each outcome of the solver.
pub open spec fn solved(outcome: Result<(), SolverFault>) -> Result<(), LayoutError> {
    match outcome {
        Ok(()) => Ok(()),
        Err(fault) => Err(refused(fault)),
    }
}

/// What a step returns for each outcome of the solver.
pub fn layout_result(outcome: Result<(), SolverFault>) -> (result: Result<(), LayoutError>)
    ensures
        result == solved(outcome),
{
    match outcome {
        Ok(()) => Ok(()),
        Err(fault) => Err(layout_error(fault)),
    }
}

/// The library's name for a refusal of the solver.
pub open spec fn refused(fault: SolverFault) -> LayoutError {
    match fault {
        SolverFault::InvalidNode => LayoutError::InvalidNode,
        SolverFault::Measure => LayoutError::Measure,
    }
}

/// The library's name for a refusal of the solver.
pub fn layout_error(fault: SolverFault) -> (error: LayoutError)
    ensures
        error == refused(fault),
{
    match fault {
        SolverFault::InvalidNode => LayoutError::InvalidNode,
        SolverFault::Measure => LayoutError::Measure,
    }
}

/// The outcome of a call to the solver, its error named by the variant.
pub(crate) fn named<T>(outcome: Result<T, stretch::Error>) -> (result: Result<T, SolverFault>)
    ensures
        outcome matches Ok(v) ==> result == Ok::<T, SolverFault>(v),
        outcome matches Err(e) ==> result == Err::<T, SolverFault>(fault_kind(e)),
{
    match outcome {
        Ok(v) => Ok(v),
        Err(e) => Err(fault_of(&e)),
    }
}

impl LayerView {
    /// The style the layer is registered with: its own, or where it has none, the
    /// style that asks for its size.
    pub open spec fn solver_style(self) -> stretch::style::Style {
        match self.style {
            Some(style) => style,
            None => style_of_size(self.width, self.height),
        }
    }

    /// The layer after the solver has answered the request for its place: at that
    /// place, where one was given; unchanged, where the solver refused.
    pub open spec fn placed(self, outcome: Result<(i32, i32), SolverFault>) -> LayerView {
        match outcome {
            Ok((x, y)) => LayerView { x, y, ..self },
            Err(_) => self,
        }
    }

    /// What the solver answers to the request for the layer's place, where `places`
    /// are the places the solver holds.
    pub open spec fn place_among(self, places: Map<stretch::node::Node, (i32, i32)>) -> Result<
        (i32, i32),
        SolverFault,
    > {
        if self.node.is_some() && places.dom().contains(self.node.unwrap()) {
            Ok(places[self.node.unwrap()])
        } else {
            Err(SolverFault::InvalidNode)
        }
    }
}

/// The children that the solver holds after it has taken the new node `node` as a child
/// of `parent`, where it held `children` before: the new node has none; where the
/// solver held the parent, the new node is the parent's last child.
pub open spec fn children_with(
    children: Map<stretch::node::Node, Seq<stretch::node::Node>>,
    held: Set<stretch::node::Node>,
    parent: Option<stretch::node::Node>,
    node: stretch::node::Node,
) -> Map<stretch::node::Node, Seq<stretch::node::Node>> {
    let with_node = children.insert(node, Seq::empty());
    match parent {
        Some(p) => if held.contains(p) {
            with_node.insert(p, with_node[p].push(node))
        } else {
            with_node
        },
        None => with_node,
    }
}

impl Layer {
    /// Takes what the solver answered to the request for the layer's place: the layer
    /// moves to the place it was given, or stays where it is where the solver refused.
    pub fn adopt_place(&mut self, outcome: Result<(i32, i32), SolverFault>) -> (result: Result<(), LayoutError>)
        ensures
            final(self)@ == old(self)@.placed(outcome),
            final(self).sub_layer_list == old(self).sub_layer_list,
            result == match outcome {
                Ok(_) => Ok::<(), LayoutError>(()),
                Err(fault) => Err::<(), LayoutError>(refused(fault)),
            },
    {
        match outcome {
            Ok((x, y)) => {
                self.x = x;
                self.y = y;
                Ok(())
            },
            Err(fault) => Err(layout_error(fault)),
        }
    }

    /// Registers the layer with the solver, as a child of `parent` where one is given.
    ///
    /// The solver takes a new node for the layer, of the layer's style or, where it has
    /// none, of the style that asks for the layer's size. The layer keeps the node, and
    /// nothing else of the layer changes. Then the node is made the last child of
    /// `parent`. That succeeds exactly where the solver held the parent; where it did
    /// not, the layer keeps its node all the same and `InvalidNode` is returned.
    pub fn register_with_solver(
        &mut self,
        parent: Option<stretch::node::Node>,
        solver: &mut stretch::node::Stretch,
    ) -> (result: Result<(), LayoutError>)
        ensures
            final(self).node.is_some(),
            !solver_holds(*old(solver), final(self).node.unwrap()),
            final(self)@ == (LayerView { node: final(self).node, ..old(self)@ }),
            final(self).sub_layer_list == old(self).sub_layer_list,
            solver_places(*final(solver)) == solver_places(*old(solver)).insert(
                final(self).node.unwrap(),
                (0i32, 0i32),
            ),
            solver_styles(*final(solver)) == solver_styles(*old(solver)).insert(
                final(self).node.unwrap(),
                old(self)@.solver_style(),
            ),
            solver_children(*final(solver)) == children_with(
                solver_children(*old(solver)),
                solver_places(*old(solver)).dom(),
                parent,
                final(self).node.unwrap(),
            ),
            result == match parent {
                Some(p) => if solver_holds(*old(solver), p) {
                    Ok::<(), LayoutError>(())
                } else {
                    Err::<(), LayoutError>(LayoutError::InvalidNode)
                },
                None => Ok::<(), LayoutError>(()),
            },
    {
        let parent_is_held: bool = match parent {
            Some(p) => holds(solver, p),
            None => false,
        };
        let style = match self.style {
            Some(s) => s,
            None => sized_style(self.width, self.height),
        };
        match new_node(solver, style) {
            Err(e) => Err(layout_error(fault_of(&e))),
            Ok(node) => {
                self.node = Some(node);
                match parent {
                    None => Ok(()),
                    Some(p) => if parent_is_held {
                        layout_result(named(add_child(solver, p, node)))
                    } else {
                        Err(LayoutError::InvalidNode)
                    },
                }
            },
        }
    }

    /// Reads the place the solver has for the layer into the layer's position.
    ///
    /// A layer that was never registered has no place to read: that is an error of the
    /// caller's order, and is reported as `NotRegistered`. A node that the solver does
    /// not hold is reported as `InvalidNode`. In both cases the layer does not change.
    /// Nothing but the layer's position ever changes.
    pub fn read_back_layout(&mut self, solver: &stretch::node::Stretch) -> (result: Result<
        (),
        LayoutError,
    >)
        ensures
            final(self).sub_layer_list == old(self).sub_layer_list,
            old(self).node.is_none() ==> final(self)@ == old(self)@ && result == Err::<(), LayoutError>(
                LayoutError::NotRegistered,
            ),
            old(self).node.is_some() ==> final(self)@ == old(self)@.placed(
                old(self)@.place_among(solver_places(*solver)),
            ) && result == match old(self)@.place_among(solver_places(*solver)) {
                Ok(_) => Ok::<(), LayoutError>(()),
                Err(fault) => Err::<(), LayoutError>(refused(fault)),
            },
    {
        match self.node {
            None => Err(LayoutError::NotRegistered),
            Some(node) => {
                let outcome = named(location(solver, node));
                self.adopt_place(outcome)
            },
        }
    }
}

} // verus!
