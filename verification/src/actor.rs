//! The older names of the scene-graph node and of its operations.
use vstd::prelude::*;
use crate::event::{calls_of, HandlerCall};
use crate::layer::{Layer, LayerView};
use crate::layout::{layout_visits, visits_of, LayoutPhase, LayoutVisit};

verus! {

/// An actor is a layer.
pub type Actor = Layer;

impl Layer {
    /// Appends `actor` to the children, as [`Layer::add_sub_layer`] does.
    pub fn add_sub_actor(&mut self, actor: Actor)
        ensures
            final(self)@ == (LayerView {
                sub_layer_list: old(self)@.sub_layer_list.push(actor@),
                ..old(self)@
            }),
    {
        self.add_sub_layer(actor);
    }

    /// Moves the focus to the next child, as [`Layer::select_next_sub_layer`] does.
    pub fn select_next_sub_actor(&mut self) -> (calls: Vec<HandlerCall>)
        ensures
            final(self)@ == old(self)@.refocused(old(self).focused_sub_layer + 1),
            calls_of(calls@) == old(self)@.refocus_calls(old(self).focused_sub_layer + 1),
    {
        self.select_next_sub_layer()
    }

    /// Moves the focus to the previous child, as [`Layer::select_prev_sub_layer`] does.
    pub fn select_prev_sub_actor(&mut self) -> (calls: Vec<HandlerCall>)
        ensures
            final(self)@ == old(self)@.refocused(old(self).focused_sub_layer - 1),
            calls_of(calls@) == old(self)@.refocus_calls(old(self).focused_sub_layer - 1),
    {
        self.select_prev_sub_layer()
    }

    /// The visits of the first phase of a layout pass, as [`Layer::layout_sub_layers`]
    /// returns them.
    pub fn layout_sub_actors(&self) -> (visits: Vec<LayoutVisit>)
        ensures
            visits_of(visits@) == layout_visits(self@, LayoutPhase::Place, Seq::empty()),
    {
        self.layout_sub_layers()
    }
}

} // verus!
