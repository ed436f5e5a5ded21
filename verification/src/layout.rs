//! The order in which the layout strategies of a tree are called.
//!
//! A layer does not hold its layout strategy; it holds the strategy's name. A layout pass
//! visits the tree from the top down, each layer before its children. The functions here
//! return the visits to make, in order; making them is the caller's part.
use vstd::prelude::*;
use crate::event::{copy_of, extended};
use crate::layer::{layer_views, Layer, LayerView};

verus! {

/// What a caller attaches to a layer to place its children.
///
/// `layout_sub_layers` is called in the first phase of a layout pass, with the layer
/// and the layer above it: it places the layer's children, or registers the layer with
/// the solver. `update_layout` is called in the second phase: it reads the computed
/// placement back into the layer. `finalize` is called when the strategy is detached.
pub trait Layout {
    fn layout_sub_layers(
        &mut self,
        layer: &mut Layer,
        parent_layer: Option<&Layer>,
        stretch: &mut Option<stretch::node::Stretch>,
    );

    fn update_layout(&mut self, layer: &mut Layer, stretch: &mut Option<stretch::node::Stretch>);

    fn finalize(&mut self);
}

/// What a layout strategy is asked to do for a layer.
#[derive(Copy, Clone, Debug, PartialEq, Eq, Structural)]
pub enum LayoutPhase {
    /// Place the layer's children, or register the layer with the solver.
    Place,
    /// Read the computed placement back into the layer.
    ReadBack,
}

/// One call owed to a layout strategy.
///
/// `path` leads from the layer the pass started at to the layer to lay out. The layer's
/// parent, if the pass reaches it, lies under the path without its last entry.
#[derive(Debug)]
pub struct LayoutVisit {
    pub strategy: u64,
    pub path: Vec<usize>,
    pub phase: LayoutPhase,
}

/// What a [`LayoutVisit`] holds.
pub struct LayoutVisitView {
    pub strategy: u64,
    pub path: Seq<usize>,
    pub phase: LayoutPhase,
}

impl View for LayoutVisit {
    type V = LayoutVisitView;

    open spec fn view(&self) -> LayoutVisitView {
        LayoutVisitView { strategy: self.strategy, path: self.path@, phase: self.phase }
    }
}

/// What each of `visits` holds.
pub open spec fn visits_of(visits: Seq<LayoutVisit>) -> Seq<LayoutVisitView> {
    Seq::new(visits.len(), |i: int| visits[i]@)
}

/// The visits owed by the first `n` of `children`, whose parent lies under `path`.
pub open spec fn layout_visits_among(
    children: Seq<LayerView>,
    n: nat,
    phase: LayoutPhase,
    path: Seq<usize>,
) -> Seq<LayoutVisitView>
    decreases children, n,
{
    if n == 0 || n > children.len() {
        Seq::empty()
    } else {
        layout_visits_among(children, (n - 1) as nat, phase, path) + layout_visits(
            children[n - 1],
            phase,
            path.push((n - 1) as usize),
        )
    }
}

/// The visits owed by the layer `v`, which lies under `path`, and by all the layers
/// below it: the layer's own strategy first, if one is attached, then its children in
/// their order. Hidden layers are laid out like visible ones.
pub open spec fn layout_visits(v: LayerView, phase: LayoutPhase, path: Seq<usize>) -> Seq<LayoutVisitView>
    decreases v, 0nat,
{
    let own = match v.layout {
        Some(strategy) => seq![LayoutVisitView { strategy, path, phase }],
        None => Seq::empty(),
    };
    own + layout_visits_among(v.sub_layer_list, v.sub_layer_list.len(), phase, path)
}

impl Layer {
    /// The visits of the first phase of a layout pass over this layer and all below it:
    /// each strategy is asked to place its layer's children.
    pub fn layout_sub_layers(&self) -> (visits: Vec<LayoutVisit>)
        ensures
            visits_of(visits@) == layout_visits(self@, LayoutPhase::Place, Seq::empty()),
    {
        let mut visits: Vec<LayoutVisit> = Vec::new();
        let path: Vec<usize> = Vec::new();
        proof {
            assert(visits_of(visits@) =~= Seq::empty());
        }
        self.collect_layout(LayoutPhase::Place, &path, &mut visits);
        proof {
            assert(visits_of(visits@) =~= layout_visits(self@, LayoutPhase::Place, Seq::empty()));
        }
        visits
    }

    /// The visits of the second phase of a layout pass over this layer and all below
    /// it: each strategy is asked to read the placement back into its layer.
    pub fn update_layout(&self) -> (visits: Vec<LayoutVisit>)
        ensures
            visits_of(visits@) == layout_visits(self@, LayoutPhase::ReadBack, Seq::empty()),
    {
        let mut visits: Vec<LayoutVisit> = Vec::new();
        let path: Vec<usize> = Vec::new();
        proof {
            assert(visits_of(visits@) =~= Seq::empty());
        }
        self.collect_layout(LayoutPhase::ReadBack, &path, &mut visits);
        proof {
            assert(visits_of(visits@) =~= layout_visits(self@, LayoutPhase::ReadBack, Seq::empty()));
        }
        visits
    }

    /// The strategy to tell that it is about to be detached, if one is attached.
    pub fn finalize_layout(&self) -> (strategy: Option<u64>)
        ensures
            strategy == self.layout,
    {
        self.layout
    }

    /// Appends to `visits` the visits owed by this layer, which lies under `path`, and
    /// by all the layers below it.
    pub(crate) fn collect_layout(&self, phase: LayoutPhase, path: &Vec<usize>, visits: &mut Vec<LayoutVisit>)
        ensures
            visits_of(final(visits)@) == visits_of(old(visits)@) + layout_visits(self@, phase, path@),
        decreases self, 0nat,
    {
        match self.layout {
            Some(strategy) => {
                let ghost before = visits@;
                visits.push(LayoutVisit { strategy, path: copy_of(path), phase });
                proof {
                    assert(visits_of(visits@) =~= visits_of(before).push(
                        LayoutVisitView { strategy, path: path@, phase },
                    ));
                }
            },
            None => {},
        }
        collect_layout_among(&self.sub_layer_list, phase, path, visits);
        proof {
            assert(self@.sub_layer_list =~= layer_views(self.sub_layer_list@));
            assert(visits_of(visits@) =~= visits_of(old(visits)@) + layout_visits(self@, phase, path@));
        }
    }
}

/// Appends to `visits` the visits owed by `children`, whose parent lies under `path`.
fn collect_layout_among(children: &Vec<Layer>, phase: LayoutPhase, path: &Vec<usize>, visits: &mut Vec<LayoutVisit>)
    ensures
        visits_of(final(visits)@) == visits_of(old(visits)@) + layout_visits_among(
            layer_views(children@),
            children@.len(),
            phase,
            path@,
        ),
    decreases children, 1nat,
{
    let n: usize = children.len();
    let mut i: usize = 0;
    proof {
        assert(visits_of(visits@) =~= visits_of(old(visits)@) + Seq::empty());
    }
    while i < n
        invariant
            i <= n,
            n == children@.len(),
            visits_of(visits@) == visits_of(old(visits)@) + layout_visits_among(
                layer_views(children@),
                i as nat,
                phase,
                path@,
            ),
        decreases n - i,
    {
        let longer: Vec<usize> = extended(path, i);
        children[i].collect_layout(phase, &longer, visits);
        proof {
            assert(visits_of(visits@) =~= visits_of(old(visits)@) + layout_visits_among(
                layer_views(children@),
                (i + 1) as nat,
                phase,
                path@,
            ));
        }
        i = i + 1;
    }
}

} // verus!
