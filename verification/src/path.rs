//! Paths: the way from a layer to a layer below it.
//!
//! A path names, step by step, the place of the next layer among the children of the
//! layer before. The empty path is the layer itself.
use vstd::prelude::*;
use crate::event::copy_of;
use crate::layer::{layer_views, Layer, LayerView};
use crate::play::Play;

verus! {

impl LayerView {
    /// The layer that `path` leads to from this layer, if it leads to one.
    pub open spec fn descendant(self, path: Seq<usize>) -> Option<LayerView>
        decreases path.len(),
    {
        if path.len() == 0 {
            Some(self)
        } else if path[0] < self.sub_layer_list.len() {
            self.sub_layer_list[path[0] as int].descendant(path.drop_first())
        } else {
            None
        }
    }

    /// This layer with `other` in the place of the layer that `path` leads to. Where
    /// the path leads nowhere, nothing changes.
    pub open spec fn with_descendant(self, path: Seq<usize>, other: LayerView) -> LayerView
        decreases path.len(),
    {
        if path.len() == 0 {
            other
        } else if path[0] < self.sub_layer_list.len() {
            LayerView {
                sub_layer_list: self.sub_layer_list.update(
                    path[0] as int,
                    self.sub_layer_list[path[0] as int].with_descendant(path.drop_first(), other),
                ),
                ..self
            }
        } else {
            self
        }
    }
}

impl Layer {
    /// The layer that `path` leads to from this layer, if it leads to one.
    pub fn layer_at(&self, path: &Vec<usize>) -> (found: Option<&Layer>)
        ensures
            found.is_some() == self@.descendant(path@).is_some(),
            found matches Some(layer) ==> layer@ == self@.descendant(path@).unwrap(),
    {
        let mut layer: &Layer = self;
        let n: usize = path.len();
        let mut i: usize = 0;
        proof {
            assert(path@.skip(0) =~= path@);
        }
        while i < n
            invariant
                i <= n,
                n == path@.len(),
                self@.descendant(path@) == layer@.descendant(path@.skip(i as int)),
            decreases n - i,
        {
            let index: usize = path[i];
            proof {
                assert(path@.skip(i as int)[0] == index);
                assert(path@.skip(i as int).drop_first() =~= path@.skip(i + 1));
            }
            if index >= layer.sub_layer_list.len() {
                return None;
            }
            layer = &layer.sub_layer_list[index];
            i = i + 1;
        }
        Some(layer)
    }

    /// The layer that `path` leads to from this layer, for the caller to change.
    ///
    /// Where the path leads nowhere, nothing changes. Else whatever the caller makes of
    /// the layer it is handed takes that layer's place in the tree, and nothing else in
    /// the tree changes.
    pub fn layer_at_mut(&mut self, path: &Vec<usize>) -> (found: Option<&mut Layer>)
        ensures
            found.is_some() == old(self)@.descendant(path@).is_some(),
            found matches Some(layer) ==> (*layer)@ == old(self)@.descendant(path@).unwrap() && replaced(
                *old(self),
                *final(self),
                path@,
                *final(layer),
            ),
            found is None ==> *final(self) == *old(self),
    {
        if self.layer_at(path).is_none() {
            return None;
        }
        proof {
            assert(path@.skip(0) =~= path@);
        }
        Some(self.descend(path, 0))
    }

    fn descend(&mut self, path: &Vec<usize>, from: usize) -> (layer: &mut Layer)
        requires
            from <= path@.len(),
            old(self)@.descendant(path@.skip(from as int)).is_some(),
        ensures
            (*layer)@ == old(self)@.descendant(path@.skip(from as int)).unwrap(),
            replaced(*old(self), *final(self), path@.skip(from as int), *final(layer)),
        decreases path@.len() - from,
    {
        if from == path.len() {
            self
        } else {
            let index: usize = path[from];
            proof {
                assert(path@.skip(from as int)[0] == index);
                assert(path@.skip(from as int).drop_first() =~= path@.skip(from + 1));
                assert(old(self)@.sub_layer_list[index as int] == old(self).sub_layer_list@[index as int]@);
            }
            self.sub_layer_list[index].descend(path, from + 1)
        }
    }
}

/// Whether `after` is `before` with `other` in the place of the layer that `path` leads
/// to, and nothing else changed. Where the path leads nowhere, nothing has changed.
pub open spec fn replaced(before: Layer, after: Layer, path: Seq<usize>, other: Layer) -> bool
    decreases path.len(),
{
    if path.len() == 0 {
        after == other
    } else if path[0] < before.sub_layer_list@.len() {
        &&& after == (Layer { sub_layer_list: after.sub_layer_list, ..before })
        &&& after.sub_layer_list@.len() == before.sub_layer_list@.len()
        &&& forall|j: int|
            0 <= j < before.sub_layer_list@.len() && j != path[0] ==> #[trigger] after.sub_layer_list@[j]
                == before.sub_layer_list@[j]
        &&& replaced(
            before.sub_layer_list@[path[0] as int],
            after.sub_layer_list@[path[0] as int],
            path.drop_first(),
            other,
        )
    } else {
        after == before
    }
}

/// What [`replaced`] means for what the layers hold: the tree after is the tree before
/// with the other layer in the place that the path leads to.
pub proof fn lemma_replaced_is_with_descendant(before: Layer, after: Layer, path: Seq<usize>, other: Layer)
    requires
        replaced(before, after, path, other),
    ensures
        after@ == before@.with_descendant(path, other@),
    decreases path.len(),
{
    if path.len() > 0 && path[0] < before.sub_layer_list@.len() {
        let i = path[0] as int;
        lemma_replaced_is_with_descendant(
            before.sub_layer_list@[i],
            after.sub_layer_list@[i],
            path.drop_first(),
            other,
        );
        assert(before@.sub_layer_list[i] == before.sub_layer_list@[i]@);
        assert(after@.sub_layer_list =~= before@.sub_layer_list.update(
            i,
            before@.sub_layer_list[i].with_descendant(path.drop_first(), other@),
        ));
        assert(after@.animations =~= before@.animations);
    }
}

/// The layer that `path` leads to among `stages`, if it leads to one: the path starts
/// with the place of a stage and goes on from that stage. The empty path leads nowhere.
pub open spec fn layer_among(stages: Seq<LayerView>, path: Seq<usize>) -> Option<LayerView> {
    if path.len() > 0 && path[0] < stages.len() {
        stages[path[0] as int].descendant(path.drop_first())
    } else {
        None
    }
}

/// A copy of `path` without its first step.
fn without_first(path: &Vec<usize>) -> (rest: Vec<usize>)
    requires
        path@.len() > 0,
    ensures
        rest@ == path@.drop_first(),
{
    let mut rest: Vec<usize> = copy_of(path);
    rest.remove(0);
    proof {
        assert(rest@ =~= path@.drop_first());
    }
    rest
}

/// The layer that `path` leads to among `stages`.
pub fn stage_layer_at<'a>(stages: &'a Vec<Layer>, path: &Vec<usize>) -> (found: Option<&'a Layer>)
    ensures
        found.is_some() == layer_among(layer_views(stages@), path@).is_some(),
        found matches Some(layer) ==> layer@ == layer_among(layer_views(stages@), path@).unwrap(),
{
    if path.len() == 0 {
        return None;
    }
    let stage: usize = path[0];
    if stage >= stages.len() {
        return None;
    }
    let rest: Vec<usize> = without_first(path);
    stages[stage].layer_at(&rest)
}

/// The layer that `path` leads to among `stages`, for the caller to change.
///
/// Where the path leads nowhere, nothing changes. Else whatever the caller makes of the
/// layer it is handed takes that layer's place in the tree of its stage, and nothing
/// else changes, in that stage or in another.
pub fn stage_layer_at_mut<'a>(stages: &'a mut Vec<Layer>, path: &Vec<usize>) -> (found: Option<&'a mut Layer>)
    ensures
        found.is_some() == layer_among(layer_views(old(stages)@), path@).is_some(),
        found is None ==> *final(stages) == *old(stages),
        found matches Some(layer) ==> (*layer)@ == layer_among(layer_views(old(stages)@), path@).unwrap()
            && final(stages)@.len() == old(stages)@.len() && replaced(
            old(stages)@[path@[0] as int],
            final(stages)@[path@[0] as int],
            path@.drop_first(),
            *final(layer),
        ) && (forall|j: int|
            0 <= j < old(stages)@.len() && j != path@[0] ==> #[trigger] final(stages)@[j] == old(stages)@[j]),
{
    if stage_layer_at(stages, path).is_none() {
        return None;
    }
    let stage: usize = path[0];
    let rest: Vec<usize> = without_first(path);
    stages[stage].layer_at_mut(&rest)
}

impl Play {
    /// The layer that `path` leads to, starting with the place of its stage.
    pub fn layer_at(&self, path: &Vec<usize>) -> (found: Option<&Layer>)
        ensures
            found.is_some() == layer_among(self@.stages, path@).is_some(),
            found matches Some(layer) ==> layer@ == layer_among(self@.stages, path@).unwrap(),
    {
        stage_layer_at(&self.stage_list, path)
    }
}

} // verus!
