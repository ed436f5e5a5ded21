//! Focus among the children of a layer, and the way a key travels down the focused path.
use vstd::prelude::*;
use crate::event::{calls_of, copy_of, extended, EventKind, HandlerCall, HandlerCallView};
use crate::layer::{layer_views, Key, Layer, LayerView};

verus! {

impl LayerView {
    /// The call that tells this layer's handler of `kind`, under `path`; none where no
    /// handler is attached.
    pub open spec fn own_call(self, path: Seq<usize>, kind: EventKind) -> Seq<HandlerCallView> {
        match self.event_handler {
            Some(handler) => seq![HandlerCallView { handler, path, kind }],
            None => Seq::empty(),
        }
    }

    /// The event that tells a layer of a change of its focus.
    pub open spec fn focus_event(focused: bool) -> EventKind {
        if focused {
            EventKind::KeyFocusIn
        } else {
            EventKind::KeyFocusOut
        }
    }

    /// The place that the focus takes when it is asked to move to `wanted`: `wanted`
    /// brought into the range of the children. Without children the focus stays.
    pub open spec fn focus_target(self, wanted: int) -> int {
        if self.sub_layer_list.len() == 0 {
            self.focused_sub_layer as int
        } else if wanted < 0 {
            0
        } else if wanted >= self.sub_layer_list.len() {
            self.sub_layer_list.len() - 1
        } else {
            wanted
        }
    }

    /// The children after the focus has gone from the place `from` to the place `to`:
    /// the child at `to` is focused, the child at `from`, if there is one, is not.
    pub open spec fn children_refocused(self, from: int, to: int) -> Seq<LayerView> {
        let gained = self.sub_layer_list.update(
            to,
            LayerView { focused: true, ..self.sub_layer_list[to] },
        );
        if 0 <= from < gained.len() {
            gained.update(from, LayerView { focused: false, ..gained[from] })
        } else {
            gained
        }
    }

    /// This layer after the focus has been asked to move to `wanted`.
    pub open spec fn refocused(self, wanted: int) -> LayerView {
        let to = self.focus_target(wanted);
        if to == self.focused_sub_layer {
            self
        } else {
            LayerView {
                focused_sub_layer: to as usize,
                sub_layer_list: self.children_refocused(self.focused_sub_layer as int, to),
                ..self
            }
        }
    }

    /// The calls owed when the focus is asked to move to `wanted`: first the child that
    /// gains the focus is told, then the child that loses it.
    pub open spec fn refocus_calls(self, wanted: int) -> Seq<HandlerCallView> {
        let from = self.focused_sub_layer as int;
        let to = self.focus_target(wanted);
        if to == from {
            Seq::empty()
        } else {
            let gain = self.sub_layer_list[to].own_call(seq![to as usize], EventKind::KeyFocusIn);
            if from < self.sub_layer_list.len() {
                gain + self.sub_layer_list[from].own_call(seq![from as usize], EventKind::KeyFocusOut)
            } else {
                gain
            }
        }
    }
}

/// The calls owed for `key` by the first `n` of `children`, whose parent lies under
/// `path`: those of each focused child, in the order of the children.
pub open spec fn input_calls_among(
    children: Seq<LayerView>,
    n: nat,
    key: Key,
    path: Seq<usize>,
) -> Seq<HandlerCallView>
    decreases children, n,
{
    if n == 0 || n > children.len() {
        Seq::empty()
    } else {
        let before = input_calls_among(children, (n - 1) as nat, key, path);
        if children[n - 1].focused {
            before + input_calls(children[n - 1], key, path.push((n - 1) as usize))
        } else {
            before
        }
    }
}

/// The calls owed for `key` by the layer `v`, which lies under `path`: those of its
/// focused children first, then that of its own handler.
pub open spec fn input_calls(v: LayerView, key: Key, path: Seq<usize>) -> Seq<HandlerCallView>
    decreases v, 0nat,
{
    input_calls_among(v.sub_layer_list, v.sub_layer_list.len(), key, path) + v.own_call(
        path,
        EventKind::KeyDown(key),
    )
}

impl Layer {
    /// Marks the layer as focused or not and returns the call that tells its handler.
    pub fn set_focus(&mut self, focused: bool) -> (call: Option<HandlerCall>)
        ensures
            final(self)@ == (LayerView { focused, ..old(self)@ }),
            final(self).sub_layer_list == old(self).sub_layer_list,
            call.is_some() == old(self).event_handler.is_some(),
            call matches Some(c) ==> c@ == (HandlerCallView {
                handler: old(self).event_handler.unwrap(),
                path: Seq::empty(),
                kind: LayerView::focus_event(focused),
            }),
    {
        self.focused = focused;
        match self.event_handler {
            Some(handler) => Some(
                HandlerCall {
                    handler,
                    path: Vec::new(),
                    kind: if focused {
                        EventKind::KeyFocusIn
                    } else {
                        EventKind::KeyFocusOut
                    },
                },
            ),
            None => None,
        }
    }

    /// Moves the focus to the child at `wanted`, brought into the range of the children.
    fn move_focus(&mut self, wanted: usize) -> (calls: Vec<HandlerCall>)
        ensures
            final(self)@ == old(self)@.refocused(wanted as int),
            calls_of(calls@) == old(self)@.refocus_calls(wanted as int),
    {
        let mut calls: Vec<HandlerCall> = Vec::new();
        let n: usize = self.sub_layer_list.len();
        if n == 0 {
            proof {
                assert(calls_of(calls@) =~= Seq::empty());
            }
            return calls;
        }
        let to: usize = if wanted >= n {
            n - 1
        } else {
            wanted
        };
        let from: usize = self.focused_sub_layer;
        if to == from {
            proof {
                assert(calls_of(calls@) =~= Seq::empty());
            }
            return calls;
        }
        self.focused_sub_layer = to;
        match self.sub_layer_list[to].set_focus(true) {
            Some(c) => {
                calls.push(HandlerCall { handler: c.handler, path: extended(&c.path, to), kind: c.kind });
            },
            None => {},
        }
        if from < n {
            match self.sub_layer_list[from].set_focus(false) {
                Some(c) => {
                    calls.push(
                        HandlerCall { handler: c.handler, path: extended(&c.path, from), kind: c.kind },
                    );
                },
                None => {},
            }
        }
        proof {
            let v = old(self)@;
            let goal = v.refocused(wanted as int);
            assert(v.focus_target(wanted as int) == to);
            assert(Seq::<usize>::empty().push(to) =~= seq![to]);
            assert(Seq::<usize>::empty().push(from) =~= seq![from]);
            assert(self@.sub_layer_list =~= goal.sub_layer_list);
            assert(v.sub_layer_list[to as int] == old(self).sub_layer_list@[to as int]@);
            if from < n {
                assert(v.sub_layer_list[from as int] == old(self).sub_layer_list@[from as int]@);
            }
            assert(calls_of(calls@) =~= v.refocus_calls(wanted as int));
        }
        calls
    }

    /// Moves the focus to the next child, if there is one, and returns the calls owed:
    /// the child that gains the focus is told first, then the child that loses it.
    ///
    /// The focus never leaves the range of the children. Without children, and on the
    /// last child, nothing changes and nothing is owed.
    pub fn select_next_sub_layer(&mut self) -> (calls: Vec<HandlerCall>)
        ensures
            final(self)@ == old(self)@.refocused(old(self).focused_sub_layer + 1),
            calls_of(calls@) == old(self)@.refocus_calls(old(self).focused_sub_layer + 1),
            old(self).sub_layer_list@.len() > 0
                ==> final(self).focused_sub_layer < old(self).sub_layer_list@.len(),
            old(self).sub_layer_list@.len() == 0 ==> final(self)@ == old(self)@ && calls@.len() == 0,
    {
        let n: usize = self.sub_layer_list.len();
        let wanted: usize = if self.focused_sub_layer == usize::MAX {
            usize::MAX
        } else {
            self.focused_sub_layer + 1
        };
        proof {
            assert(old(self)@.sub_layer_list.len() == n);
            let v = old(self)@;
            assert(v.focus_target(wanted as int) == v.focus_target(v.focused_sub_layer + 1));
        }
        let calls = self.move_focus(wanted);
        proof {
            if old(self).sub_layer_list@.len() == 0 {
                assert(calls_of(calls@).len() == 0);
            }
        }
        calls
    }

    /// Moves the focus to the previous child, if there is one, and returns the calls
    /// owed: the child that gains the focus is told first, then the child that loses it.
    ///
    /// The focus never leaves the range of the children. Without children, and on the
    /// first child, nothing changes and nothing is owed.
    pub fn select_prev_sub_layer(&mut self) -> (calls: Vec<HandlerCall>)
        ensures
            final(self)@ == old(self)@.refocused(old(self).focused_sub_layer - 1),
            calls_of(calls@) == old(self)@.refocus_calls(old(self).focused_sub_layer - 1),
            old(self).sub_layer_list@.len() > 0
                ==> final(self).focused_sub_layer < old(self).sub_layer_list@.len(),
            old(self).sub_layer_list@.len() == 0 || old(self).focused_sub_layer == 0
                ==> final(self)@ == old(self)@ && calls@.len() == 0,
    {
        let wanted: usize = if self.focused_sub_layer == 0 {
            0
        } else {
            self.focused_sub_layer - 1
        };
        proof {
            let v = old(self)@;
            assert(v.focus_target(wanted as int) == v.focus_target(v.focused_sub_layer - 1));
        }
        let calls = self.move_focus(wanted);
        proof {
            if old(self).sub_layer_list@.len() == 0 || old(self).focused_sub_layer == 0 {
                assert(calls_of(calls@).len() == 0);
            }
        }
        calls
    }

    /// The calls owed for `key`, in order.
    ///
    /// The key goes down the focused path first and then comes back up: each child
    /// marked as focused hands it to its own focused children before its own handler is
    /// told, and this layer's handler is told last. Children that are not focused are
    /// not told.
    pub fn handle_input(&self, key: Key) -> (calls: Vec<HandlerCall>)
        ensures
            calls_of(calls@) == input_calls(self@, key, Seq::empty()),
    {
        let mut calls: Vec<HandlerCall> = Vec::new();
        let path: Vec<usize> = Vec::new();
        proof {
            assert(calls_of(calls@) =~= Seq::empty());
        }
        self.collect_input(key, &path, &mut calls);
        proof {
            assert(calls_of(calls@) =~= input_calls(self@, key, Seq::empty()));
        }
        calls
    }

    /// Appends to `calls` the calls owed for `key` by this layer, which lies under
    /// `path`.
    pub(crate) fn collect_input(&self, key: Key, path: &Vec<usize>, calls: &mut Vec<HandlerCall>)
        ensures
            calls_of(final(calls)@) == calls_of(old(calls)@) + input_calls(self@, key, path@),
        decreases self, 0nat,
    {
        collect_input_among(&self.sub_layer_list, key, path, calls);
        match self.event_handler {
            Some(handler) => {
                let ghost before = calls@;
                calls.push(HandlerCall { handler, path: copy_of(path), kind: EventKind::KeyDown(key) });
                proof {
                    assert(calls_of(calls@) =~= calls_of(before).push(
                        HandlerCallView { handler, path: path@, kind: EventKind::KeyDown(key) },
                    ));
                }
            },
            None => {},
        }
        proof {
            assert(self@.sub_layer_list =~= layer_views(self.sub_layer_list@));
            assert(calls_of(calls@) =~= calls_of(old(calls)@) + input_calls(self@, key, path@));
        }
    }
}

/// Appends to `calls` the calls owed for `key` by the focused ones of `children`, whose
/// parent lies under `path`.
fn collect_input_among(children: &Vec<Layer>, key: Key, path: &Vec<usize>, calls: &mut Vec<HandlerCall>)
    ensures
        calls_of(final(calls)@) == calls_of(old(calls)@) + input_calls_among(
            layer_views(children@),
            children@.len(),
            key,
            path@,
        ),
    decreases children, 1nat,
{
    let n: usize = children.len();
    let mut i: usize = 0;
    proof {
        assert(calls_of(calls@) =~= calls_of(old(calls)@) + Seq::empty());
    }
    while i < n
        invariant
            i <= n,
            n == children@.len(),
            calls_of(calls@) == calls_of(old(calls)@) + input_calls_among(
                layer_views(children@),
                i as nat,
                key,
                path@,
            ),
        decreases n - i,
    {
        if children[i].focused {
            let longer: Vec<usize> = extended(path, i);
            let ghost before = calls@;
            children[i].collect_input(key, &longer, calls);
            proof {
                assert(calls_of(calls@) =~= calls_of(old(calls)@) + input_calls_among(
                    layer_views(children@),
                    (i + 1) as nat,
                    key,
                    path@,
                ));
            }
        }
        i = i + 1;
    }
}

/// Moving the focus never takes it out of the range of the children, and never adds or
/// removes a child. Without children nothing changes and nothing is owed; the same
/// holds of a move to the place before the first child when the focus is on the first,
/// and of a move past the last child when the focus is on the last.
pub proof fn lemma_focus_stays_in_range(v: LayerView, wanted: int)
    ensures
        v.refocused(wanted).sub_layer_list.len() == v.sub_layer_list.len(),
        v.sub_layer_list.len() > 0 ==> v.refocused(wanted).focused_sub_layer < v.sub_layer_list.len(),
        v.sub_layer_list.len() == 0 ==> v.refocused(wanted) == v && v.refocus_calls(wanted).len() == 0,
        v.focused_sub_layer == 0 && wanted < 0 ==> v.refocused(wanted) == v && v.refocus_calls(
            wanted,
        ).len() == 0,
        v.focused_sub_layer == v.sub_layer_list.len() - 1 && wanted >= v.sub_layer_list.len() ==> v.refocused(
            wanted,
        ) == v && v.refocus_calls(wanted).len() == 0,
{
}

/// After the focus has moved, the child it moved to is marked as focused, the child it
/// left is not, and every other child is as it was.
pub proof fn lemma_focus_marks_one_child(v: LayerView, wanted: int)
    requires
        v.focused_sub_layer < v.sub_layer_list.len(),
        v.focus_target(wanted) != v.focused_sub_layer,
    ensures
        v.refocused(wanted).sub_layer_list[v.focus_target(wanted)].focused,
        !v.refocused(wanted).sub_layer_list[v.focused_sub_layer as int].focused,
        forall|i: int|
            0 <= i < v.sub_layer_list.len() && i != v.focus_target(wanted) && i != v.focused_sub_layer
                ==> #[trigger] v.refocused(wanted).sub_layer_list[i] == v.sub_layer_list[i],
{
}

/// At most one child is marked as focused, and it is the child the focus is on.
pub open spec fn focus_is_single(v: LayerView) -> bool {
    forall|i: int|
        0 <= i < v.sub_layer_list.len() && (#[trigger] v.sub_layer_list[i]).focused ==> i
            == v.focused_sub_layer
}

/// Moving the focus keeps it single: where no child but the one the focus was on was
/// marked as focused, no child but the one the focus is on now is.
pub proof fn lemma_focus_stays_single(v: LayerView, wanted: int)
    requires
        focus_is_single(v),
        v.sub_layer_list.len() <= usize::MAX,
    ensures
        focus_is_single(v.refocused(wanted)),
{
    let after = v.refocused(wanted);
    let to = v.focus_target(wanted);
    if to != v.focused_sub_layer {
        assert forall|i: int| 0 <= i < after.sub_layer_list.len() && (#[trigger] after.sub_layer_list[i]).focused
            implies i == after.focused_sub_layer by {
            assert(0 <= to < v.sub_layer_list.len());
            assert(after.focused_sub_layer == to);
            if i != to {
                if i != v.focused_sub_layer {
                    assert(after.sub_layer_list[i] == v.sub_layer_list[i]);
                    assert(v.sub_layer_list[i].focused);
                } else {
                    assert(!after.sub_layer_list[i].focused);
                }
            }
        }
    }
}

/// Children that are not marked as focused are not told of a key.
proof fn lemma_unfocused_are_not_told(children: Seq<LayerView>, n: nat, key: Key, path: Seq<usize>)
    requires
        n <= children.len(),
        forall|i: int| 0 <= i < children.len() ==> !(#[trigger] children[i]).focused,
    ensures
        input_calls_among(children, n, key, path).len() == 0,
    decreases n,
{
    if n > 0 {
        lemma_unfocused_are_not_told(children, (n - 1) as nat, key, path);
        assert(!children[n - 1].focused);
    }
}

/// A key reaches the focused path only: where no child is marked as focused, the layer's
/// own handler is the only one told, and where the layer has none, nobody is.
pub proof fn lemma_input_stays_on_the_focused_path(v: LayerView, key: Key, path: Seq<usize>)
    requires
        forall|i: int| 0 <= i < v.sub_layer_list.len() ==> !(#[trigger] v.sub_layer_list[i]).focused,
    ensures
        input_calls(v, key, path) == v.own_call(path, EventKind::KeyDown(key)),
{
    lemma_unfocused_are_not_told(v.sub_layer_list, v.sub_layer_list.len(), key, path);
    let among = input_calls_among(v.sub_layer_list, v.sub_layer_list.len(), key, path);
    assert(among =~= Seq::empty());
    assert(among + v.own_call(path, EventKind::KeyDown(key)) =~= v.own_call(path, EventKind::KeyDown(key)));
}

/// The layer's own handler is told last: after every handler below it.
pub proof fn lemma_own_handler_is_told_last(v: LayerView, key: Key, path: Seq<usize>)
    requires
        v.event_handler.is_some(),
    ensures
        input_calls(v, key, path).len() > 0,
        input_calls(v, key, path).last() == (HandlerCallView {
            handler: v.event_handler.unwrap(),
            path,
            kind: EventKind::KeyDown(key),
        }),
{
}

} // verus!
