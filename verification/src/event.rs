//! Calls that a layer owes to the event handlers attached in its tree.
//!
//! A layer does not hold its handler; it holds the handler's name. The operations that
//! raise events return the calls to make, in order: which handler, for which layer, with
//! which event.
use vstd::prelude::*;
use crate::layer::{Key, Layer};

verus! {

/// What a handler is told.
#[derive(Copy, Clone, Debug, PartialEq, Eq, Structural)]
pub enum EventKind {
    /// The layer became the focused child of its parent.
    KeyFocusIn,
    /// The layer ceased to be the focused child of its parent.
    KeyFocusOut,
    /// A key went down while the layer was on the focused path.
    KeyDown(Key),
}

/// One call owed to a handler.
///
/// `path` leads from the layer the operation was called on to the layer the event is
/// for: each entry is a place among the children of the layer before it. The empty path
/// is the layer itself.
#[derive(Debug)]
pub struct HandlerCall {
    pub handler: u64,
    pub path: Vec<usize>,
    pub kind: EventKind,
}

/// What a [`HandlerCall`] holds.
pub struct HandlerCallView {
    pub handler: u64,
    pub path: Seq<usize>,
    pub kind: EventKind,
}

impl View for HandlerCall {
    type V = HandlerCallView;

    open spec fn view(&self) -> HandlerCallView {
        HandlerCallView { handler: self.handler, path: self.path@, kind: self.kind }
    }
}

/// What each of `calls` holds.
pub open spec fn calls_of(calls: Seq<HandlerCall>) -> Seq<HandlerCallView> {
    Seq::new(calls.len(), |i: int| calls[i]@)
}

/// What a caller attaches to a layer to react to focus and keys.
///
/// A handler is called with the layer the event is for and may change it. Where it
/// moves the focus among the layer's children, it returns the calls that the move owes;
/// their paths start at that layer.
pub trait EventHandler {
    fn key_focus_in(&mut self, layer: &mut Layer) -> Vec<HandlerCall>;

    fn key_focus_out(&mut self, layer: &mut Layer) -> Vec<HandlerCall>;

    fn key_down(&mut self, key: Key, layer: &mut Layer) -> Vec<HandlerCall>;
}

/// The calls `owed` by a handler that was called for the layer under `base`, with their
/// paths made to start where the path `base` starts.
pub open spec fn rebased_calls(owed: Seq<HandlerCallView>, base: Seq<usize>) -> Seq<HandlerCallView> {
    Seq::new(
        owed.len(),
        |i: int| HandlerCallView { handler: owed[i].handler, path: base + owed[i].path, kind: owed[i].kind },
    )
}

/// Makes the paths of the calls `owed` by a handler start where `base` starts: `base`
/// leads to the layer the handler was called for.
pub fn rebased(owed: &Vec<HandlerCall>, base: &Vec<usize>) -> (calls: Vec<HandlerCall>)
    ensures
        calls_of(calls@) == rebased_calls(calls_of(owed@), base@),
{
    let mut calls: Vec<HandlerCall> = Vec::new();
    let n: usize = owed.len();
    let mut i: usize = 0;
    proof {
        assert(calls_of(calls@) =~= rebased_calls(calls_of(owed@), base@).take(0));
    }
    while i < n
        invariant
            i <= n,
            n == owed@.len(),
            calls_of(calls@) == rebased_calls(calls_of(owed@), base@).take(i as int),
        decreases n - i,
    {
        let ghost before = calls@;
        let path: Vec<usize> = joined(base, &owed[i].path);
        calls.push(HandlerCall { handler: owed[i].handler, path, kind: owed[i].kind });
        proof {
            let all = rebased_calls(calls_of(owed@), base@);
            assert(calls_of(calls@) =~= calls_of(before).push(all[i as int]));
            assert(all.take(i + 1) =~= all.take(i as int).push(all[i as int]));
        }
        i = i + 1;
    }
    proof {
        let all = rebased_calls(calls_of(owed@), base@);
        assert(all.take(n as int) =~= all);
    }
    calls
}

/// The calls still to make once a handler has answered the call for the layer under
/// `base`: first the calls it `owed`, their paths rebased, then the `rest` of those that
/// were waiting.
pub fn calls_after(owed: &Vec<HandlerCall>, base: &Vec<usize>, rest: Vec<HandlerCall>) -> (calls: Vec<HandlerCall>)
    ensures
        calls_of(calls@) == rebased_calls(calls_of(owed@), base@) + calls_of(rest@),
{
    let mut calls: Vec<HandlerCall> = rebased(owed, base);
    let mut rest: Vec<HandlerCall> = rest;
    let ghost first = calls@;
    let ghost second = rest@;
    calls.append(&mut rest);
    proof {
        assert(calls_of(first + second) =~= calls_of(first) + calls_of(second));
    }
    calls
}

/// The path `first` followed by the path `second`.
pub fn joined<T: Copy>(first: &Vec<T>, second: &Vec<T>) -> (both: Vec<T>)
    ensures
        both@ == first@ + second@,
{
    let mut both: Vec<T> = copy_of(first);
    let n: usize = second.len();
    let mut i: usize = 0;
    proof {
        assert(first@ + second@.take(0) =~= first@);
    }
    while i < n
        invariant
            i <= n,
            n == second@.len(),
            both@ == first@ + second@.take(i as int),
        decreases n - i,
    {
        both.push(second[i]);
        proof {
            assert(first@ + second@.take(i + 1) =~= (first@ + second@.take(i as int)).push(
                second@[i as int],
            ));
        }
        i = i + 1;
    }
    proof {
        assert(second@.take(n as int) =~= second@);
    }
    both
}

/// A copy of `path`.
pub fn copy_of<T: Copy>(path: &Vec<T>) -> (copy: Vec<T>)
    ensures
        copy@ == path@,
{
    let mut copy: Vec<T> = Vec::new();
    let n: usize = path.len();
    let mut i: usize = 0;
    while i < n
        invariant
            i <= n,
            n == path@.len(),
            copy@ == path@.take(i as int),
        decreases n - i,
    {
        copy.push(path[i]);
        proof {
            assert(path@.take(i + 1) =~= path@.take(i as int).push(path@[i as int]));
        }
        i = i + 1;
    }
    proof {
        assert(path@.take(n as int) =~= path@);
    }
    copy
}

/// A copy of `path` with `index` appended.
pub fn extended(path: &Vec<usize>, index: usize) -> (longer: Vec<usize>)
    ensures
        longer@ == path@.push(index),
{
    let mut longer: Vec<usize> = copy_of(path);
    longer.push(index);
    longer
}

} // verus!
