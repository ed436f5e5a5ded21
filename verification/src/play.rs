//! The composition root: the stages, the projection they share, and the frame.
use vstd::prelude::*;
use crate::event::{calls_of, HandlerCall, HandlerCallView};
use crate::focus::input_calls;
use crate::layer::{animated_at, layer_views, Key, Layer, LayerView, LayoutMode};
use crate::layout::{layout_visits, visits_of, LayoutPhase, LayoutVisit, LayoutVisitView};
use crate::render::{draws, draws_of, DrawCommand, DrawCommandView, Projection};
use crate::solver::{
    compute_layout, holds, layout_result, named, new_solver, solver_children, solver_holds,
    solver_places, solver_styles, LayoutError,
};
use crate::transform::TransformOp;

verus! {

/// The scene: an ordered list of stages, which are the roots of the layer trees.
///
/// In the calls, visits and quads that a play returns, a path starts with the place of
/// the stage in `stage_list`.
pub struct Play {
    pub name: String,
    pub stage_list: Vec<Layer>,
    pub projection: Projection,
    pub stretch: Option<stretch::node::Stretch>,
}

/// What a [`Play`] holds.
pub struct PlayView {
    pub name: Seq<char>,
    pub stages: Seq<LayerView>,
    pub projection: Projection,
    pub solver: Option<stretch::node::Stretch>,
}

impl View for Play {
    type V = PlayView;

    open spec fn view(&self) -> PlayView {
        PlayView {
            name: self.name@,
            stages: layer_views(self.stage_list@),
            projection: self.projection,
            solver: self.stretch,
        }
    }
}

/// One step of the layout of a frame.
#[derive(Debug)]
pub enum LayoutStep {
    /// Call a layout strategy.
    Visit(LayoutVisit),
    /// Have the solver compute the layout of the whole tree of the stage at `stage`.
    Solve { stage: usize },
}

/// What a [`LayoutStep`] holds.
pub enum LayoutStepView {
    Visit(LayoutVisitView),
    Solve { stage: usize },
}

impl View for LayoutStep {
    type V = LayoutStepView;

    open spec fn view(&self) -> LayoutStepView {
        match self {
            LayoutStep::Visit(v) => LayoutStepView::Visit(v@),
            LayoutStep::Solve { stage } => LayoutStepView::Solve { stage: *stage },
        }
    }
}

/// What each of `steps` holds.
pub open spec fn steps_of(steps: Seq<LayoutStep>) -> Seq<LayoutStepView> {
    Seq::new(steps.len(), |i: int| steps[i]@)
}

/// The projection of a viewport of the given size onto the screen: the origin is the
/// top left corner and Y grows downwards.
pub open spec fn screen_projection(viewport_width: i32, viewport_height: i32) -> Projection {
    Projection { left: 0, right: viewport_width, bottom: viewport_height, top: 0, near: 1, far: -1i32 }
}

/// The place of the last of the first `upto` stages that is named `name`, or `None`.
pub open spec fn stage_position(stages: Seq<LayerView>, name: Seq<char>, upto: nat) -> Option<int>
    decreases upto,
{
    if upto == 0 || upto > stages.len() {
        None
    } else if stages[upto - 1].name == name {
        Some(upto - 1)
    } else {
        stage_position(stages, name, (upto - 1) as nat)
    }
}

/// Each of `visits` as a step.
pub open spec fn visit_steps(visits: Seq<LayoutVisitView>) -> Seq<LayoutStepView> {
    Seq::new(visits.len(), |i: int| LayoutStepView::Visit(visits[i]))
}

/// The layout steps owed by the stage `v` at the place `stage`: none unless it needs
/// layout; else the visits of the first phase, then the solving where the play keeps
/// a solver, then the visits of the second phase.
pub open spec fn stage_layout_steps(v: LayerView, stage: usize, has_solver: bool) -> Seq<LayoutStepView> {
    if !v.needs_update {
        Seq::empty()
    } else {
        let place = visit_steps(layout_visits(v, LayoutPhase::Place, seq![stage]));
        let read_back = visit_steps(layout_visits(v, LayoutPhase::ReadBack, seq![stage]));
        if has_solver {
            place + seq![LayoutStepView::Solve { stage }] + read_back
        } else {
            place + read_back
        }
    }
}

/// The layout steps owed by the first `n` of `stages`, in their order.
pub open spec fn layout_steps_among(stages: Seq<LayerView>, n: nat, has_solver: bool) -> Seq<LayoutStepView>
    decreases n,
{
    if n == 0 || n > stages.len() {
        Seq::empty()
    } else {
        layout_steps_among(stages, (n - 1) as nat, has_solver) + stage_layout_steps(
            stages[n - 1],
            (n - 1) as usize,
            has_solver,
        )
    }
}

/// The calls owed for `key` by the first `n` of `stages`: every stage is handed the
/// key, in the order of the stages.
pub open spec fn stage_input_calls(stages: Seq<LayerView>, n: nat, key: Key) -> Seq<HandlerCallView>
    decreases n,
{
    if n == 0 || n > stages.len() {
        Seq::empty()
    } else {
        stage_input_calls(stages, (n - 1) as nat, key) + input_calls(
            stages[n - 1],
            key,
            seq![(n - 1) as usize],
        )
    }
}

/// The quads of the first `n` of `stages`, in the order of the stages, all under the
/// projection `projection`.
pub open spec fn stage_draws(stages: Seq<LayerView>, n: nat, projection: Projection) -> Seq<DrawCommandView>
    decreases n,
{
    if n == 0 || n > stages.len() {
        Seq::empty()
    } else {
        stage_draws(stages, (n - 1) as nat, projection) + draws(
            stages[n - 1],
            Seq::empty(),
            projection,
            seq![(n - 1) as usize],
        )
    }
}

/// A stage at the end of a frame at `now`: laid out, and its animations advanced.
pub open spec fn stage_after_frame(v: LayerView, now: u64) -> LayerView {
    animated_at(LayerView { needs_update: false, ..v }, now)
}

impl Play {
    /// A play without stages, for a viewport of the given size. In flex mode it keeps
    /// a layout solver, which holds no node yet; else it keeps none.
    pub fn new(name: String, viewport_width: i32, viewport_height: i32, layout_mode: LayoutMode) -> (play: Play)
        ensures
            play@ == (PlayView {
                name: name@,
                stages: Seq::empty(),
                projection: screen_projection(viewport_width, viewport_height),
                solver: play.stretch,
            }),
            play.stretch.is_some() == (layout_mode == LayoutMode::Flex),
            play.stretch matches Some(solver) ==> solver_places(solver) == Map::<
                stretch::node::Node,
                (i32, i32),
            >::empty() && solver_children(solver) == Map::<
                stretch::node::Node,
                Seq<stretch::node::Node>,
            >::empty() && solver_styles(solver) == Map::<stretch::node::Node, stretch::style::Style>::empty(),
    {
        let stretch = match layout_mode {
            LayoutMode::Flex => Some(new_solver()),
            LayoutMode::UserDefine => None,
        };
        let play = Play {
            name,
            stage_list: Vec::new(),
            projection: Projection {
                left: 0,
                right: viewport_width,
                bottom: viewport_height,
                top: 0,
                near: 1,
                far: -1,
            },
            stretch,
        };
        proof {
            assert(play@.stages =~= Seq::empty());
        }
        play
    }

    /// Has the solver compute the layout of the whole tree of the stage at `stage`.
    ///
    /// A play without a solver has nothing to compute. A stage that no strategy has
    /// registered is an error of the caller's order and is reported as `NotRegistered`;
    /// a stage whose node the solver does not hold is reported as `InvalidNode`. In
    /// these cases nothing changes. Where the solver holds the node it computes, and
    /// fails only where a measure function fails. It may move the nodes it holds; it
    /// changes neither which nodes those are nor their children nor their styles.
    /// Neither the stages nor the projection ever change.
    pub fn solve_stage(&mut self, stage: usize) -> (result: Result<(), LayoutError>)
        ensures
            final(self)@ == (PlayView { solver: final(self).stretch, ..old(self)@ }),
            final(self).stage_list == old(self).stage_list,
            final(self).stretch.is_some() == old(self).stretch.is_some(),
            result == Err::<(), LayoutError>(LayoutError::NoSuchStage) <==> stage >= old(self)@.stages.len(),
            result == Err::<(), LayoutError>(LayoutError::NotRegistered) <==> stage < old(self)@.stages.len()
                && old(self).stretch.is_some() && old(self)@.stages[stage as int].node.is_none(),
            result == Err::<(), LayoutError>(LayoutError::InvalidNode) <==> stage < old(self)@.stages.len()
                && old(self).stretch.is_some() && old(self)@.stages[stage as int].node.is_some()
                && !solver_holds(
                old(self).stretch.unwrap(),
                old(self)@.stages[stage as int].node.unwrap(),
            ),
            result == Err::<(), LayoutError>(LayoutError::Measure) ==> stage < old(self)@.stages.len()
                && old(self).stretch.is_some() && old(self)@.stages[stage as int].node.is_some()
                && solver_holds(
                old(self).stretch.unwrap(),
                old(self)@.stages[stage as int].node.unwrap(),
            ),
            result.is_err() && result != Err::<(), LayoutError>(LayoutError::Measure) ==> final(self).stretch
                == old(self).stretch,
            old(self).stretch.is_some() ==> solver_places(final(self).stretch.unwrap()).dom() == solver_places(
                old(self).stretch.unwrap(),
            ).dom() && solver_children(final(self).stretch.unwrap()) == solver_children(
                old(self).stretch.unwrap(),
            ) && solver_styles(final(self).stretch.unwrap()) == solver_styles(old(self).stretch.unwrap()),
    {
        if stage >= self.stage_list.len() {
            return Err(LayoutError::NoSuchStage);
        }
        let node = self.stage_list[stage].node;
        match &mut self.stretch {
            None => Ok(()),
            Some(solver) => match node {
                None => Err(LayoutError::NotRegistered),
                Some(n) => if holds(solver, n) {
                    layout_result(named(compute_layout(solver, n)))
                } else {
                    Err(LayoutError::InvalidNode)
                },
            },
        }
    }

    /// What stands against drawing the frame, if anything does: the fault of the first
    /// stage that has one.
    pub fn frame_fault(&self) -> (fault: Option<LayoutError>)
        ensures
            fault == self@.fault(),
    {
        match &self.stretch {
            None => None,
            Some(solver) => {
                let n: usize = self.stage_list.len();
                let mut i: usize = 0;
                while i < n
                    invariant
                        i <= n,
                        n == self.stage_list@.len(),
                        self.stretch == Some(*solver),
                        faults_among(self@.stages, i as nat, solver_places(*solver).dom()).is_none(),
                    decreases n - i,
                {
                    if self.stage_list[i].needs_update {
                        let fault: Option<LayoutError> = match self.stage_list[i].node {
                            None => Some(LayoutError::NotRegistered),
                            Some(node) => if holds(solver, node) {
                                None
                            } else {
                                Some(LayoutError::InvalidNode)
                            },
                        };
                        if fault.is_some() {
                            proof {
                                let held = solver_places(*solver).dom();
                                assert(self@.stages[i as int] == self.stage_list@[i as int]@);
                                assert(stage_fault(self@.stages[i as int], held) == fault);
                                assert(faults_among(self@.stages, (i + 1) as nat, held) == fault);
                                assert(self@.stages.len() == n);
                                assert(self@.solver == Some(*solver));
                                lemma_first_fault_stays(
                                    self@.stages,
                                    (i + 1) as nat,
                                    n as nat,
                                    solver_places(*solver).dom(),
                                );
                            }
                            return fault;
                        }
                    }
                    proof {
                        let held = solver_places(*solver).dom();
                        assert(self@.stages[i as int] == self.stage_list@[i as int]@);
                        assert(stage_fault(self@.stages[i as int], held).is_none());
                    }
                    i = i + 1;
                }
                None
            },
        }
    }

    /// Sets the projection for a viewport of the given size.
    pub fn resize(&mut self, viewport_width: i32, viewport_height: i32)
        ensures
            final(self)@ == (PlayView {
                projection: screen_projection(viewport_width, viewport_height),
                ..old(self)@
            }),
    {
        self.projection = Projection {
            left: 0,
            right: viewport_width,
            bottom: viewport_height,
            top: 0,
            near: 1,
            far: -1,
        };
    }

    /// A new layer, as [`Layer::new`] makes it.
    pub fn new_actor(name: String, w: u32, h: u32, event_handler: Option<u64>) -> (layer: Layer)
        ensures
            layer@ == LayerView::fresh(name@, w, h, event_handler),
    {
        Layer::new(name, w, h, event_handler)
    }

    /// The place of the stage named `name`: of the last one, where several share it.
    pub fn find_stage(&self, name: &String) -> (found: Option<usize>)
        ensures
            match found {
                Some(i) => stage_position(self@.stages, name@, self@.stages.len()) == Some(i as int)
                    && i < self@.stages.len() && self@.stages[i as int].name == name@,
                None => stage_position(self@.stages, name@, self@.stages.len()).is_none(),
            },
    {
        let n: usize = self.stage_list.len();
        let mut i: usize = n;
        while i > 0
            invariant
                i <= n,
                n == self.stage_list@.len(),
                stage_position(self@.stages, name@, n as nat) == stage_position(
                    self@.stages,
                    name@,
                    i as nat,
                ),
            decreases i,
        {
            if self.stage_list[i - 1].name == *name {
                return Some(i - 1);
            }
            i = i - 1;
        }
        None
    }

    /// Appends `actor` to the children of the stage named `stage_name` and tells
    /// whether there is such a stage. Where there is none, nothing changes.
    pub fn add_new_actor_to_stage(&mut self, stage_name: &String, actor: Layer) -> (found: bool)
        ensures
            found == stage_position(old(self)@.stages, stage_name@, old(self)@.stages.len()).is_some(),
            match stage_position(old(self)@.stages, stage_name@, old(self)@.stages.len()) {
                Some(i) => final(self)@ == (PlayView {
                    stages: old(self)@.stages.update(
                        i,
                        LayerView {
                            sub_layer_list: old(self)@.stages[i].sub_layer_list.push(actor@),
                            ..old(self)@.stages[i]
                        },
                    ),
                    ..old(self)@
                }),
                None => final(self)@ == old(self)@,
            },
    {
        match self.find_stage(stage_name) {
            Some(i) => {
                self.stage_list[i].add_sub_layer(actor);
                proof {
                    assert(self@.stages =~= old(self)@.stages.update(
                        i as int,
                        LayerView {
                            sub_layer_list: old(self)@.stages[i as int].sub_layer_list.push(actor@),
                            ..old(self)@.stages[i as int]
                        },
                    ));
                }
                true
            },
            None => false,
        }
    }

    /// Shows or hides the stage named `name`, marks it as in need of layout, and tells
    /// whether there is such a stage. Where there is none, nothing changes.
    pub fn set_visible_stage(&mut self, name: &String, visible: bool) -> (found: bool)
        ensures
            found == stage_position(old(self)@.stages, name@, old(self)@.stages.len()).is_some(),
            match stage_position(old(self)@.stages, name@, old(self)@.stages.len()) {
                Some(i) => final(self)@ == (PlayView {
                    stages: old(self)@.stages.update(
                        i,
                        LayerView { visible, needs_update: true, ..old(self)@.stages[i] },
                    ),
                    ..old(self)@
                }),
                None => final(self)@ == old(self)@,
            },
    {
        match self.find_stage(name) {
            Some(i) => {
                self.stage_list[i].visible = visible;
                self.stage_list[i].needs_update = true;
                proof {
                    assert(self@.stages =~= old(self)@.stages.update(
                        i as int,
                        LayerView { visible, needs_update: true, ..old(self)@.stages[i as int] },
                    ));
                }
                true
            },
            None => false,
        }
    }

    /// Appends `stage` to the stages and returns its name, by which it is found again.
    pub fn add_stage(&mut self, stage: Layer) -> (name: String)
        ensures
            name@ == stage@.name,
            final(self)@ == (PlayView { stages: old(self)@.stages.push(stage@), ..old(self)@ }),
            stage_position(final(self)@.stages, name@, final(self)@.stages.len()) == Some(
                old(self)@.stages.len() as int,
            ),
    {
        let name: String = stage.name.clone();
        self.stage_list.push(stage);
        proof {
            assert(self@.stages =~= old(self)@.stages.push(stage@));
        }
        name
    }

    /// The calls owed for `key`, in order: every stage is handed the key.
    pub fn handle_input(&self, key: Key) -> (calls: Vec<HandlerCall>)
        ensures
            calls_of(calls@) == stage_input_calls(self@.stages, self@.stages.len(), key),
    {
        let mut calls: Vec<HandlerCall> = Vec::new();
        let n: usize = self.stage_list.len();
        let mut i: usize = 0;
        proof {
            assert(calls_of(calls@) =~= Seq::empty());
        }
        while i < n
            invariant
                i <= n,
                n == self.stage_list@.len(),
                calls_of(calls@) == stage_input_calls(self@.stages, i as nat, key),
            decreases n - i,
        {
            let mut path: Vec<usize> = Vec::new();
            path.push(i);
            proof {
                assert(path@ =~= seq![i]);
            }
            self.stage_list[i].collect_input(key, &path, &mut calls);
            i = i + 1;
        }
        calls
    }

    /// The layout steps owed before the next frame, in order.
    ///
    /// Only the stages in need of layout take part. Of each, the strategies are asked
    /// to place from the top down, then the solver computes the whole tree at once, if
    /// the play keeps one, then the strategies are asked to read back from the top down.
    pub fn layout_steps(&self) -> (steps: Vec<LayoutStep>)
        ensures
            steps_of(steps@) == layout_steps_among(self@.stages, self@.stages.len(), self@.solver.is_some()),
    {
        let mut steps: Vec<LayoutStep> = Vec::new();
        let n: usize = self.stage_list.len();
        let mut i: usize = 0;
        proof {
            assert(steps_of(steps@) =~= Seq::empty());
        }
        while i < n
            invariant
                i <= n,
                n == self.stage_list@.len(),
                steps_of(steps@) == layout_steps_among(self@.stages, i as nat, self@.solver.is_some()),
            decreases n - i,
        {
            let ghost before = steps_of(steps@);
            if self.stage_list[i].needs_update {
                let mut path: Vec<usize> = Vec::new();
                path.push(i);
                proof {
                    assert(path@ =~= seq![i]);
                }
                let mut place: Vec<LayoutVisit> = Vec::new();
                let mut read_back: Vec<LayoutVisit> = Vec::new();
                proof {
                    assert(visits_of(place@) =~= Seq::empty());
                    assert(visits_of(read_back@) =~= Seq::empty());
                }
                self.stage_list[i].collect_layout(LayoutPhase::Place, &path, &mut place);
                self.stage_list[i].collect_layout(LayoutPhase::ReadBack, &path, &mut read_back);
                proof {
                    assert(visits_of(place@) =~= layout_visits(
                        self@.stages[i as int],
                        LayoutPhase::Place,
                        seq![i],
                    ));
                    assert(visits_of(read_back@) =~= layout_visits(
                        self@.stages[i as int],
                        LayoutPhase::ReadBack,
                        seq![i],
                    ));
                }
                append_visits(&mut steps, place);
                if self.stretch.is_some() {
                    let ghost so_far = steps@;
                    steps.push(LayoutStep::Solve { stage: i });
                    proof {
                        assert(steps_of(steps@) =~= steps_of(so_far).push(
                            LayoutStepView::Solve { stage: i },
                        ));
                    }
                }
                append_visits(&mut steps, read_back);
                proof {
                    assert(steps_of(steps@) =~= before + stage_layout_steps(
                        self@.stages[i as int],
                        i,
                        self@.solver.is_some(),
                    ));
                }
            } else {
                proof {
                    assert(steps_of(steps@) =~= before + Seq::empty());
                }
            }
            i = i + 1;
        }
        steps
    }

    /// Ends the layout of the frame, advances every animation to `now`, and returns the
    /// quads to draw, in order.
    ///
    /// A play that keeps a solver refuses a frame in which a stage in need of layout
    /// has no node, or a node that the solver does not hold: the layout of that stage
    /// has not been done. Then nothing changes and the fault of the first such stage is
    /// returned. Else every stage is marked as laid out, then animated, then rendered:
    /// the quads show the values the animations have at `now`. The stages are drawn in
    /// their order, under the play's projection.
    pub fn render(&mut self, now: u64) -> (result: Result<Vec<DrawCommand>, LayoutError>)
        ensures
            result.is_err() == old(self)@.fault().is_some(),
            result matches Err(e) ==> old(self)@.fault() == Some(e) && final(self)@ == old(self)@
                && final(self).stage_list == old(self).stage_list,
            result matches Ok(commands) ==> final(self)@ == (PlayView {
                stages: Seq::new(
                    old(self)@.stages.len(),
                    |i: int| stage_after_frame(old(self)@.stages[i], now),
                ),
                ..old(self)@
            }) && draws_of(commands@) == stage_draws(
                final(self)@.stages,
                final(self)@.stages.len(),
                old(self).projection,
            ),
    {
        match self.frame_fault() {
            Some(fault) => {
                return Err(fault);
            },
            None => {},
        }
        animate_stages(&mut self.stage_list, now);
        proof {
            assert(self@.stages =~= Seq::new(
                old(self)@.stages.len(),
                |i: int| stage_after_frame(old(self)@.stages[i], now),
            ));
        }
        let mut commands: Vec<DrawCommand> = Vec::new();
        let identity: Vec<TransformOp> = Vec::new();
        let n: usize = self.stage_list.len();
        let mut i: usize = 0;
        proof {
            assert(draws_of(commands@) =~= Seq::empty());
        }
        while i < n
            invariant
                i <= n,
                n == self.stage_list@.len(),
                identity@ == Seq::<TransformOp>::empty(),
                draws_of(commands@) == stage_draws(self@.stages, i as nat, self.projection),
            decreases n - i,
        {
            let mut path: Vec<usize> = Vec::new();
            path.push(i);
            proof {
                assert(path@ =~= seq![i]);
            }
            self.stage_list[i].collect_draws(&identity, &self.projection, &path, &mut commands);
            i = i + 1;
        }
        Ok(commands)
    }
}

/// What stands against drawing a stage, where the solver holds the nodes `held`: a
/// stage in need of layout has to have a node, and the solver has to hold it.
pub open spec fn stage_fault(v: LayerView, held: Set<stretch::node::Node>) -> Option<LayoutError> {
    if !v.needs_update {
        None
    } else if v.node.is_none() {
        Some(LayoutError::NotRegistered)
    } else if !held.contains(v.node.unwrap()) {
        Some(LayoutError::InvalidNode)
    } else {
        None
    }
}

/// The fault of the first of the first `n` of `stages` that has one.
pub open spec fn faults_among(stages: Seq<LayerView>, n: nat, held: Set<stretch::node::Node>) -> Option<
    LayoutError,
>
    decreases n,
{
    if n == 0 || n > stages.len() {
        None
    } else {
        match faults_among(stages, (n - 1) as nat, held) {
            Some(fault) => Some(fault),
            None => stage_fault(stages[n - 1], held),
        }
    }
}

impl PlayView {
    /// What stands against drawing the frame: nothing where the play keeps no solver,
    /// else the fault of the first stage that has one.
    pub open spec fn fault(self) -> Option<LayoutError> {
        match self.solver {
            Some(solver) => faults_among(self.stages, self.stages.len(), solver_places(solver).dom()),
            None => None,
        }
    }
}

/// A fault found among the first stages is the fault found among more of them.
pub proof fn lemma_first_fault_stays(stages: Seq<LayerView>, n: nat, m: nat, held: Set<stretch::node::Node>)
    requires
        n <= m <= stages.len(),
        faults_among(stages, n, held).is_some(),
    ensures
        faults_among(stages, m, held) == faults_among(stages, n, held),
    decreases m - n,
{
    if n < m {
        lemma_first_fault_stays(stages, n, (m - 1) as nat, held);
    }
}

/// Appends each of `visits` to `steps`, as a step.
fn append_visits(steps: &mut Vec<LayoutStep>, visits: Vec<LayoutVisit>)
    ensures
        steps_of(final(steps)@) == steps_of(old(steps)@) + visit_steps(visits_of(visits@)),
{
    let mut rest: Vec<LayoutVisit> = visits;
    let ghost all = visits_of(visits@);
    let mut reversed: Vec<LayoutVisit> = Vec::new();
    proof {
        assert(visits_of(reversed@) =~= Seq::empty());
    }
    // Turn the list round, so that the visits can be taken from its end in order.
    while rest.len() > 0
        invariant
            visits_of(rest@).len() + visits_of(reversed@).len() == all.len(),
            forall|k: int| 0 <= k < rest@.len() ==> #[trigger] visits_of(rest@)[k] == all[k],
            forall|k: int|
                0 <= k < reversed@.len() ==> #[trigger] visits_of(reversed@)[k] == all[all.len() - 1 - k],
        decreases rest@.len(),
    {
        let ghost before_rest = rest@;
        let ghost before_rev = reversed@;
        let v = rest.pop().unwrap();
        reversed.push(v);
        proof {
            assert forall|k: int| 0 <= k < rest@.len() implies #[trigger] visits_of(rest@)[k] == all[k] by {
                assert(visits_of(before_rest)[k] == all[k]);
            }
            assert forall|k: int| 0 <= k < reversed@.len() implies #[trigger] visits_of(reversed@)[k]
                == all[all.len() - 1 - k] by {
                if k < before_rev.len() {
                    assert(visits_of(before_rev)[k] == all[all.len() - 1 - k]);
                } else {
                    assert(visits_of(before_rest)[before_rest.len() - 1] == all[before_rest.len() - 1]);
                }
            }
        }
    }
    proof {
        assert(steps_of(steps@) =~= steps_of(old(steps)@) + visit_steps(all.take(0)));
    }
    while reversed.len() > 0
        invariant
            reversed@.len() <= all.len(),
            forall|k: int|
                0 <= k < reversed@.len() ==> #[trigger] visits_of(reversed@)[k] == all[all.len() - 1 - k],
            steps_of(steps@) == steps_of(old(steps)@) + visit_steps(
                all.take(all.len() - reversed@.len()),
            ),
        decreases reversed@.len(),
    {
        let ghost before_rev = reversed@;
        let ghost so_far = steps@;
        let ghost done = all.len() - reversed@.len();
        let v = reversed.pop().unwrap();
        proof {
            assert(visits_of(before_rev)[before_rev.len() - 1] == all[done]);
            assert(v@ == all[done]);
        }
        steps.push(LayoutStep::Visit(v));
        proof {
            assert forall|k: int| 0 <= k < reversed@.len() implies #[trigger] visits_of(reversed@)[k]
                == all[all.len() - 1 - k] by {
                assert(visits_of(before_rev)[k] == all[all.len() - 1 - k]);
            }
            assert(steps_of(steps@) =~= steps_of(so_far).push(LayoutStepView::Visit(all[done])));
            assert(visit_steps(all.take(done + 1)) =~= visit_steps(all.take(done)).push(
                LayoutStepView::Visit(all[done]),
            ));
            assert(steps_of(steps@) =~= steps_of(old(steps)@) + visit_steps(all.take(done + 1)));
        }
    }
    proof {
        assert(all.take(all.len() as int) =~= all);
    }
}

/// Marks each of `stages` as laid out and animates it at `now`.
fn animate_stages(stages: &mut Vec<Layer>, now: u64)
    ensures
        final(stages)@.len() == old(stages)@.len(),
        forall|j: int|
            0 <= j < old(stages)@.len() ==> (#[trigger] final(stages)@[j])@ == stage_after_frame(
                old(stages)@[j]@,
                now,
            ),
{
    let n: usize = stages.len();
    let mut i: usize = 0;
    while i < n
        invariant
            i <= n,
            n == stages@.len(),
            n == old(stages)@.len(),
            forall|j: int|
                0 <= j < i ==> (#[trigger] stages@[j])@ == stage_after_frame(old(stages)@[j]@, now),
            forall|j: int| i <= j < n ==> #[trigger] stages@[j] == old(stages)@[j],
        decreases n - i,
    {
        stages[i].needs_update = false;
        stages[i].animate(now);
        i = i + 1;
    }
}

} // verus!
