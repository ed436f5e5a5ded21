use rust_animation::actor::Actor;
use rust_animation::animation::Animation;
use rust_animation::easing::EasingFunction;
use rust_animation::event::{
    calls_after, copy_of, extended, joined, rebased, EventHandler, EventKind, HandlerCall,
};
use rust_animation::layer::{Key, Layer, LayoutMode};
use rust_animation::layout::{Layout, LayoutPhase, LayoutVisit};
use rust_animation::path::{stage_layer_at, stage_layer_at_mut};
use rust_animation::play::{LayoutStep, Play};
use rust_animation::render::{quad_indices, DrawCommand, Projection};
use rust_animation::solver::{holds, layout_error, layout_result, LayoutError, SolverFault};
use rust_animation::transform::TransformOp;

fn calls(list: &[HandlerCall]) -> Vec<(u64, Vec<usize>, EventKind)> {
    list.iter().map(|c| (c.handler, c.path.clone(), c.kind)).collect()
}

fn paths(list: &[DrawCommand]) -> Vec<Vec<usize>> {
    list.iter().map(|c| c.path.clone()).collect()
}

fn visits(list: &[LayoutVisit]) -> Vec<(u64, Vec<usize>, LayoutPhase)> {
    list.iter().map(|v| (v.strategy, v.path.clone(), v.phase)).collect()
}

const SCREEN: Projection = Projection { left: 0, right: 800, bottom: 600, top: 0, near: 1, far: -1 };

fn parent_with_children(count: usize) -> Layer {
    let mut parent = Layer::new("parent".to_string(), 300, 100, Some(100));
    for i in 0..count {
        parent.add_sub_layer(Layer::new(format!("child{}", i), 100, 100, Some(i as u64)));
    }
    parent
}

#[test]
fn key_codes_round_trip() {
    let all = [
        (Key::Space, 32),
        (Key::Enter, 36),
        (Key::Tab, 48),
        (Key::Backspace, 51),
        (Key::Escape, 53),
        (Key::Right, 262),
        (Key::Left, 263),
        (Key::Down, 264),
        (Key::Up, 265),
    ];
    for (key, code) in all {
        assert_eq!(key.code(), code);
        assert_eq!(Key::from_code(code), Some(key));
    }
    for code in [i32::MIN, -1, 0, 31, 33, 261, 266, i32::MAX] {
        assert_eq!(Key::from_code(code), None);
    }
}

#[test]
fn path_helpers_copy() {
    let path = vec![3usize, 1, 4];
    assert_eq!(copy_of(&path), vec![3, 1, 4]);
    assert_eq!(extended(&path, 9), vec![3, 1, 4, 9]);
    assert_eq!(extended(&Vec::new(), 0), vec![0]);
    assert_eq!(copy_of(&Vec::<usize>::new()), Vec::<usize>::new());
    assert_eq!(joined(&vec![1usize, 2], &vec![3, 4]), vec![1, 2, 3, 4]);
    assert_eq!(joined(&Vec::<usize>::new(), &vec![3]), vec![3]);
    assert_eq!(joined(&vec![1usize], &Vec::new()), vec![1]);
}

#[test]
fn owed_calls_are_rebased_on_the_path_of_the_layer() {
    let owed = vec![
        HandlerCall { handler: 1, path: vec![2], kind: EventKind::KeyFocusIn },
        HandlerCall { handler: 7, path: vec![], kind: EventKind::KeyDown(Key::Tab) },
        HandlerCall { handler: 3, path: vec![0, 5], kind: EventKind::KeyFocusOut },
    ];
    assert_eq!(
        calls(&rebased(&owed, &vec![4, 1])),
        vec![
            (1, vec![4, 1, 2], EventKind::KeyFocusIn),
            (7, vec![4, 1], EventKind::KeyDown(Key::Tab)),
            (3, vec![4, 1, 0, 5], EventKind::KeyFocusOut),
        ]
    );
    assert_eq!(calls(&rebased(&owed, &vec![])), calls(&owed));
    assert!(rebased(&Vec::new(), &vec![1]).is_empty());
}

struct Selector {
    seen: Vec<String>,
}

impl EventHandler for Selector {
    fn key_focus_in(&mut self, layer: &mut Layer) -> Vec<HandlerCall> {
        self.seen.push(format!("in {}", layer.name));
        layer.scale_x = 1100;
        Vec::new()
    }

    fn key_focus_out(&mut self, layer: &mut Layer) -> Vec<HandlerCall> {
        self.seen.push(format!("out {}", layer.name));
        layer.scale_x = 1000;
        Vec::new()
    }

    fn key_down(&mut self, key: Key, layer: &mut Layer) -> Vec<HandlerCall> {
        self.seen.push(format!("{:?} {}", key, layer.name));
        match key {
            Key::Right => layer.select_next_sub_layer(),
            Key::Left => layer.select_prev_sub_layer(),
            _ => Vec::new(),
        }
    }
}

#[test]
fn a_handler_moves_the_focus_and_the_owed_calls_reach_the_children() {
    let mut parent = Layer::new("parent".to_string(), 1, 1, Some(0));
    parent.add_sub_layer(Layer::new("a".to_string(), 1, 1, Some(0)));
    parent.add_sub_layer(Layer::new("b".to_string(), 1, 1, Some(0)));
    let mut handler = Selector { seen: Vec::new() };

    let mut pending = parent.handle_input(Key::Right);
    while !pending.is_empty() {
        let call = pending.remove(0);
        let layer = parent.layer_at_mut(&call.path).unwrap();
        let owed = match call.kind {
            EventKind::KeyFocusIn => handler.key_focus_in(layer),
            EventKind::KeyFocusOut => handler.key_focus_out(layer),
            EventKind::KeyDown(key) => handler.key_down(key, layer),
        };
        pending = calls_after(&owed, &call.path, pending);
    }
    assert_eq!(handler.seen, vec!["Right parent", "in b", "out a"]);
    assert_eq!(parent.focused_sub_layer, 1);
    assert_eq!(parent.sublayers()[1].scale_x, 1100);
    assert_eq!(parent.sublayers()[0].scale_x, 1000);
}

struct Grid {
    columns: i32,
    cell: i32,
    finalized: bool,
}

impl Layout for Grid {
    fn layout_sub_layers(
        &mut self,
        layer: &mut Layer,
        _parent_layer: Option<&Layer>,
        _stretch: &mut Option<stretch::node::Stretch>,
    ) {
        let (columns, cell) = (self.columns, self.cell);
        for (index, child) in layer.sublayers_mut().iter_mut().enumerate() {
            let index = index as i32;
            child.set_position(index % columns * cell, index / columns * cell);
        }
    }

    fn update_layout(&mut self, _layer: &mut Layer, _stretch: &mut Option<stretch::node::Stretch>) {}

    fn finalize(&mut self) {
        self.finalized = true;
    }
}

#[test]
fn a_manual_strategy_places_the_children_itself() {
    let mut play = Play::new("play".to_string(), 10, 10, LayoutMode::UserDefine);
    let mut stage = parent_with_children(5);
    stage.set_layout(Some(1));
    play.add_stage(stage);
    let mut grid = Grid { columns: 2, cell: 100, finalized: false };

    for step in play.layout_steps() {
        match step {
            LayoutStep::Visit(visit) => {
                assert_eq!((visit.strategy, visit.path.clone()), (1, vec![0]));
                let layer = &mut play.stage_list[0];
                match visit.phase {
                    LayoutPhase::Place => grid.layout_sub_layers(layer, None, &mut play.stretch),
                    LayoutPhase::ReadBack => grid.update_layout(layer, &mut play.stretch),
                }
            }
            LayoutStep::Solve { .. } => unreachable!(),
        }
    }
    play.render(0).unwrap();
    let placed: Vec<(i32, i32)> = play.stage_list[0].sublayers().iter().map(|c| c.position()).collect();
    assert_eq!(placed, vec![(0, 0), (100, 0), (0, 100), (100, 100), (0, 200)]);
    assert!(play.layout_steps().is_empty());

    if play.stage_list[0].finalize_layout() == Some(1) {
        grid.finalize();
    }
    assert!(grid.finalized);
}

#[test]
fn set_focus_marks_and_tells_the_handler() {
    let mut with_handler = Layer::new("a".to_string(), 1, 1, Some(9));
    let call = with_handler.set_focus(true).unwrap();
    assert!(with_handler.focused);
    assert_eq!((call.handler, call.path.clone(), call.kind), (9, vec![], EventKind::KeyFocusIn));
    let call = with_handler.set_focus(false).unwrap();
    assert!(!with_handler.focused);
    assert_eq!((call.handler, call.path.clone(), call.kind), (9, vec![], EventKind::KeyFocusOut));

    let mut without = Layer::new("b".to_string(), 1, 1, None);
    assert!(without.set_focus(true).is_none());
    assert!(without.focused);
}

#[test]
fn selection_is_clamped_to_the_children() {
    let mut parent = parent_with_children(3);
    assert_eq!(parent.focused_sub_layer, 0);

    // At the first child there is no previous one.
    assert!(parent.select_prev_sub_layer().is_empty());
    assert_eq!(parent.focused_sub_layer, 0);

    let told = parent.select_next_sub_layer();
    assert_eq!(parent.focused_sub_layer, 1);
    assert_eq!(
        calls(&told),
        vec![(1, vec![1], EventKind::KeyFocusIn), (0, vec![0], EventKind::KeyFocusOut)]
    );
    assert!(parent.sublayers()[1].focused);
    assert!(!parent.sublayers()[0].focused);

    parent.select_next_sub_layer();
    assert_eq!(parent.focused_sub_layer, 2);
    // At the last child there is no next one.
    assert!(parent.select_next_sub_layer().is_empty());
    assert_eq!(parent.focused_sub_layer, 2);
    assert!(parent.sublayers()[2].focused);

    let told = parent.select_prev_sub_layer();
    assert_eq!(parent.focused_sub_layer, 1);
    assert_eq!(
        calls(&told),
        vec![(1, vec![1], EventKind::KeyFocusIn), (2, vec![2], EventKind::KeyFocusOut)]
    );
    let focused: Vec<bool> = parent.sublayers().iter().map(|c| c.focused).collect();
    assert_eq!(focused, vec![false, true, false]);
}

#[test]
fn selection_without_children_does_nothing() {
    let mut lonely = Layer::new("lonely".to_string(), 1, 1, Some(1));
    assert!(lonely.select_next_sub_layer().is_empty());
    assert!(lonely.select_prev_sub_layer().is_empty());
    assert!(lonely.select_next_sub_actor().is_empty());
    assert!(lonely.select_prev_sub_actor().is_empty());
    assert_eq!(lonely.focused_sub_layer, 0);
}

#[test]
fn selection_brings_a_stray_focus_back_into_range() {
    let mut parent = parent_with_children(3);
    parent.select_next_sub_layer();
    parent.select_next_sub_layer();
    parent.sublayers_mut().pop();
    assert_eq!(parent.focused_sub_layer, 2);
    let told = parent.select_next_sub_layer();
    assert_eq!(parent.focused_sub_layer, 1);
    assert_eq!(calls(&told), vec![(1, vec![1], EventKind::KeyFocusIn)]);
}

#[test]
fn children_without_handlers_are_focused_silently() {
    let mut parent = Layer::new("parent".to_string(), 1, 1, None);
    parent.add_sub_layer(Layer::new("a".to_string(), 1, 1, None));
    parent.add_sub_layer(Layer::new("b".to_string(), 1, 1, Some(5)));
    let told = parent.select_next_sub_actor();
    assert_eq!(calls(&told), vec![(5, vec![1], EventKind::KeyFocusIn)]);
    let told = parent.select_prev_sub_actor();
    assert_eq!(calls(&told), vec![(5, vec![1], EventKind::KeyFocusOut)]);
    assert!(parent.sublayers()[0].focused);
}

#[test]
fn input_goes_down_the_focused_path_and_comes_back_up() {
    let mut root = Layer::new("root".to_string(), 1, 1, Some(1));
    let mut middle = Layer::new("middle".to_string(), 1, 1, Some(2));
    let mut leaf = Layer::new("leaf".to_string(), 1, 1, Some(3));
    let sibling = Layer::new("sibling".to_string(), 1, 1, Some(4));
    leaf.set_focus(true);
    middle.add_sub_layer(sibling);
    middle.add_sub_layer(leaf);
    middle.set_focus(true);
    root.add_sub_layer(Layer::new("other".to_string(), 1, 1, Some(5)));
    root.add_sub_layer(middle);

    let told = root.handle_input(Key::Enter);
    assert_eq!(
        calls(&told),
        vec![
            (3, vec![1, 1], EventKind::KeyDown(Key::Enter)),
            (2, vec![1], EventKind::KeyDown(Key::Enter)),
            (1, vec![], EventKind::KeyDown(Key::Enter)),
        ]
    );
}

#[test]
fn input_without_focus_reaches_the_layer_alone() {
    let parent = parent_with_children(2);
    assert_eq!(calls(&parent.handle_input(Key::Up)), vec![(100, vec![], EventKind::KeyDown(Key::Up))]);
    let silent = Layer::new("silent".to_string(), 1, 1, None);
    assert!(silent.handle_input(Key::Down).is_empty());
}

#[test]
fn model_matrix_lists_the_factors_in_order() {
    let mut layer = Layer::new("m".to_string(), 100, 40, None);
    layer.set_position(7, -3);
    layer.z = 250;
    layer.scale_x = 2000;
    layer.scale_y = 500;
    assert_eq!(
        layer.model_matrix(),
        vec![
            TransformOp::Translate { x: 7000, y: -3000, z: 250 },
            TransformOp::Translate { x: 50_000, y: 20_000, z: 0 },
            TransformOp::Scale { x: 2000, y: 500, z: 0 },
            TransformOp::Translate { x: -50_000, y: -20_000, z: 0 },
        ]
    );
    layer.rotation = 90;
    layer.anchor_x = 0;
    layer.anchor_y = 1000;
    assert_eq!(
        layer.model_matrix(),
        vec![
            TransformOp::Translate { x: 7000, y: -3000, z: 250 },
            TransformOp::Translate { x: 0, y: 40_000, z: 0 },
            TransformOp::Rotate { degrees: 90 },
            TransformOp::Scale { x: 2000, y: 500, z: 0 },
            TransformOp::Translate { x: 0, y: -40_000, z: 0 },
        ]
    );
}

#[test]
fn model_matrix_takes_the_widest_values() {
    let mut layer = Layer::new("wide".to_string(), u32::MAX, u32::MAX, None);
    layer.set_position(i32::MIN, i32::MAX);
    layer.anchor_x = i32::MIN;
    layer.anchor_y = i32::MAX;
    let ops = layer.model_matrix();
    assert_eq!(ops[0], TransformOp::Translate { x: i32::MIN as i64 * 1000, y: i32::MAX as i64 * 1000, z: 0 });
    let px = u32::MAX as i64 * i32::MIN as i64;
    let py = u32::MAX as i64 * i32::MAX as i64;
    assert_eq!(ops[1], TransformOp::Translate { x: px, y: py, z: 0 });
    assert_eq!(ops[3], TransformOp::Translate { x: -px, y: -py, z: 0 });
}

#[test]
fn focused_child_is_drawn_last() {
    let mut parent = parent_with_children(3);
    parent.select_next_sub_layer();
    assert_eq!(parent.focused_sub_layer, 1);
    let drawn = parent.render(None, &SCREEN);
    assert_eq!(paths(&drawn), vec![vec![], vec![0], vec![2], vec![1]]);
}

#[test]
fn a_fresh_parent_draws_its_first_child_last() {
    let parent = parent_with_children(3);
    let drawn = parent.render(None, &SCREEN);
    assert_eq!(paths(&drawn), vec![vec![], vec![1], vec![2], vec![0]]);
}

#[test]
fn render_carries_the_world_transform_down() {
    let mut root = Layer::new("root".to_string(), 10, 10, None);
    root.set_position(1, 2);
    root.set_color(100, 200, 300);
    root.set_opacity(400);
    let mut child = Layer::new("child".to_string(), 4, 4, None);
    child.set_position(5, 6);
    child.set_image("pic.png".to_string());
    root.add_sub_layer(child);

    let above = vec![TransformOp::Rotate { degrees: 30 }];
    let drawn = root.render(Some(&above), &SCREEN);
    assert_eq!(drawn.len(), 2);

    let mut root_world = root.model_matrix();
    root_world.extend(above.iter().copied());
    assert_eq!(drawn[0].transform, root_world);
    assert_eq!((drawn[0].color.r, drawn[0].color.g, drawn[0].color.b), (100, 200, 300));
    assert_eq!(drawn[0].opacity, 400);
    assert_eq!(drawn[0].projection, SCREEN);
    assert_eq!(drawn[0].image_path, "");
    assert!(!drawn[0].textured);

    let mut child_world = root.sublayers()[0].model_matrix();
    child_world.extend(root_world.iter().copied());
    assert_eq!(drawn[1].path, vec![0]);
    assert_eq!(drawn[1].transform, child_world);
    assert_eq!(drawn[1].image_path, "pic.png");
    assert!(drawn[1].textured);
    assert_eq!(drawn[1].opacity, 1000);
    assert_eq!(drawn[1].projection, SCREEN);
}

#[test]
fn hidden_layer_is_animated_but_not_drawn() {
    let mut hidden = Layer::new("hidden".to_string(), 10, 10, None);
    hidden.add_sub_layer(Layer::new("below".to_string(), 10, 10, None));
    hidden.set_visible(false);
    let mut slide = Animation::new();
    slide.apply_translation_x(0, 100, 100, EasingFunction::Linear);
    hidden.set_animation(Some(slide));

    hidden.animate(0);
    hidden.animate(30);
    let drawn = hidden.render(None, &SCREEN);
    assert_eq!(hidden.x, 30);
    assert!(drawn.is_empty());

    // A hidden child hides its own subtree only.
    let mut root = Layer::new("root".to_string(), 10, 10, None);
    root.add_sub_layer(hidden);
    root.add_sub_layer(Layer::new("shown".to_string(), 10, 10, None));
    assert_eq!(paths(&root.render(None, &SCREEN)), vec![vec![], vec![1]]);
}

#[test]
fn layout_visits_go_from_the_top_down() {
    let mut root = Layer::new("root".to_string(), 1, 1, None);
    root.set_layout(Some(10));
    let mut a = Layer::new("a".to_string(), 1, 1, None);
    a.set_layout(Some(11));
    a.set_visible(false);
    let mut a0 = Layer::new("a0".to_string(), 1, 1, None);
    a0.set_layout(Some(12));
    a.add_sub_layer(a0);
    let b = Layer::new("b".to_string(), 1, 1, None);
    let mut c = Layer::new("c".to_string(), 1, 1, None);
    c.set_layout(Some(13));
    root.add_sub_layer(a);
    root.add_sub_layer(b);
    root.add_sub_layer(c);

    let expected = |phase| {
        vec![(10, vec![], phase), (11, vec![0], phase), (12, vec![0, 0], phase), (13, vec![2], phase)]
    };
    assert_eq!(visits(&root.layout_sub_layers()), expected(LayoutPhase::Place));
    assert_eq!(visits(&root.layout_sub_actors()), expected(LayoutPhase::Place));
    assert_eq!(visits(&root.update_layout()), expected(LayoutPhase::ReadBack));
    assert_eq!(root.finalize_layout(), Some(10));
    assert!(Layer::new("bare".to_string(), 1, 1, None).layout_sub_layers().is_empty());
}

#[test]
fn new_play_has_the_screen_projection() {
    let play = Play::new("play".to_string(), 1920, 1080, LayoutMode::UserDefine);
    assert_eq!(play.name, "play");
    assert!(play.stage_list.is_empty());
    assert_eq!(
        play.projection,
        Projection { left: 0, right: 1920, bottom: 1080, top: 0, near: 1, far: -1 }
    );
    assert!(play.stretch.is_none());
    let flex = Play::new("flex".to_string(), 1, 1, LayoutMode::Flex);
    assert!(flex.stretch.is_some());
}

#[test]
fn resize_sets_the_projection() {
    let mut play = Play::new("play".to_string(), 10, 10, LayoutMode::UserDefine);
    play.resize(640, 480);
    assert_eq!(play.projection, Projection { left: 0, right: 640, bottom: 480, top: 0, near: 1, far: -1 });
}

#[test]
fn stages_are_found_by_name() {
    let mut play = Play::new("play".to_string(), 10, 10, LayoutMode::UserDefine);
    let first: Actor = Play::new_actor("main".to_string(), 10, 10, None);
    assert_eq!(play.add_stage(first), "main");
    assert_eq!(play.add_stage(Layer::new("side".to_string(), 10, 10, None)), "side");
    assert_eq!(play.find_stage(&"main".to_string()), Some(0));
    assert_eq!(play.find_stage(&"side".to_string()), Some(1));
    assert_eq!(play.find_stage(&"none".to_string()), None);

    // A later stage of the same name takes the name over.
    play.add_stage(Layer::new("main".to_string(), 20, 20, None));
    assert_eq!(play.find_stage(&"main".to_string()), Some(2));
}

#[test]
fn set_visible_stage_marks_the_stage_for_layout() {
    let mut play = Play::new("play".to_string(), 10, 10, LayoutMode::UserDefine);
    play.add_stage(Layer::new("main".to_string(), 10, 10, None));
    play.render(0).unwrap();
    assert!(!play.stage_list[0].needs_update);

    assert!(play.set_visible_stage(&"main".to_string(), false));
    assert!(!play.stage_list[0].visible);
    assert!(play.stage_list[0].needs_update);

    assert!(!play.set_visible_stage(&"missing".to_string(), true));
    assert!(!play.stage_list[0].visible);
}

#[test]
fn add_new_actor_to_stage_appends_a_child() {
    let mut play = Play::new("play".to_string(), 10, 10, LayoutMode::UserDefine);
    play.add_stage(Layer::new("main".to_string(), 10, 10, None));
    assert!(play.add_new_actor_to_stage(&"main".to_string(), Layer::new("a".to_string(), 1, 1, None)));
    assert!(play.add_new_actor_to_stage(&"main".to_string(), Layer::new("b".to_string(), 1, 1, None)));
    assert!(!play.add_new_actor_to_stage(&"other".to_string(), Layer::new("c".to_string(), 1, 1, None)));
    let names: Vec<&str> = play.stage_list[0].sublayers().iter().map(|l| l.name.as_str()).collect();
    assert_eq!(names, vec!["a", "b"]);
}

#[test]
fn every_stage_is_handed_the_key() {
    let mut play = Play::new("play".to_string(), 10, 10, LayoutMode::UserDefine);
    let mut first = Layer::new("first".to_string(), 1, 1, Some(1));
    let mut focused = Layer::new("focused".to_string(), 1, 1, Some(2));
    focused.set_focus(true);
    first.add_sub_layer(focused);
    play.add_stage(first);
    play.add_stage(Layer::new("second".to_string(), 1, 1, None));
    play.add_stage(Layer::new("third".to_string(), 1, 1, Some(3)));
    assert_eq!(
        calls(&play.handle_input(Key::Space)),
        vec![
            (2, vec![0, 0], EventKind::KeyDown(Key::Space)),
            (1, vec![0], EventKind::KeyDown(Key::Space)),
            (3, vec![2], EventKind::KeyDown(Key::Space)),
        ]
    );
}

fn steps(list: &[LayoutStep]) -> Vec<String> {
    list.iter()
        .map(|s| match s {
            LayoutStep::Visit(v) => format!("{:?} {} {:?}", v.phase, v.strategy, v.path),
            LayoutStep::Solve { stage } => format!("Solve {}", stage),
        })
        .collect()
}

fn staged_play(mode: LayoutMode) -> Play {
    let mut play = Play::new("play".to_string(), 10, 10, mode);
    let mut clean = Layer::new("clean".to_string(), 1, 1, None);
    clean.set_layout(Some(1));
    clean.needs_update = false;
    let mut dirty = Layer::new("dirty".to_string(), 1, 1, None);
    dirty.set_layout(Some(2));
    let mut child = Layer::new("child".to_string(), 1, 1, None);
    child.set_layout(Some(3));
    dirty.add_sub_layer(child);
    play.add_stage(clean);
    play.add_stage(dirty);
    play
}

#[test]
fn only_stages_in_need_are_laid_out() {
    let play = staged_play(LayoutMode::UserDefine);
    assert_eq!(
        steps(&play.layout_steps()),
        vec!["Place 2 [1]", "Place 3 [1, 0]", "ReadBack 2 [1]", "ReadBack 3 [1, 0]"]
    );
}

#[test]
fn the_solver_computes_between_the_two_phases() {
    let play = staged_play(LayoutMode::Flex);
    assert_eq!(
        steps(&play.layout_steps()),
        vec!["Place 2 [1]", "Place 3 [1, 0]", "Solve 1", "ReadBack 2 [1]", "ReadBack 3 [1, 0]"]
    );
}

#[test]
fn render_clears_the_flag_animates_and_draws() {
    let mut play = staged_play(LayoutMode::UserDefine);
    let mut slide = Animation::new();
    slide.apply_translation_x(0, 100, 100, EasingFunction::Linear);
    play.stage_list[1].sublayers_mut()[0].set_animation(Some(slide));

    let first = play.render(1000).unwrap();
    assert_eq!(paths(&first), vec![vec![0], vec![1], vec![1, 0]]);
    assert!(play.layout_steps().is_empty());
    assert_eq!(first[2].transform[0], TransformOp::Translate { x: 0, y: 0, z: 0 });

    // The quads show the values the animations have at the time of the frame.
    let second = play.render(1050).unwrap();
    assert_eq!(play.stage_list[1].sublayers()[0].x, 50);
    assert_eq!(second[2].transform[0], TransformOp::Translate { x: 50_000, y: 0, z: 0 });
    assert_eq!(second[2].transform.len(), 8);
    assert_eq!(second[2].projection, play.projection);
}

#[test]
fn solver_outcomes_map_to_layout_errors() {
    assert_eq!(layout_result(Ok(())), Ok(()));
    assert_eq!(layout_result(Err(SolverFault::InvalidNode)), Err(LayoutError::InvalidNode));
    assert_eq!(layout_result(Err(SolverFault::Measure)), Err(LayoutError::Measure));
    assert_eq!(layout_error(SolverFault::InvalidNode), LayoutError::InvalidNode);
    assert_eq!(layout_error(SolverFault::Measure), LayoutError::Measure);
}

#[test]
fn solving_needs_a_stage_and_a_registered_node() {
    let mut play = Play::new("play".to_string(), 10, 10, LayoutMode::Flex);
    assert_eq!(play.solve_stage(0), Err(LayoutError::NoSuchStage));
    play.add_stage(Layer::new("main".to_string(), 10, 10, None));
    assert_eq!(play.solve_stage(0), Err(LayoutError::NotRegistered));
    assert_eq!(play.solve_stage(1), Err(LayoutError::NoSuchStage));

    let mut manual = Play::new("manual".to_string(), 10, 10, LayoutMode::UserDefine);
    manual.add_stage(Layer::new("main".to_string(), 10, 10, None));
    assert_eq!(manual.solve_stage(0), Ok(()));
    assert_eq!(manual.solve_stage(5), Err(LayoutError::NoSuchStage));
}

#[test]
fn the_solver_lays_out_a_registered_stage() {
    let mut play = Play::new("play".to_string(), 10, 10, LayoutMode::Flex);
    let mut stage = Layer::new("main".to_string(), 10, 10, None);
    let style = stretch::style::Style {
        size: stretch::geometry::Size {
            width: stretch::style::Dimension::Points(120.0),
            height: stretch::style::Dimension::Points(80.0),
        },
        ..Default::default()
    };
    stage.set_style(style);
    let node = play.stretch.as_mut().unwrap().new_node(stage.style.unwrap(), vec![]).unwrap();
    stage.node = Some(node);
    play.add_stage(stage);

    assert_eq!(play.solve_stage(0), Ok(()));
    let layout = play.stretch.as_ref().unwrap().layout(node).unwrap();
    assert_eq!((layout.size.width, layout.size.height), (120.0, 80.0));
}

#[test]
fn a_node_of_another_solver_is_refused() {
    let mut play = Play::new("play".to_string(), 10, 10, LayoutMode::Flex);
    let mut other = stretch::node::Stretch::new();
    let foreign = other.new_node(Default::default(), vec![]).unwrap();
    let mut stage = Layer::new("main".to_string(), 10, 10, None);
    stage.node = Some(foreign);
    play.add_stage(stage);
    assert_eq!(play.solve_stage(0), Err(LayoutError::InvalidNode));
}

#[test]
fn the_solver_places_registered_children_in_a_row() {
    let mut play = Play::new("play".to_string(), 300, 100, LayoutMode::Flex);
    let mut stage = Layer::new("stage".to_string(), 300, 100, None);
    stage.add_sub_layer(Layer::new("a".to_string(), 100, 50, None));
    stage.add_sub_layer(Layer::new("b".to_string(), 120, 50, None));
    stage.add_sub_layer(Layer::new("c".to_string(), 30, 50, None));
    play.add_stage(stage);

    {
        let solver = play.stretch.as_mut().unwrap();
        let root = &mut play.stage_list[0];
        assert_eq!(root.register_with_solver(None, solver), Ok(()));
        let node = root.node;
        assert!(node.is_some());
        for child in root.sublayers_mut() {
            child.set_position(-1, -1);
            assert_eq!(child.register_with_solver(node, solver), Ok(()));
            assert!(child.node.is_some());
            assert_eq!(child.position(), (-1, -1));
        }
    }
    assert_eq!(play.solve_stage(0), Ok(()));
    {
        let solver = play.stretch.as_ref().unwrap();
        let root = &mut play.stage_list[0];
        assert_eq!(root.read_back_layout(solver), Ok(()));
        for child in root.sublayers_mut() {
            assert_eq!(child.read_back_layout(solver), Ok(()));
        }
    }
    let placed: Vec<(i32, i32)> = play.stage_list[0].sublayers().iter().map(|c| c.position()).collect();
    assert_eq!(placed, vec![(0, 0), (100, 0), (220, 0)]);
    assert_eq!(play.stage_list[0].bounds(), (300, 100));
}

#[test]
fn a_caller_provided_style_is_adopted() {
    let mut solver = stretch::node::Stretch::new();
    let mut root = Layer::new("root".to_string(), 10, 10, None);
    root.set_style(stretch::style::Style {
        size: stretch::geometry::Size {
            width: stretch::style::Dimension::Points(200.0),
            height: stretch::style::Dimension::Points(100.0),
        },
        flex_direction: stretch::style::FlexDirection::Column,
        ..Default::default()
    });
    let mut first = Layer::new("first".to_string(), 50, 40, None);
    let mut second = Layer::new("second".to_string(), 50, 40, None);
    assert_eq!(root.register_with_solver(None, &mut solver), Ok(()));
    assert_eq!(first.register_with_solver(root.node, &mut solver), Ok(()));
    assert_eq!(second.register_with_solver(root.node, &mut solver), Ok(()));
    solver.compute_layout(root.node.unwrap(), stretch::geometry::Size::undefined()).unwrap();
    assert_eq!(first.read_back_layout(&solver), Ok(()));
    assert_eq!(second.read_back_layout(&solver), Ok(()));
    assert_eq!(first.position(), (0, 0));
    assert_eq!(second.position(), (0, 40));
}

#[test]
fn reading_back_before_registering_is_reported() {
    let solver = stretch::node::Stretch::new();
    let mut layer = Layer::new("early".to_string(), 10, 10, None);
    layer.set_position(3, 4);
    assert_eq!(layer.read_back_layout(&solver), Err(LayoutError::NotRegistered));
    assert_eq!(layer.position(), (3, 4));
}

#[test]
fn a_parent_of_another_solver_is_refused_and_the_node_kept() {
    let mut solver = stretch::node::Stretch::new();
    let mut other = stretch::node::Stretch::new();
    let foreign = other.new_node(Default::default(), vec![]).unwrap();
    let mut layer = Layer::new("child".to_string(), 10, 10, None);
    assert_eq!(layer.register_with_solver(Some(foreign), &mut solver), Err(LayoutError::InvalidNode));
    assert!(layer.node.is_some());
    // The node is the solver's own: it can be laid out and read back.
    solver.compute_layout(layer.node.unwrap(), stretch::geometry::Size::undefined()).unwrap();
    assert_eq!(layer.read_back_layout(&solver), Ok(()));
    assert_eq!(layer.read_back_layout(&other), Err(LayoutError::InvalidNode));
}

#[test]
fn a_failing_measure_is_reported() {
    let mut play = Play::new("play".to_string(), 10, 10, LayoutMode::Flex);
    let failing: stretch::node::MeasureFunc = Box::new(|_| Err(Box::new("no size")));
    let node = play.stretch.as_mut().unwrap().new_leaf(Default::default(), failing).unwrap();
    let mut stage = Layer::new("main".to_string(), 10, 10, None);
    stage.node = Some(node);
    play.add_stage(stage);
    assert_eq!(play.solve_stage(0), Err(LayoutError::Measure));
}

#[test]
fn a_layer_adopts_the_place_the_solver_answers() {
    let mut layer = Layer::new("layer".to_string(), 10, 10, None);
    layer.set_position(1, 2);

    assert_eq!(layer.adopt_place(Err(SolverFault::InvalidNode)), Err(LayoutError::InvalidNode));
    assert_eq!(layer.position(), (1, 2));
    assert_eq!(layer.adopt_place(Err(SolverFault::Measure)), Err(LayoutError::Measure));
    assert_eq!(layer.position(), (1, 2));
    assert_eq!(layer.adopt_place(Ok((30, -40))), Ok(()));
    assert_eq!(layer.position(), (30, -40));
    assert!(layer.node.is_none());
    assert_eq!(layer.bounds(), (10, 10));
}

#[test]
fn a_new_solver_holds_nothing_and_a_registered_node_is_held() {
    let mut play = Play::new("play".to_string(), 10, 10, LayoutMode::Flex);
    let mut other = stretch::node::Stretch::new();
    let foreign = other.new_node(Default::default(), vec![]).unwrap();
    assert!(!holds(play.stretch.as_ref().unwrap(), foreign));
    assert!(holds(&other, foreign));

    let mut layer = Layer::new("layer".to_string(), 10, 10, None);
    layer.set_position(7, 8);
    assert_eq!(layer.register_with_solver(None, play.stretch.as_mut().unwrap()), Ok(()));
    let node = layer.node.unwrap();
    assert!(holds(play.stretch.as_ref().unwrap(), node));
    assert!(!holds(&other, node));
    assert_eq!(layer.position(), (7, 8));

    // Until the solver computes, the place of a new node is the origin.
    assert_eq!(layer.read_back_layout(play.stretch.as_ref().unwrap()), Ok(()));
    assert_eq!(layer.position(), (0, 0));
}

#[test]
fn registering_again_takes_a_new_node() {
    let mut solver = stretch::node::Stretch::new();
    let mut layer = Layer::new("layer".to_string(), 10, 10, None);
    assert_eq!(layer.register_with_solver(None, &mut solver), Ok(()));
    let first = layer.node.unwrap();
    assert_eq!(layer.register_with_solver(Some(first), &mut solver), Ok(()));
    let second = layer.node.unwrap();
    assert!(first != second);
    assert!(holds(&solver, first) && holds(&solver, second));
    assert_eq!(solver.children(first).unwrap(), vec![second]);
    assert_eq!(solver.children(second).unwrap(), vec![]);
}

#[test]
fn the_style_handed_to_the_solver_is_the_layers_own_or_asks_for_its_size() {
    let mut solver = stretch::node::Stretch::new();
    let mut sized = Layer::new("sized".to_string(), 64, 48, None);
    assert_eq!(sized.register_with_solver(None, &mut solver), Ok(()));
    let style = solver.style(sized.node.unwrap()).unwrap();
    assert_eq!(style.size.width, stretch::style::Dimension::Points(64.0));
    assert_eq!(style.size.height, stretch::style::Dimension::Points(48.0));
    assert_eq!(style.flex_direction, stretch::style::FlexDirection::Row);

    let mut styled = Layer::new("styled".to_string(), 64, 48, None);
    styled.set_style(stretch::style::Style {
        flex_direction: stretch::style::FlexDirection::Column,
        ..Default::default()
    });
    assert_eq!(styled.register_with_solver(None, &mut solver), Ok(()));
    let style = solver.style(styled.node.unwrap()).unwrap();
    assert_eq!(style.flex_direction, stretch::style::FlexDirection::Column);
    assert_eq!(style.size.width, stretch::style::Dimension::Auto);
}

#[test]
fn a_frame_is_refused_while_a_stage_in_need_of_layout_is_not_registered() {
    let mut play = Play::new("play".to_string(), 10, 10, LayoutMode::Flex);
    let mut stage = Layer::new("main".to_string(), 10, 10, None);
    let mut slide = Animation::new();
    slide.apply_translation_x(5, 100, 100, EasingFunction::Linear);
    stage.set_animation(Some(slide));
    play.add_stage(stage);

    assert_eq!(play.frame_fault(), Some(LayoutError::NotRegistered));
    assert_eq!(play.render(10).err(), Some(LayoutError::NotRegistered));
    // Nothing was done: the stage still needs layout and its animation has not begun.
    assert!(play.stage_list[0].needs_update);
    assert_eq!(play.stage_list[0].x, 0);
    assert_eq!(play.stage_list[0].animation.as_ref().unwrap().translation_x.start_time, None);

    // A node of another solver does not help.
    let mut other = stretch::node::Stretch::new();
    play.stage_list[0].node = Some(other.new_node(Default::default(), vec![]).unwrap());
    assert_eq!(play.frame_fault(), Some(LayoutError::InvalidNode));
    assert_eq!(play.render(10).err(), Some(LayoutError::InvalidNode));
    assert!(play.stage_list[0].needs_update);

    // Once the stage is registered the frame is drawn.
    let solver = play.stretch.as_mut().unwrap();
    assert_eq!(play.stage_list[0].register_with_solver(None, solver), Ok(()));
    assert_eq!(play.solve_stage(0), Ok(()));
    assert_eq!(play.frame_fault(), None);
    let drawn = play.render(10).unwrap();
    assert_eq!(paths(&drawn), vec![vec![0]]);
    assert!(!play.stage_list[0].needs_update);
    assert_eq!(play.stage_list[0].x, 5);
}

#[test]
fn the_fault_of_the_first_stage_that_has_one_is_reported() {
    let mut play = Play::new("play".to_string(), 10, 10, LayoutMode::Flex);
    let mut other = stretch::node::Stretch::new();
    let mut clean = Layer::new("clean".to_string(), 1, 1, None);
    clean.needs_update = false;
    let mut foreign = Layer::new("foreign".to_string(), 1, 1, None);
    foreign.node = Some(other.new_node(Default::default(), vec![]).unwrap());
    let bare = Layer::new("bare".to_string(), 1, 1, None);
    play.add_stage(clean);
    play.add_stage(foreign);
    play.add_stage(bare);
    assert_eq!(play.frame_fault(), Some(LayoutError::InvalidNode));
    play.stage_list.swap(1, 2);
    assert_eq!(play.frame_fault(), Some(LayoutError::NotRegistered));
    play.stage_list[1].needs_update = false;
    play.stage_list[2].needs_update = false;
    assert_eq!(play.frame_fault(), None);
}

#[test]
fn a_play_without_a_solver_refuses_no_frame() {
    let mut play = Play::new("play".to_string(), 10, 10, LayoutMode::UserDefine);
    play.add_stage(Layer::new("main".to_string(), 10, 10, None));
    assert_eq!(play.frame_fault(), None);
    assert_eq!(paths(&play.render(0).unwrap()), vec![vec![0]]);
}

#[test]
fn moving_the_focus_keeps_it_single() {
    let mut parent = parent_with_children(4);
    let mut moves = 0;
    for step in [1, 1, 1, 1, -1, -1, 1, -1, -1, -1, -1, 1] {
        if step > 0 {
            parent.select_next_sub_layer();
        } else {
            parent.select_prev_sub_layer();
        }
        moves += 1;
        assert!(parent.focused_sub_layer < 4);
        for (i, child) in parent.sublayers().iter().enumerate() {
            assert!(!child.focused || i == parent.focused_sub_layer, "after {} moves", moves);
        }
    }
}

#[test]
fn pose_is_what_animations_drive() {
    let mut layer = Layer::new("posed".to_string(), 10, 10, None);
    let mut pose = layer.pose();
    assert_eq!((pose.x, pose.y, pose.rotation), (0, 0, 0));
    assert_eq!((pose.scale_x, pose.scale_y, pose.opacity, pose.animated), (1000, 1000, 1000, false));
    pose.x = 1;
    pose.y = 2;
    pose.rotation = 3;
    pose.scale_x = 4;
    pose.scale_y = 5;
    pose.opacity = 6;
    pose.animated = true;
    layer.set_pose(pose);
    assert_eq!((layer.x, layer.y, layer.rotation), (1, 2, 3));
    assert_eq!((layer.scale_x, layer.scale_y, layer.opacity, layer.animated), (4, 5, 6, true));
    assert_eq!(layer.bounds(), (10, 10));
}

#[test]
fn the_quad_has_four_corners_and_two_triangles() {
    let layer = Layer::new("quad".to_string(), 320, 200, None);
    let corners: Vec<((u32, u32, u32), (u32, u32))> =
        layer.vertices().iter().map(|v| (v.position, v.tex_coords)).collect();
    assert_eq!(
        corners,
        vec![
            ((320, 200, 0), (1, 1)),
            ((320, 0, 0), (1, 0)),
            ((0, 0, 0), (0, 0)),
            ((0, 200, 0), (0, 1)),
        ]
    );
    assert_eq!(quad_indices(), vec![0, 1, 3, 1, 2, 3]);
}

fn family() -> Layer {
    let mut root = Layer::new("root".to_string(), 1, 1, None);
    let mut a = Layer::new("a".to_string(), 1, 1, None);
    a.add_sub_layer(Layer::new("a0".to_string(), 1, 1, None));
    a.add_sub_layer(Layer::new("a1".to_string(), 1, 1, None));
    root.add_sub_layer(a);
    root.add_sub_layer(Layer::new("b".to_string(), 1, 1, None));
    root
}

#[test]
fn a_path_leads_from_a_layer_to_a_layer_below_it() {
    let root = family();
    let name = |path: Vec<usize>| root.layer_at(&path).map(|l| l.name.clone());
    assert_eq!(name(vec![]), Some("root".to_string()));
    assert_eq!(name(vec![0]), Some("a".to_string()));
    assert_eq!(name(vec![1]), Some("b".to_string()));
    assert_eq!(name(vec![0, 0]), Some("a0".to_string()));
    assert_eq!(name(vec![0, 1]), Some("a1".to_string()));
    assert_eq!(name(vec![2]), None);
    assert_eq!(name(vec![0, 2]), None);
    assert_eq!(name(vec![1, 0]), None);
    assert_eq!(name(vec![0, 1, 0]), None);
}

#[test]
fn a_change_under_a_path_changes_that_layer_only() {
    let mut root = family();
    root.layer_at_mut(&vec![0, 1]).unwrap().set_position(5, 6);
    assert_eq!(root.layer_at(&vec![0, 1]).unwrap().position(), (5, 6));
    assert_eq!(root.layer_at(&vec![0, 0]).unwrap().position(), (0, 0));
    assert_eq!(root.layer_at(&vec![0]).unwrap().position(), (0, 0));
    assert_eq!(root.position(), (0, 0));
    root.layer_at_mut(&vec![]).unwrap().set_position(1, 1);
    assert_eq!(root.position(), (1, 1));
    assert!(root.layer_at_mut(&vec![0, 7]).is_none());
    assert!(root.layer_at_mut(&vec![3]).is_none());
    assert_eq!(root.sublayers()[0].sublayers().len(), 2);
}

#[test]
fn a_path_among_stages_starts_with_the_place_of_the_stage() {
    let mut play = Play::new("play".to_string(), 10, 10, LayoutMode::UserDefine);
    play.add_stage(Layer::new("first".to_string(), 1, 1, None));
    play.add_stage(family());
    let name = |path: Vec<usize>| play.layer_at(&path).map(|l| l.name.clone());
    assert_eq!(name(vec![]), None);
    assert_eq!(name(vec![0]), Some("first".to_string()));
    assert_eq!(name(vec![1]), Some("root".to_string()));
    assert_eq!(name(vec![1, 0, 1]), Some("a1".to_string()));
    assert_eq!(name(vec![2]), None);
    assert_eq!(name(vec![0, 0]), None);
    assert_eq!(stage_layer_at(&play.stage_list, &vec![1, 1]).map(|l| l.name.as_str()), Some("b"));

    stage_layer_at_mut(&mut play.stage_list, &vec![1, 0, 0]).unwrap().set_opacity(250);
    assert_eq!(play.layer_at(&vec![1, 0, 0]).unwrap().opacity, 250);
    assert_eq!(play.layer_at(&vec![1, 0, 1]).unwrap().opacity, 1000);
    assert_eq!(play.layer_at(&vec![0]).unwrap().opacity, 1000);
    assert!(stage_layer_at_mut(&mut play.stage_list, &vec![]).is_none());
    assert!(stage_layer_at_mut(&mut play.stage_list, &vec![5, 0]).is_none());
}

#[test]
fn owed_calls_are_made_before_the_calls_that_waited() {
    let owed = vec![
        HandlerCall { handler: 1, path: vec![2], kind: EventKind::KeyFocusIn },
        HandlerCall { handler: 2, path: vec![0], kind: EventKind::KeyFocusOut },
    ];
    let rest = vec![HandlerCall { handler: 9, path: vec![], kind: EventKind::KeyDown(Key::Up) }];
    assert_eq!(
        calls(&calls_after(&owed, &vec![3], rest)),
        vec![
            (1, vec![3, 2], EventKind::KeyFocusIn),
            (2, vec![3, 0], EventKind::KeyFocusOut),
            (9, vec![], EventKind::KeyDown(Key::Up)),
        ]
    );
    assert!(calls_after(&Vec::new(), &vec![1], Vec::new()).is_empty());
}
