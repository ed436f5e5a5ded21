//! The scene-graph node: geometry, live transform state, children, attached animations
//! and focus.
use vstd::prelude::*;
use crate::animation::{Animation, Pose};

verus! {

/// The node of the layout solver that stands for a layer. Carried, never read.
#[verifier::external_type_specification]
#[verifier::external_body]
pub struct ExSolverNode(stretch::node::Node);

/// The style a layer is registered with at the layout solver. Carried, never read.
#[verifier::external_type_specification]
#[verifier::external_body]
pub struct ExSolverStyle(stretch::style::Style);

/// The logical keys that layers react to.
#[derive(Copy, Clone, Debug, PartialEq, Eq, Structural)]
pub enum Key {
    Space,
    Enter,
    Tab,
    Backspace,
    Escape,
    Right,
    Left,
    Down,
    Up,
}

impl Key {
    /// The number that stands for the key.
    pub open spec fn spec_code(self) -> i32 {
        match self {
            Key::Space => 32,
            Key::Enter => 36,
            Key::Tab => 48,
            Key::Backspace => 51,
            Key::Escape => 53,
            Key::Right => 262,
            Key::Left => 263,
            Key::Down => 264,
            Key::Up => 265,
        }
    }

    /// The number that stands for the key.
    #[verifier::when_used_as_spec(spec_code)]
    pub fn code(self) -> (code: i32)
        ensures
            code == self.spec_code(),
    {
        match self {
            Key::Space => 32,
            Key::Enter => 36,
            Key::Tab => 48,
            Key::Backspace => 51,
            Key::Escape => 53,
            Key::Right => 262,
            Key::Left => 263,
            Key::Down => 264,
            Key::Up => 265,
        }
    }

    /// The key that `code` stands for, if it stands for one.
    pub open spec fn spec_from_code(code: i32) -> Option<Key> {
        if code == 32 {
            Some(Key::Space)
        } else if code == 36 {
            Some(Key::Enter)
        } else if code == 48 {
            Some(Key::Tab)
        } else if code == 51 {
            Some(Key::Backspace)
        } else if code == 53 {
            Some(Key::Escape)
        } else if code == 262 {
            Some(Key::Right)
        } else if code == 263 {
            Some(Key::Left)
        } else if code == 264 {
            Some(Key::Down)
        } else if code == 265 {
            Some(Key::Up)
        } else {
            None
        }
    }

    /// The key that `code` stands for, if it stands for one.
    #[verifier::when_used_as_spec(spec_from_code)]
    pub fn from_code(code: i32) -> (key: Option<Key>)
        ensures
            key == Key::spec_from_code(code),
    {
        if code == 32 {
            Some(Key::Space)
        } else if code == 36 {
            Some(Key::Enter)
        } else if code == 48 {
            Some(Key::Tab)
        } else if code == 51 {
            Some(Key::Backspace)
        } else if code == 53 {
            Some(Key::Escape)
        } else if code == 262 {
            Some(Key::Right)
        } else if code == 263 {
            Some(Key::Left)
        } else if code == 264 {
            Some(Key::Down)
        } else if code == 265 {
            Some(Key::Up)
        } else {
            None
        }
    }
}

/// Every key is found again by its number, and a number stands for at most one key.
pub proof fn lemma_key_codes_round_trip(key: Key, code: i32)
    ensures
        Key::spec_from_code(key.spec_code()) == Some(key),
        Key::spec_from_code(code) == Some(key) <==> key.spec_code() == code,
{
}

/// Who places the children of the stages.
#[derive(Copy, Clone, Debug, PartialEq, Eq, Structural)]
pub enum LayoutMode {
    UserDefine,
    Flex,
}

/// A colour, each channel in parts of [`crate::UNIT`].
#[derive(Copy, Clone, Debug, PartialEq, Eq, Structural)]
pub struct Color {
    pub r: i32,
    pub g: i32,
    pub b: i32,
}

/// An animation attached to a layer under a key.
#[derive(Clone, Debug)]
pub struct NamedAnimation {
    pub key: String,
    pub animation: Animation,
}

/// What a [`NamedAnimation`] holds.
pub struct NamedAnimationView {
    pub key: Seq<char>,
    pub animation: Animation,
}

impl View for NamedAnimation {
    type V = NamedAnimationView;

    open spec fn view(&self) -> NamedAnimationView {
        NamedAnimationView { key: self.key@, animation: self.animation }
    }
}

/// A node of the scene graph.
///
/// Positions are parent-relative pixels; `z`, the anchor, the scale and the opacity are
/// counted in parts of [`crate::UNIT`]; the rotation is in degrees. A layer owns its
/// children, so the graph is a tree.
///
/// `event_handler` and `layout` name the handler and the layout strategy attached to the
/// layer. The layer decides which of them is called, when, and in which order; making
/// the call is the caller's part.
pub struct Layer {
    pub name: String,
    pub x: i32,
    pub y: i32,
    pub z: i32,
    pub width: u32,
    pub height: u32,
    pub anchor_x: i32,
    pub anchor_y: i32,
    pub scale_x: i32,
    pub scale_y: i32,
    pub rotation: i32,
    pub visible: bool,
    pub color: Color,
    pub opacity: i32,
    pub image_path: String,
    pub sub_layer_list: Vec<Layer>,
    pub animated: bool,
    pub animation: Option<Animation>,
    pub animations: Vec<NamedAnimation>,
    pub event_handler: Option<u64>,
    pub layout: Option<u64>,
    pub focused_sub_layer: usize,
    pub focused: bool,
    pub needs_update: bool,
    pub node: Option<stretch::node::Node>,
    pub style: Option<stretch::style::Style>,
}

/// What a [`Layer`] holds, its children and its texts as sequences.
pub struct LayerView {
    pub name: Seq<char>,
    pub x: i32,
    pub y: i32,
    pub z: i32,
    pub width: u32,
    pub height: u32,
    pub anchor_x: i32,
    pub anchor_y: i32,
    pub scale_x: i32,
    pub scale_y: i32,
    pub rotation: i32,
    pub visible: bool,
    pub color: Color,
    pub opacity: i32,
    pub image_path: Seq<char>,
    pub sub_layer_list: Seq<LayerView>,
    pub animated: bool,
    pub animation: Option<Animation>,
    pub animations: Seq<NamedAnimationView>,
    pub event_handler: Option<u64>,
    pub layout: Option<u64>,
    pub focused_sub_layer: usize,
    pub focused: bool,
    pub needs_update: bool,
    pub node: Option<stretch::node::Node>,
    pub style: Option<stretch::style::Style>,
}

impl View for Layer {
    type V = LayerView;

    open spec fn view(&self) -> LayerView {
        self.model()
    }
}

impl Layer {
    /// What the layer holds, its children and its texts as sequences.
    pub open spec fn model(&self) -> LayerView
        decreases self,
    {
        LayerView {
            name: self.name@,
            x: self.x,
            y: self.y,
            z: self.z,
            width: self.width,
            height: self.height,
            anchor_x: self.anchor_x,
            anchor_y: self.anchor_y,
            scale_x: self.scale_x,
            scale_y: self.scale_y,
            rotation: self.rotation,
            visible: self.visible,
            color: self.color,
            opacity: self.opacity,
            image_path: self.image_path@,
            sub_layer_list: Seq::new(
                self.sub_layer_list@.len(),
                |i: int|
                    if 0 <= i < self.sub_layer_list@.len() {
                        self.sub_layer_list@[i].model()
                    } else {
                        arbitrary()
                    },
            ),
            animated: self.animated,
            animation: self.animation,
            animations: Seq::new(self.animations@.len(), |i: int| self.animations@[i]@),
            event_handler: self.event_handler,
            layout: self.layout,
            focused_sub_layer: self.focused_sub_layer,
            focused: self.focused,
            needs_update: self.needs_update,
            node: self.node,
            style: self.style,
        }
    }
}

impl LayerView {
    /// The properties that animations drive.
    pub open spec fn pose(self) -> Pose {
        Pose {
            x: self.x,
            y: self.y,
            rotation: self.rotation,
            scale_x: self.scale_x,
            scale_y: self.scale_y,
            opacity: self.opacity,
            animated: self.animated,
        }
    }

    /// This layer with the animated properties taken from `pose`.
    pub open spec fn with_pose(self, pose: Pose) -> LayerView {
        LayerView {
            x: pose.x,
            y: pose.y,
            rotation: pose.rotation,
            scale_x: pose.scale_x,
            scale_y: pose.scale_y,
            opacity: pose.opacity,
            animated: pose.animated,
            ..self
        }
    }

    /// A layer as its constructor makes it.
    pub open spec fn fresh(name: Seq<char>, w: u32, h: u32, event_handler: Option<u64>) -> LayerView {
        LayerView {
            name,
            x: 0,
            y: 0,
            z: 0,
            width: w,
            height: h,
            anchor_x: 500,
            anchor_y: 500,
            scale_x: 1000,
            scale_y: 1000,
            rotation: 0,
            visible: true,
            color: Color { r: 1000, g: 1000, b: 1000 },
            opacity: 1000,
            image_path: Seq::empty(),
            sub_layer_list: Seq::empty(),
            animated: false,
            animation: None,
            animations: Seq::empty(),
            event_handler,
            layout: None,
            focused_sub_layer: 0,
            focused: false,
            needs_update: true,
            node: None,
            style: None,
        }
    }
}

impl Layer {
    /// A visible, white, opaque layer of the given size at the origin, with its anchor
    /// at the centre, no children, no animation, and in need of layout.
    pub fn new(name: String, w: u32, h: u32, event_handler: Option<u64>) -> (layer: Layer)
        ensures
            layer@ == LayerView::fresh(name@, w, h, event_handler),
    {
        let layer = Layer {
            name,
            x: 0,
            y: 0,
            z: 0,
            width: w,
            height: h,
            anchor_x: 500,
            anchor_y: 500,
            scale_x: 1000,
            scale_y: 1000,
            rotation: 0,
            visible: true,
            color: Color { r: 1000, g: 1000, b: 1000 },
            opacity: 1000,
            image_path: String::new(),
            sub_layer_list: Vec::new(),
            animated: false,
            animation: None,
            animations: Vec::new(),
            event_handler,
            layout: None,
            focused_sub_layer: 0,
            focused: false,
            needs_update: true,
            node: None,
            style: None,
        };
        proof {
            assert(layer@.sub_layer_list =~= Seq::empty());
            assert(layer@.animations =~= Seq::empty());
        }
        layer
    }

    /// Sets the fill colour.
    pub fn set_color(&mut self, r: i32, g: i32, b: i32)
        ensures
            final(self)@ == (LayerView { color: Color { r, g, b }, ..old(self)@ }),
    {
        self.color = Color { r, g, b };
    }

    /// Sets the position relative to the parent.
    pub fn set_position(&mut self, x: i32, y: i32)
        ensures
            final(self)@ == (LayerView { x, y, ..old(self)@ }),
    {
        self.x = x;
        self.y = y;
    }

    /// The position relative to the parent.
    pub fn position(&self) -> (p: (i32, i32))
        ensures
            p == (self.x, self.y),
    {
        (self.x, self.y)
    }

    /// Sets the size.
    pub fn set_bounds(&mut self, width: u32, height: u32)
        ensures
            final(self)@ == (LayerView { width, height, ..old(self)@ }),
    {
        self.width = width;
        self.height = height;
    }

    /// The size.
    pub fn bounds(&self) -> (b: (u32, u32))
        ensures
            b == (self.width, self.height),
    {
        (self.width, self.height)
    }

    /// Sets the opacity, brought into the range from 0 to one whole.
    pub fn set_opacity(&mut self, opacity: i32)
        ensures
            final(self)@ == (LayerView { opacity: clamped_opacity(opacity), ..old(self)@ }),
            0 <= final(self).opacity <= crate::UNIT,
    {
        self.opacity = if opacity < 0 {
            0
        } else if opacity > 1000 {
            1000
        } else {
            opacity
        };
    }

    /// Sets the fill colour.
    pub fn set_background_color(&mut self, r: i32, g: i32, b: i32)
        ensures
            final(self)@ == (LayerView { color: Color { r, g, b }, ..old(self)@ }),
    {
        self.set_color(r, g, b);
    }

    /// The fill colour.
    pub fn background_color(&self) -> (c: (i32, i32, i32))
        ensures
            c == (self.color.r, self.color.g, self.color.b),
    {
        (self.color.r, self.color.g, self.color.b)
    }

    /// Sets the path of the image that textures the layer. An empty path leaves the
    /// layer a quad of solid colour.
    pub fn set_image(&mut self, path: String)
        ensures
            final(self)@ == (LayerView { image_path: path@, ..old(self)@ }),
    {
        self.image_path = path;
    }

    /// Makes the layer show a rendered text: the bitmap's size becomes the layer's, and
    /// the bitmap textures it under the path `temp`.
    pub fn set_text(&mut self, bitmap_width: u32, bitmap_height: u32)
        ensures
            final(self)@ == (LayerView {
                image_path: "temp"@,
                width: bitmap_width,
                height: bitmap_height,
                ..old(self)@
            }),
    {
        self.image_path = "temp".to_owned();
        self.width = bitmap_width;
        self.height = bitmap_height;
    }

    /// Attaches a layout strategy, or detaches the one attached.
    pub fn set_layout(&mut self, layout: Option<u64>)
        ensures
            final(self)@ == (LayerView { layout, ..old(self)@ }),
    {
        self.layout = layout;
    }

    /// Puts `animation` into the single unnamed slot, or empties the slot.
    pub fn set_animation(&mut self, animation: Option<Animation>)
        ensures
            final(self)@ == (LayerView { animation, ..old(self)@ }),
    {
        self.animation = animation;
    }

    /// Sets the style the layout solver is to use for this layer.
    pub fn set_style(&mut self, style: stretch::style::Style)
        ensures
            final(self)@ == (LayerView { style: Some(style), ..old(self)@ }),
    {
        self.style = Some(style);
    }

    /// Shows or hides the layer and everything below it.
    pub fn set_visible(&mut self, visible: bool)
        ensures
            final(self)@ == (LayerView { visible, ..old(self)@ }),
    {
        self.visible = visible;
    }

    /// Appends `layer` to the children.
    pub fn add_sub_layer(&mut self, layer: Layer)
        ensures
            final(self)@ == (LayerView {
                sub_layer_list: old(self)@.sub_layer_list.push(layer@),
                ..old(self)@
            }),
    {
        self.sub_layer_list.push(layer);
        proof {
            assert(self@.sub_layer_list =~= old(self)@.sub_layer_list.push(layer@));
        }
    }

    /// Appends `layer` to the children.
    pub fn add_sublayer(&mut self, layer: Layer)
        ensures
            final(self)@ == (LayerView {
                sub_layer_list: old(self)@.sub_layer_list.push(layer@),
                ..old(self)@
            }),
    {
        self.add_sub_layer(layer);
    }

    /// The children, in the order they were added.
    pub fn sublayers(&self) -> (children: &Vec<Layer>)
        ensures
            children == &self.sub_layer_list,
    {
        &self.sub_layer_list
    }

    /// The number of named animations attached.
    pub fn animation_count(&self) -> (n: usize)
        ensures
            n == self@.animations.len(),
    {
        self.animations.len()
    }

    /// The place of the animation named `key` among the named animations.
    fn find_animation(&self, key: &String) -> (found: Option<usize>)
        ensures
            match found {
                Some(i) => i == key_position(self@.animations, key@, 0) && i < self@.animations.len()
                    && self.animations@[i as int].key@ == key@,
                None => key_position(self@.animations, key@, 0) == self@.animations.len(),
            },
    {
        let n: usize = self.animations.len();
        let mut i: usize = 0;
        while i < n
            invariant
                i <= n,
                n == self.animations@.len(),
                key_position(self@.animations, key@, 0) == key_position(self@.animations, key@, i as int),
            decreases n - i,
        {
            if self.animations[i].key == *key {
                return Some(i);
            }
            i = i + 1;
        }
        None
    }

    /// Whether an animation named `key` is attached.
    pub fn has_animation(&self, key: &str) -> (b: bool)
        ensures
            b == has_key(self@.animations, key@),
    {
        let k: String = key.to_owned();
        self.find_animation(&k).is_some()
    }

    /// Attaches `animation` under `key`, in place of the animation that `key` named
    /// before, if any. Without a key the animation goes into the single unnamed slot.
    pub fn add_animation(&mut self, animation: Animation, key: Option<&str>)
        ensures
            final(self)@ == old(self)@.with_animation(
                animation,
                match key {
                    Some(k) => Some(k@),
                    None => None,
                },
            ),
    {
        match key {
            Some(k) => {
                let owned: String = k.to_owned();
                match self.find_animation(&owned) {
                    Some(i) => {
                        self.animations[i].animation = animation;
                        proof {
                            assert(self@.animations =~= old(self)@.animations.update(
                                i as int,
                                NamedAnimationView { key: k@, animation },
                            ));
                        }
                    },
                    None => {
                        self.animations.push(NamedAnimation { key: owned, animation });
                        proof {
                            assert(self@.animations =~= old(self)@.animations.push(
                                NamedAnimationView { key: k@, animation },
                            ));
                        }
                    },
                }
            },
            None => {
                self.animation = Some(animation);
            },
        }
    }

    /// Detaches every animation: the named ones and the one in the unnamed slot.
    pub fn remove_all_animations(&mut self)
        ensures
            final(self)@ == (LayerView {
                animations: Seq::empty(),
                animation: None,
                ..old(self)@
            }),
    {
        self.animations.clear();
        self.animation = None;
        proof {
            assert(self@.animations =~= Seq::empty());
        }
    }

    /// Detaches the animation named `key`. Where `key` names none, nothing changes.
    pub fn remove_animation(&mut self, key: &str)
        ensures
            final(self)@ == old(self)@.without_animation(key@),
    {
        let owned: String = key.to_owned();
        match self.find_animation(&owned) {
            Some(i) => {
                self.animations.remove(i);
                proof {
                    assert(self@.animations =~= old(self)@.animations.remove(i as int));
                }
            },
            None => {},
        }
    }

    /// The children, for the caller to change.
    pub fn sublayers_mut(&mut self) -> (children: &mut Vec<Layer>)
        ensures
            *children == old(self).sub_layer_list,
            *final(self) == (Layer { sub_layer_list: *final(children), ..*old(self) }),
    {
        &mut self.sub_layer_list
    }

    /// The properties that animations drive.
    pub fn pose(&self) -> (pose: Pose)
        ensures
            pose == self@.pose(),
    {
        Pose {
            x: self.x,
            y: self.y,
            rotation: self.rotation,
            scale_x: self.scale_x,
            scale_y: self.scale_y,
            opacity: self.opacity,
            animated: self.animated,
        }
    }

    /// Takes the animated properties from `pose`.
    pub fn set_pose(&mut self, pose: Pose)
        ensures
            final(self)@ == old(self)@.with_pose(pose),
    {
        self.x = pose.x;
        self.y = pose.y;
        self.rotation = pose.rotation;
        self.scale_x = pose.scale_x;
        self.scale_y = pose.scale_y;
        self.opacity = pose.opacity;
        self.animated = pose.animated;
    }

    /// Advances every attached animation to `now`, then those of all the layers below.
    ///
    /// The animation in the unnamed slot runs first, then the named ones in the order
    /// they were attached; where two drive one property, the later one's value stays.
    /// Hidden layers are animated like visible ones.
    pub fn animate(&mut self, now: u64)
        ensures
            final(self)@ == animated_at(old(self)@, now),
        decreases *old(self),
    {
        let mut pose: Pose = self.pose();
        match &mut self.animation {
            Some(a) => {
                a.advance(&mut pose, now);
            },
            None => {},
        }
        advance_named(&mut self.animations, &mut pose, now);
        self.x = pose.x;
        self.y = pose.y;
        self.rotation = pose.rotation;
        self.scale_x = pose.scale_x;
        self.scale_y = pose.scale_y;
        self.opacity = pose.opacity;
        self.animated = pose.animated;
        proof {
            assert(self.sub_layer_list == old(self).sub_layer_list);
            assert(decreases_to!(*old(self) => old(self).sub_layer_list));
        }
        animate_all(&mut self.sub_layer_list, now);
        proof {
            let goal = animated_at(old(self)@, now);
            assert(self@.animations =~= goal.animations);
            assert(self@.sub_layer_list =~= goal.sub_layer_list);
        }
    }
}

/// Advances each of `animations` to `now`, in order, on `pose`.
fn advance_named(animations: &mut Vec<NamedAnimation>, pose: &mut Pose, now: u64)
    ensures
        final(animations)@.len() == old(animations)@.len(),
        forall|j: int|
            0 <= j < old(animations)@.len() ==> (#[trigger] final(animations)@[j])@ == (
            NamedAnimationView {
                key: old(animations)@[j].key@,
                animation: old(animations)@[j].animation.ran(now),
            }),
        *final(pose) == run_named(views_of(old(animations)@), now, *old(pose)),
{
    let n: usize = animations.len();
    let mut i: usize = 0;
    while i < n
        invariant
            i <= n,
            n == animations@.len(),
            n == old(animations)@.len(),
            forall|j: int|
                0 <= j < i ==> (#[trigger] animations@[j])@ == (NamedAnimationView {
                    key: old(animations)@[j].key@,
                    animation: old(animations)@[j].animation.ran(now),
                }),
            forall|j: int| i <= j < n ==> #[trigger] animations@[j] == old(animations)@[j],
            *pose == run_named(views_of(old(animations)@).take(i as int), now, *old(pose)),
        decreases n - i,
    {
        proof {
            let all = views_of(old(animations)@);
            assert(all.take(i + 1).drop_last() =~= all.take(i as int));
            assert(all.take(i + 1).last() == all[i as int]);
        }
        animations[i].animation.advance(pose, now);
        i = i + 1;
    }
    proof {
        let all = views_of(old(animations)@);
        assert(all.take(n as int) =~= all);
    }
}

/// Animates each of `layers` at `now`.
fn animate_all(layers: &mut Vec<Layer>, now: u64)
    ensures
        final(layers)@.len() == old(layers)@.len(),
        forall|j: int|
            0 <= j < old(layers)@.len() ==> (#[trigger] final(layers)@[j])@ == animated_at(
                old(layers)@[j]@,
                now,
            ),
    decreases *old(layers),
{
    let n: usize = layers.len();
    let mut i: usize = 0;
    while i < n
        invariant
            i <= n,
            n == layers@.len(),
            n == old(layers)@.len(),
            forall|j: int|
                0 <= j < i ==> (#[trigger] layers@[j])@ == animated_at(old(layers)@[j]@, now),
            forall|j: int| i <= j < n ==> #[trigger] layers@[j] == old(layers)@[j],
        decreases n - i,
    {
        layers[i].animate(now);
        i = i + 1;
    }
}

/// What each of `layers` holds.
pub open spec fn layer_views(layers: Seq<Layer>) -> Seq<LayerView> {
    Seq::new(layers.len(), |i: int| layers[i]@)
}

/// What each of `animations` holds.
pub open spec fn views_of(animations: Seq<NamedAnimation>) -> Seq<NamedAnimationView> {
    Seq::new(animations.len(), |i: int| animations[i]@)
}

/// The pose that running each of `animations` at `now`, in order, leaves of `pose`.
pub open spec fn run_named(animations: Seq<NamedAnimationView>, now: u64, pose: Pose) -> Pose
    decreases animations.len(),
{
    if animations.len() == 0 {
        pose
    } else {
        animations.last().animation.posed(now, run_named(animations.drop_last(), now, pose))
    }
}

/// The layer after its animations, and those of all the layers below, have advanced to
/// `now`.
pub open spec fn animated_at(v: LayerView, now: u64) -> LayerView
    decreases v,
{
    let after_unnamed = match v.animation {
        Some(a) => a.posed(now, v.pose()),
        None => v.pose(),
    };
    LayerView {
        animation: match v.animation {
            Some(a) => Some(a.ran(now)),
            None => None,
        },
        animations: Seq::new(
            v.animations.len(),
            |i: int|
                NamedAnimationView {
                    key: v.animations[i].key,
                    animation: v.animations[i].animation.ran(now),
                },
        ),
        sub_layer_list: Seq::new(
            v.sub_layer_list.len(),
            |i: int|
                if 0 <= i < v.sub_layer_list.len() {
                    animated_at(v.sub_layer_list[i], now)
                } else {
                    arbitrary()
                },
        ),
        ..v.with_pose(run_named(v.animations, now, after_unnamed))
    }
}

impl Animation {
    /// Steps every running animator to `now` and writes its value into the matching
    /// property of `layer`: translation into `x` and `y`, rotation into `rotation`, scale
    /// into both `scale_x` and `scale_y`, opacity into `opacity`. `layer.animated`
    /// becomes whether any animator is still running.
    pub fn run(&mut self, layer: &mut Layer, now: u64)
        ensures
            *final(self) == old(self).ran(now),
            final(layer)@ == old(layer)@.with_pose(old(self).posed(now, old(layer)@.pose())),
    {
        let mut pose: Pose = layer.pose();
        self.advance(&mut pose, now);
        layer.set_pose(pose);
    }
}

/// `opacity` brought into the range from 0 to one whole.
pub open spec fn clamped_opacity(opacity: i32) -> i32 {
    if opacity < 0 {
        0
    } else if opacity > crate::UNIT {
        crate::UNIT
    } else {
        opacity
    }
}

/// The place of the first animation from `from` on that is named `key`, or the length
/// of `animations` where there is none.
pub open spec fn key_position(animations: Seq<NamedAnimationView>, key: Seq<char>, from: int) -> int
    decreases animations.len() - from,
{
    if from < 0 || from >= animations.len() {
        animations.len() as int
    } else if animations[from].key == key {
        from
    } else {
        key_position(animations, key, from + 1)
    }
}

/// Whether an animation named `key` is among `animations`.
pub open spec fn has_key(animations: Seq<NamedAnimationView>, key: Seq<char>) -> bool {
    key_position(animations, key, 0) < animations.len()
}

/// No two of `animations` share a key.
pub open spec fn keys_are_unique(animations: Seq<NamedAnimationView>) -> bool {
    forall|i: int, j: int|
        0 <= i < j < animations.len() ==> #[trigger] animations[i].key != #[trigger] animations[j].key
}

impl LayerView {
    /// This layer with `animation` attached under `key`: in place of the first animation
    /// of that name, or after the others where the name is new; in the unnamed slot
    /// where there is no key.
    pub open spec fn with_animation(self, animation: Animation, key: Option<Seq<char>>) -> LayerView {
        match key {
            Some(k) => {
                let entry = NamedAnimationView { key: k, animation };
                let i = key_position(self.animations, k, 0);
                if i < self.animations.len() {
                    LayerView { animations: self.animations.update(i, entry), ..self }
                } else {
                    LayerView { animations: self.animations.push(entry), ..self }
                }
            },
            None => LayerView { animation: Some(animation), ..self },
        }
    }

    /// This layer without the first animation named `key`.
    pub open spec fn without_animation(self, key: Seq<char>) -> LayerView {
        let i = key_position(self.animations, key, 0);
        if i < self.animations.len() {
            LayerView { animations: self.animations.remove(i), ..self }
        } else {
            self
        }
    }
}

/// Where [`key_position`] points, there is the first animation of that name; where it
/// points past the end, no animation has that name.
pub proof fn lemma_key_position_is_first(animations: Seq<NamedAnimationView>, key: Seq<char>, from: int)
    requires
        0 <= from <= animations.len(),
    ensures
        from <= key_position(animations, key, from) <= animations.len(),
        key_position(animations, key, from) < animations.len() ==> animations[key_position(
            animations,
            key,
            from,
        )].key == key,
        forall|j: int| from <= j < key_position(animations, key, from) ==> animations[j].key != key,
    decreases animations.len() - from,
{
    if from < animations.len() && animations[from].key != key {
        lemma_key_position_is_first(animations, key, from + 1);
    }
}

/// Attaching an animation under a key keeps the keys unique, and the key then names the
/// animation attached.
pub proof fn lemma_attach_keeps_keys_unique(v: LayerView, animation: Animation, key: Seq<char>)
    requires
        keys_are_unique(v.animations),
    ensures
        keys_are_unique(v.with_animation(animation, Some(key)).animations),
        has_key(v.with_animation(animation, Some(key)).animations, key),
        v.with_animation(animation, Some(key)).animations[key_position(
            v.with_animation(animation, Some(key)).animations,
            key,
            0,
        )] == (NamedAnimationView { key, animation }),
        v.with_animation(animation, Some(key)).animations.len() == if has_key(v.animations, key) {
            v.animations.len()
        } else {
            v.animations.len() + 1
        },
{
    let after = v.with_animation(animation, Some(key)).animations;
    lemma_key_position_is_first(v.animations, key, 0);
    lemma_key_position_is_first(after, key, 0);
    let i = key_position(v.animations, key, 0);
    if i < v.animations.len() {
        assert(after[i].key == key);
    } else {
        assert(after[v.animations.len() as int].key == key);
    }
}

/// Detaching the animation named `key` leaves the keys unique, leaves no animation of
/// that name, and leaves every other animation attached, in the order it had.
pub proof fn lemma_detach_removes_the_key(v: LayerView, key: Seq<char>)
    requires
        keys_are_unique(v.animations),
    ensures
        keys_are_unique(v.without_animation(key).animations),
        !has_key(v.without_animation(key).animations, key),
        v.without_animation(key).animations == v.animations.filter(
            |a: NamedAnimationView| a.key != key,
        ),
{
    let before = v.animations;
    let after = v.without_animation(key).animations;
    let keep = |a: NamedAnimationView| a.key != key;
    lemma_key_position_is_first(before, key, 0);
    lemma_key_position_is_first(after, key, 0);
    let i = key_position(before, key, 0);
    if i < before.len() {
        assert forall|j: int| 0 <= j < after.len() implies after[j].key != key by {
            if j < i {
                assert(after[j] == before[j]);
            } else {
                assert(after[j] == before[j + 1]);
            }
        }
        assert forall|j: int, k: int| 0 <= j < k < after.len() implies #[trigger] after[j].key
            != #[trigger] after[k].key by {
            let jj = if j < i { j } else { j + 1 };
            let kk = if k < i { k } else { k + 1 };
            assert(after[j] == before[jj]);
            assert(after[k] == before[kk]);
        }
        lemma_filter_drops_one(before, i, keep);
    } else {
        lemma_filter_keeps_all(before, keep);
    }
}

/// A filter that every element passes changes nothing.
proof fn lemma_filter_keeps_all<A>(s: Seq<A>, keep: spec_fn(A) -> bool)
    requires
        forall|j: int| 0 <= j < s.len() ==> keep(s[j]),
    ensures
        s.filter(keep) == s,
    decreases s.len(),
{
    reveal(Seq::filter);
    if s.len() > 0 {
        lemma_filter_keeps_all(s.drop_last(), keep);
        assert(s.drop_last().push(s.last()) =~= s);
    }
}

/// A filter that every element passes but the one at `i` removes that one.
proof fn lemma_filter_drops_one<A>(s: Seq<A>, i: int, keep: spec_fn(A) -> bool)
    requires
        0 <= i < s.len(),
        !keep(s[i]),
        forall|j: int| 0 <= j < s.len() && j != i ==> keep(s[j]),
    ensures
        s.filter(keep) == s.remove(i),
    decreases s.len(),
{
    reveal(Seq::filter);
    if i == s.len() - 1 {
        lemma_filter_keeps_all(s.drop_last(), keep);
        assert(s.remove(i) =~= s.drop_last());
    } else {
        lemma_filter_drops_one(s.drop_last(), i, keep);
        assert(s.remove(i) =~= s.drop_last().remove(i).push(s.last()));
    }
}

} // verus!
