//! The draw list of a layer tree.
//!
//! Rendering a tree yields the quads to draw, in order. Each carries its world transform
//! as a product of factors: the layer's own model transform first, then that of each
//! layer above it, up to the root.
use vstd::prelude::*;
use crate::event::{copy_of, extended, joined};
use crate::layer::{animated_at, layer_views, Color, Layer, LayerView};
use crate::transform::TransformOp;

verus! {

/// An orthographic projection, by the planes that bound the viewing volume.
#[derive(Copy, Clone, Debug, PartialEq, Eq, Structural)]
pub struct Projection {
    pub left: i32,
    pub right: i32,
    pub bottom: i32,
    pub top: i32,
    pub near: i32,
    pub far: i32,
}

/// One quad to draw.
///
/// `path` leads from the layer that was rendered to the layer the quad stands for.
/// `textured` tells whether the quad shows the image at `image_path` or the solid
/// `color`: a layer without an image path is not textured.
#[derive(Debug)]
pub struct DrawCommand {
    pub path: Vec<usize>,
    pub transform: Vec<TransformOp>,
    pub projection: Projection,
    pub color: Color,
    pub opacity: i32,
    pub image_path: String,
    pub textured: bool,
}

/// What a [`DrawCommand`] holds.
pub struct DrawCommandView {
    pub path: Seq<usize>,
    pub transform: Seq<TransformOp>,
    pub projection: Projection,
    pub color: Color,
    pub opacity: i32,
    pub image_path: Seq<char>,
    pub textured: bool,
}

impl View for DrawCommand {
    type V = DrawCommandView;

    open spec fn view(&self) -> DrawCommandView {
        DrawCommandView {
            path: self.path@,
            transform: self.transform@,
            projection: self.projection,
            color: self.color,
            opacity: self.opacity,
            image_path: self.image_path@,
            textured: self.textured,
        }
    }
}

/// One corner of a layer's quad: its position in the layer's own space, in pixels, and
/// the corner of the texture that belongs there.
#[derive(Copy, Clone, Debug)]
pub struct Vertex {
    pub position: (u32, u32, u32),
    pub tex_coords: (u32, u32),
}

/// The four corners of a quad of the given size, in the order in which the triangles
/// name them: the corner opposite the origin first, then round by the corner on the X
/// axis, the origin, and the corner on the Y axis.
pub open spec fn quad_corners(width: u32, height: u32) -> Seq<Vertex> {
    seq![
        Vertex { position: (width, height, 0), tex_coords: (1, 1) },
        Vertex { position: (width, 0, 0), tex_coords: (1, 0) },
        Vertex { position: (0, 0, 0), tex_coords: (0, 0) },
        Vertex { position: (0, height, 0), tex_coords: (0, 1) },
    ]
}

/// The two triangles that make a quad, by the places of their corners in
/// [`quad_corners`].
pub open spec fn quad_triangles() -> Seq<u16> {
    seq![0, 1, 3, 1, 2, 3]
}

/// The two triangles that make a quad, by the places of their corners among the
/// vertices of the quad.
pub fn quad_indices() -> (indices: Vec<u16>)
    ensures
        indices@ == quad_triangles(),
{
    let mut indices: Vec<u16> = Vec::new();
    indices.push(0);
    indices.push(1);
    indices.push(3);
    indices.push(1);
    indices.push(2);
    indices.push(3);
    proof {
        assert(indices@ =~= quad_triangles());
    }
    indices
}

/// What each of `commands` holds.
pub open spec fn draws_of(commands: Seq<DrawCommand>) -> Seq<DrawCommandView> {
    Seq::new(commands.len(), |i: int| commands[i]@)
}

impl LayerView {
    /// The quad of this layer alone, which lies under `path` and whose parent's world
    /// transform is `parent`.
    pub open spec fn own_draw(
        self,
        parent: Seq<TransformOp>,
        projection: Projection,
        path: Seq<usize>,
    ) -> DrawCommandView {
        DrawCommandView {
            path,
            transform: self.model_ops() + parent,
            projection,
            color: self.color,
            opacity: self.opacity,
            image_path: self.image_path,
            textured: self.image_path.len() > 0,
        }
    }
}

/// The quads of the first `n` of `children` but the one at `skip`, in the order of the
/// children. `world` is the world transform of their parent, which lies under `path`.
pub open spec fn draws_among(
    children: Seq<LayerView>,
    n: nat,
    skip: int,
    world: Seq<TransformOp>,
    projection: Projection,
    path: Seq<usize>,
) -> Seq<DrawCommandView>
    decreases children, n,
{
    if n == 0 || n > children.len() {
        Seq::empty()
    } else {
        let before = draws_among(children, (n - 1) as nat, skip, world, projection, path);
        if n - 1 != skip {
            before + draws(children[n - 1], world, projection, path.push((n - 1) as usize))
        } else {
            before
        }
    }
}

/// The quads of the layer `v` and of all the layers below it, in drawing order.
///
/// A hidden layer yields none, neither for itself nor for anything below it. A visible
/// one yields its own quad, then the quads of its children in their order, but for the
/// focused child, whose quads come last.
pub open spec fn draws(
    v: LayerView,
    parent: Seq<TransformOp>,
    projection: Projection,
    path: Seq<usize>,
) -> Seq<DrawCommandView>
    decreases v, 0nat,
{
    if !v.visible {
        Seq::empty()
    } else {
        let world = v.model_ops() + parent;
        let others = draws_among(
            v.sub_layer_list,
            v.sub_layer_list.len(),
            v.focused_sub_layer as int,
            world,
            projection,
            path,
        );
        let own = seq![v.own_draw(parent, projection, path)];
        if v.focused_sub_layer < v.sub_layer_list.len() {
            own + others + draws(
                v.sub_layer_list[v.focused_sub_layer as int],
                world,
                projection,
                path.push(v.focused_sub_layer),
            )
        } else {
            own + others
        }
    }
}

impl Layer {
    /// The four corners of the layer's quad.
    pub fn vertices(&self) -> (corners: Vec<Vertex>)
        ensures
            corners@ == quad_corners(self.width, self.height),
    {
        let mut corners: Vec<Vertex> = Vec::new();
        corners.push(Vertex { position: (self.width, self.height, 0), tex_coords: (1, 1) });
        corners.push(Vertex { position: (self.width, 0, 0), tex_coords: (1, 0) });
        corners.push(Vertex { position: (0, 0, 0), tex_coords: (0, 0) });
        corners.push(Vertex { position: (0, self.height, 0), tex_coords: (0, 1) });
        proof {
            assert(corners@ =~= quad_corners(self.width, self.height));
        }
        corners
    }

    /// The quads to draw for this layer and all the layers below it, in drawing order.
    ///
    /// `parent_transform` is the world transform of the layer above, if there is one;
    /// every quad is drawn under `projection`. A hidden layer yields nothing, whatever
    /// lies below it. Of a visible layer the own quad comes first, then the children in
    /// their order; the focused child comes last, so that it lies on top of its
    /// siblings.
    pub fn render(&self, parent_transform: Option<&Vec<TransformOp>>, projection: &Projection) -> (commands: Vec<
        DrawCommand,
    >)
        ensures
            draws_of(commands@) == draws(
                self@,
                match parent_transform {
                    Some(p) => p@,
                    None => Seq::empty(),
                },
                *projection,
                Seq::empty(),
            ),
            !self.visible ==> commands@.len() == 0,
    {
        let mut commands: Vec<DrawCommand> = Vec::new();
        let path: Vec<usize> = Vec::new();
        proof {
            assert(draws_of(commands@) =~= Seq::empty());
        }
        match parent_transform {
            Some(p) => {
                self.collect_draws(p, projection, &path, &mut commands);
            },
            None => {
                let identity: Vec<TransformOp> = Vec::new();
                self.collect_draws(&identity, projection, &path, &mut commands);
            },
        }
        proof {
            let parent = match parent_transform {
                Some(p) => p@,
                None => Seq::empty(),
            };
            assert(draws_of(commands@) =~= draws(self@, parent, *projection, Seq::empty()));
            if !self.visible {
                assert(draws_of(commands@).len() == 0);
            }
        }
        commands
    }

    /// Appends to `commands` the quads of this layer, which lies under `path`, and of
    /// all the layers below it.
    pub(crate) fn collect_draws(
        &self,
        parent: &Vec<TransformOp>,
        projection: &Projection,
        path: &Vec<usize>,
        commands: &mut Vec<DrawCommand>,
    )
        ensures
            draws_of(final(commands)@) == draws_of(old(commands)@) + draws(
                self@,
                parent@,
                *projection,
                path@,
            ),
        decreases self, 0nat,
    {
        if !self.visible {
            proof {
                assert(draws_of(commands@) =~= draws_of(old(commands)@) + Seq::empty());
            }
            return ;
        }
        let model: Vec<TransformOp> = self.model_matrix();
        let world: Vec<TransformOp> = joined(&model, parent);
        let ghost before = commands@;
        commands.push(
            DrawCommand {
                path: copy_of(path),
                transform: copy_of(&world),
                projection: *projection,
                color: self.color,
                opacity: self.opacity,
                image_path: self.image_path.clone(),
                textured: !self.image_path.as_str().is_empty(),
            },
        );
        proof {
            assert(draws_of(commands@) =~= draws_of(before).push(
                self@.own_draw(parent@, *projection, path@),
            ));
        }
        collect_draws_among(&self.sub_layer_list, self.focused_sub_layer, &world, projection, path, commands);
        if self.focused_sub_layer < self.sub_layer_list.len() {
            let longer: Vec<usize> = extended(path, self.focused_sub_layer);
            self.sub_layer_list[self.focused_sub_layer].collect_draws(&world, projection, &longer, commands);
        }
        proof {
            assert(self@.sub_layer_list =~= layer_views(self.sub_layer_list@));
            assert(draws_of(commands@) =~= draws_of(old(commands)@) + draws(
                self@,
                parent@,
                *projection,
                path@,
            ));
        }
    }
}

/// Appends to `commands` the quads of `children` but the one at `skip`. `world` is the
/// world transform of their parent, which lies under `path`.
fn collect_draws_among(
    children: &Vec<Layer>,
    skip: usize,
    world: &Vec<TransformOp>,
    projection: &Projection,
    path: &Vec<usize>,
    commands: &mut Vec<DrawCommand>,
)
    ensures
        draws_of(final(commands)@) == draws_of(old(commands)@) + draws_among(
            layer_views(children@),
            children@.len(),
            skip as int,
            world@,
            *projection,
            path@,
        ),
    decreases children, 1nat,
{
    let n: usize = children.len();
    let mut i: usize = 0;
    proof {
        assert(draws_of(commands@) =~= draws_of(old(commands)@) + Seq::empty());
    }
    while i < n
        invariant
            i <= n,
            n == children@.len(),
            draws_of(commands@) == draws_of(old(commands)@) + draws_among(
                layer_views(children@),
                i as nat,
                skip as int,
                world@,
                *projection,
                path@,
            ),
        decreases n - i,
    {
        if i != skip {
            let longer: Vec<usize> = extended(path, i);
            children[i].collect_draws(world, projection, &longer, commands);
            proof {
                assert(draws_of(commands@) =~= draws_of(old(commands)@) + draws_among(
                    layer_views(children@),
                    (i + 1) as nat,
                    skip as int,
                    world@,
                    *projection,
                    path@,
                ));
            }
        }
        i = i + 1;
    }
}

/// Whether the layer is visible and has no children.
pub open spec fn is_visible_leaf(v: LayerView) -> bool {
    v.visible && v.sub_layer_list.len() == 0
}

/// The child whose quad stands at the place `k` of the draw list of a layer with `n`
/// visible childless children, the focus on the child at `focus`: the place 0 is the
/// layer's own; then come the children before the focused one, then those after it, and
/// the focused one at the end.
pub open spec fn child_drawn_at(k: int, n: int, focus: int) -> int {
    if 0 <= focus < n {
        if k - 1 < focus {
            k - 1
        } else if k < n {
            k
        } else {
            focus
        }
    } else {
        k - 1
    }
}

/// A hidden layer yields no quad, whatever lies below it, while its animations advance
/// as those of a visible layer do.
pub proof fn lemma_hidden_is_animated_not_drawn(
    v: LayerView,
    now: u64,
    parent: Seq<TransformOp>,
    projection: Projection,
    path: Seq<usize>,
)
    requires
        !v.visible,
    ensures
        draws(v, parent, projection, path).len() == 0,
        draws(animated_at(v, now), parent, projection, path).len() == 0,
        animated_at(v, now) == (LayerView {
            visible: false,
            ..animated_at(LayerView { visible: true, ..v }, now)
        }),
{
    let shown = LayerView { visible: true, ..v };
    assert(animated_at(v, now).sub_layer_list =~= animated_at(shown, now).sub_layer_list);
    assert(animated_at(v, now).animations =~= animated_at(shown, now).animations);
}

/// The child that the quad at the place `k` among the siblings' quads stands for, when
/// the child at `skip` is left out.
pub open spec fn sibling_drawn_at(k: int, skip: int) -> int {
    if 0 <= skip <= k {
        k + 1
    } else {
        k
    }
}

/// Of visible childless children, the first `n` yield one quad each but for the one at
/// `skip`, in the order of the children.
proof fn lemma_leaf_draws_among(
    children: Seq<LayerView>,
    n: nat,
    skip: int,
    world: Seq<TransformOp>,
    projection: Projection,
    path: Seq<usize>,
)
    requires
        n <= children.len(),
        forall|i: int| 0 <= i < children.len() ==> is_visible_leaf(#[trigger] children[i]),
    ensures
        draws_among(children, n, skip, world, projection, path).len() == if 0 <= skip < n {
            n - 1
        } else {
            n as int
        },
        forall|k: int|
            0 <= k < draws_among(children, n, skip, world, projection, path).len() ==> #[trigger] draws_among(
                children,
                n,
                skip,
                world,
                projection,
                path,
            )[k] == children[sibling_drawn_at(k, skip)].own_draw(
                world,
                projection,
                path.push(sibling_drawn_at(k, skip) as usize),
            ),
    decreases n,
{
    if n > 0 {
        lemma_leaf_draws_among(children, (n - 1) as nat, skip, world, projection, path);
        let child = children[n - 1];
        let longer = path.push((n - 1) as usize);
        assert(is_visible_leaf(child));
        assert(draws_among(
            child.sub_layer_list,
            0,
            child.focused_sub_layer as int,
            child.model_ops() + world,
            projection,
            longer,
        ) =~= Seq::empty());
        assert(draws(child, world, projection, longer) =~= seq![child.own_draw(world, projection, longer)]);
    }
}

/// The focused child is drawn last.
///
/// Of a visible layer whose children are all visible and childless, the draw list holds
/// the layer's own quad, then one quad for each child that is not focused, in the order
/// of the children, and at the end the quad of the focused child.
pub proof fn lemma_focused_child_is_drawn_last(
    v: LayerView,
    parent: Seq<TransformOp>,
    projection: Projection,
    path: Seq<usize>,
)
    requires
        v.visible,
        forall|i: int| 0 <= i < v.sub_layer_list.len() ==> is_visible_leaf(#[trigger] v.sub_layer_list[i]),
    ensures
        draws(v, parent, projection, path).len() == v.sub_layer_list.len() + 1,
        draws(v, parent, projection, path)[0] == v.own_draw(parent, projection, path),
        forall|k: int|
            1 <= k <= v.sub_layer_list.len() ==> (#[trigger] draws(v, parent, projection, path)[k]).path
                == path.push(
                child_drawn_at(k, v.sub_layer_list.len() as int, v.focused_sub_layer as int) as usize,
            ),
        v.focused_sub_layer < v.sub_layer_list.len() ==> draws(v, parent, projection, path).last().path
            == path.push(v.focused_sub_layer),
{
    let n = v.sub_layer_list.len();
    let f = v.focused_sub_layer as int;
    let world = v.model_ops() + parent;
    let all = draws(v, parent, projection, path);
    lemma_leaf_draws_among(v.sub_layer_list, n, f, world, projection, path);
    let others = draws_among(v.sub_layer_list, n, f, world, projection, path);
    if f < n {
        let child = v.sub_layer_list[f];
        let longer = path.push(f as usize);
        assert(is_visible_leaf(child));
        assert(draws_among(
            child.sub_layer_list,
            0,
            child.focused_sub_layer as int,
            child.model_ops() + world,
            projection,
            longer,
        ) =~= Seq::empty());
        assert(draws(child, world, projection, longer) =~= seq![child.own_draw(world, projection, longer)]);
        assert forall|k: int| 1 <= k <= n implies (#[trigger] all[k]).path == path.push(
            child_drawn_at(k, n as int, f) as usize,
        ) by {
            if k < n {
                assert(all[k] == others[k - 1]);
            }
        }
    } else {
        assert forall|k: int| 1 <= k <= n implies (#[trigger] all[k]).path == path.push(
            child_drawn_at(k, n as int, f) as usize,
        ) by {
            assert(all[k] == others[k - 1]);
        }
    }
}

} // verus!
