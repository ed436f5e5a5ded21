//! The model transform of a layer, as the sequence of its factors.
//!
//! A transform is a product of elementary transforms, written in the order of the
//! factors: the last one of the sequence is the first applied to a point of the quad.
use vstd::prelude::*;
use crate::layer::{Layer, LayerView};

verus! {

/// One factor of a transform.
#[derive(Copy, Clone, Debug, PartialEq, Eq, Structural)]
pub enum TransformOp {
    /// A translation, in thousandths of a pixel.
    Translate { x: i64, y: i64, z: i64 },
    /// A rotation about the Z axis, in degrees.
    Rotate { degrees: i32 },
    /// A scaling, each factor in parts of [`crate::UNIT`].
    Scale { x: i32, y: i32, z: i32 },
}

impl LayerView {
    /// The horizontal distance from the layer's origin to its anchor, in thousandths of
    /// a pixel.
    pub open spec fn pivot_x(self) -> int {
        self.width * self.anchor_x
    }

    /// The vertical distance from the layer's origin to its anchor, in thousandths of a
    /// pixel.
    pub open spec fn pivot_y(self) -> int {
        self.height * self.anchor_y
    }

    /// The rotation about the anchor: no factor at all for zero degrees.
    pub open spec fn rotation_ops(self) -> Seq<TransformOp> {
        if self.rotation != 0 {
            seq![TransformOp::Rotate { degrees: self.rotation }]
        } else {
            Seq::empty()
        }
    }

    /// The factors of the model transform: the translation to the layer's position, the
    /// translation to its anchor, the rotation, the scaling (flat: its Z factor is 0),
    /// and the translation back from the anchor.
    pub open spec fn model_ops(self) -> Seq<TransformOp> {
        seq![
            TransformOp::Translate {
                x: (self.x * crate::UNIT) as i64,
                y: (self.y * crate::UNIT) as i64,
                z: self.z as i64,
            },
            TransformOp::Translate { x: self.pivot_x() as i64, y: self.pivot_y() as i64, z: 0 },
        ] + self.rotation_ops() + seq![
            TransformOp::Scale { x: self.scale_x, y: self.scale_y, z: 0 },
            TransformOp::Translate { x: (-self.pivot_x()) as i64, y: (-self.pivot_y()) as i64, z: 0 },
        ]
    }
}

/// The product of an extent and an anchor fits in 64 bits, and so does its negation.
proof fn lemma_pivot_fits(extent: u32, anchor: i32)
    ensures
        -0x7fff_ffff_ffff_ffff <= extent * anchor <= 0x7fff_ffff_ffff_ffff,
{
    assert(-0x7fff_ffff_ffff_ffff <= extent * anchor <= 0x7fff_ffff_ffff_ffff) by (nonlinear_arith)
        requires
            0 <= extent <= 0xffff_ffff,
            -0x8000_0000 <= anchor <= 0x7fff_ffff,
    ;
}

impl Layer {
    /// The factors of the layer's model transform, in the order of the product.
    ///
    /// Rotation and scaling happen about the anchor, so the anchor stays where it is. A
    /// rotation of zero degrees contributes no factor.
    pub fn model_matrix(&self) -> (ops: Vec<TransformOp>)
        ensures
            ops@ == self@.model_ops(),
    {
        proof {
            lemma_pivot_fits(self.width, self.anchor_x);
            lemma_pivot_fits(self.height, self.anchor_y);
        }
        let pivot_x: i64 = (self.width as i64) * (self.anchor_x as i64);
        let pivot_y: i64 = (self.height as i64) * (self.anchor_y as i64);
        let mut ops: Vec<TransformOp> = Vec::new();
        ops.push(
            TransformOp::Translate {
                x: (self.x as i64) * 1000,
                y: (self.y as i64) * 1000,
                z: self.z as i64,
            },
        );
        ops.push(TransformOp::Translate { x: pivot_x, y: pivot_y, z: 0 });
        if self.rotation != 0 {
            ops.push(TransformOp::Rotate { degrees: self.rotation });
        }
        ops.push(TransformOp::Scale { x: self.scale_x, y: self.scale_y, z: 0 });
        ops.push(TransformOp::Translate { x: -pivot_x, y: -pivot_y, z: 0 });
        proof {
            assert(ops@ =~= self@.model_ops());
        }
        ops
    }
}

/// The translation back from the anchor undoes the translation to it, and nothing but
/// the rotation and the scaling stands between the two.
pub proof fn lemma_anchor_is_fixed(v: LayerView)
    ensures
        v.model_ops().len() == if v.rotation != 0 { 5int } else { 4int },
        v.model_ops()[1] == (TransformOp::Translate {
            x: v.pivot_x() as i64,
            y: v.pivot_y() as i64,
            z: 0,
        }),
        v.model_ops().last() == (TransformOp::Translate {
            x: (-v.pivot_x()) as i64,
            y: (-v.pivot_y()) as i64,
            z: 0,
        }),
        v.pivot_x() as i64 + (-v.pivot_x()) as i64 == 0,
        v.pivot_y() as i64 + (-v.pivot_y()) as i64 == 0,
{
    lemma_pivot_fits(v.width, v.anchor_x);
    lemma_pivot_fits(v.height, v.anchor_y);
}

} // verus!
