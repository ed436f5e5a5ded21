use cgmath::{Deg, Matrix4, SquareMatrix, Vector3, Vector4};
use rust_animation::layer::Layer;
use rust_animation::render::Projection;
use rust_animation::transform::TransformOp;

fn matrix(ops: &[TransformOp]) -> Matrix4<f32> {
    let mut product: Matrix4<f32> = Matrix4::identity();
    for op in ops {
        let factor = match *op {
            TransformOp::Translate { x, y, z } => Matrix4::from_translation(Vector3::new(
                x as f32 / 1000.0,
                y as f32 / 1000.0,
                z as f32 / 1000.0,
            )),
            TransformOp::Rotate { degrees } => Matrix4::from_angle_z(Deg(degrees as f32)),
            TransformOp::Scale { x, y, z } => {
                Matrix4::from_nonuniform_scale(x as f32 / 1000.0, y as f32 / 1000.0, z as f32 / 1000.0)
            }
        };
        product = product * factor;
    }
    product
}

fn corner(m: &Matrix4<f32>, x: f32, y: f32) -> (f32, f32) {
    let p = m * Vector4::new(x, y, 0.0, 1.0);
    (p.x, p.y)
}

fn close(a: (f32, f32), b: (f32, f32)) -> bool {
    (a.0 - b.0).abs() < 1e-3 && (a.1 - b.1).abs() < 1e-3
}

#[test]
fn rotation_and_scale_keep_the_anchor_fixed() {
    let mut layer = Layer::new("quad".to_string(), 100, 100, None);
    layer.rotation = 90;
    layer.scale_x = 2000;
    layer.scale_y = 2000;
    let m = matrix(&layer.model_matrix());

    assert!(close(corner(&m, 50.0, 50.0), (50.0, 50.0)));
    assert!(close(corner(&m, 0.0, 0.0), (150.0, -50.0)));
    assert!(close(corner(&m, 100.0, 0.0), (150.0, 150.0)));
    assert!(close(corner(&m, 100.0, 100.0), (-50.0, 150.0)));
    assert!(close(corner(&m, 0.0, 100.0), (-50.0, -50.0)));
}

#[test]
fn the_order_of_the_factors_matters() {
    let mut layer = Layer::new("quad".to_string(), 100, 100, None);
    layer.set_position(10, 20);
    layer.rotation = 90;
    layer.scale_x = 2000;
    layer.scale_y = 1000;
    let ops = layer.model_matrix();
    let m = matrix(&ops);
    // Scaled along its own X axis first, then turned: the width ends up along Y.
    assert!(close(corner(&m, 0.0, 50.0), (60.0, -30.0)));
    assert!(close(corner(&m, 100.0, 50.0), (60.0, 170.0)));

    let mut swapped = ops.clone();
    swapped.swap(2, 3);
    let wrong = matrix(&swapped);
    assert!(!close(corner(&wrong, 100.0, 50.0), (60.0, 170.0)));
}

#[test]
fn the_position_moves_the_whole_quad() {
    let mut layer = Layer::new("quad".to_string(), 40, 20, None);
    layer.set_position(-5, 8);
    let m = matrix(&layer.model_matrix());
    assert!(close(corner(&m, 0.0, 0.0), (-5.0, 8.0)));
    assert!(close(corner(&m, 40.0, 20.0), (35.0, 28.0)));
}

#[test]
fn a_child_is_placed_by_its_own_transform_times_that_of_its_parent() {
    let mut parent = Layer::new("parent".to_string(), 100, 100, None);
    parent.set_position(100, 0);
    let mut child = Layer::new("child".to_string(), 10, 10, None);
    child.set_position(0, 50);
    parent.add_sub_layer(child);
    let screen = Projection { left: 0, right: 800, bottom: 600, top: 0, near: 1, far: -1 };
    let drawn = parent.render(None, &screen);
    let own = matrix(&parent.sublayers()[0].model_matrix());
    let above = matrix(&parent.model_matrix());
    assert_eq!(matrix(&drawn[1].transform), own * above);
}
