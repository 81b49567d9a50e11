//! A scene: a camera and the models it looks at.

use crate::camera::Camera;
use crate::color::Color;
use crate::fixed::Fixed;
use crate::geometry::Model;
use crate::geometry::Triangle;
use crate::linalg::apply_spec;
use crate::linalg::translation_spec;
use crate::linalg::Matrix;
use crate::raster::rasterize_barycentric_ccw;
use crate::raster::rasterized;
use crate::samplers::SimpleMultiSampler;
use crate::shader::SolidColorShader;
use crate::target::RenderTarget;
use crate::target::TargetView;
use vstd::prelude::*;

verus! {

/// A camera and an ordered list of models.
pub struct Scene {
    camera: Camera,
    models: Vec<Model>,
}

/// The triangle with the transform applied to each vertex.
pub open spec fn transformed(transform: Seq<Fixed>, tri: Triangle) -> Triangle {
    Triangle(
        apply_spec(transform, tri.0),
        apply_spec(transform, tri.1),
        apply_spec(transform, tri.2),
    )
}

/// The shader that every triangle of a scene is drawn with: opaque white.
pub open spec fn scene_shader() -> SolidColorShader {
    SolidColorShader(
        Color { r: Fixed::of(65536), g: Fixed::of(65536), b: Fixed::of(65536), a: Fixed::of(65536) },
    )
}

/// The sampler that every triangle of a scene is drawn with: four samples to
/// the pixel.
pub open spec fn scene_sampler() -> SimpleMultiSampler {
    SimpleMultiSampler(2)
}

/// The target after one triangle of a model is drawn: the triangle is moved
/// by the model's transform, projected and rasterized. A triangle with a
/// vertex that cannot be projected is skipped.
pub open spec fn triangle_drawn(
    camera: Camera,
    t: TargetView,
    transform: Seq<Fixed>,
    tri: Triangle,
) -> TargetView {
    let moved = transformed(transform, tri);
    if camera.projectable(moved.0) && camera.projectable(moved.1) && camera.projectable(moved.2) {
        rasterized(t, camera.projected_triangle(moved), scene_sampler(), scene_shader())
    } else {
        t
    }
}

/// The target after the given triangles are drawn in order.
pub open spec fn triangles_drawn(
    camera: Camera,
    t: TargetView,
    transform: Seq<Fixed>,
    tris: Seq<Triangle>,
) -> TargetView
    decreases tris.len(),
{
    if tris.len() == 0 {
        t
    } else {
        triangle_drawn(
            camera,
            triangles_drawn(camera, t, transform, tris.drop_last()),
            transform,
            tris.last(),
        )
    }
}

/// The target after the given models are drawn in order, each with the
/// translation by its position as its transform.
pub open spec fn models_drawn(camera: Camera, t: TargetView, models: Seq<Model>) -> TargetView
    decreases models.len(),
{
    if models.len() == 0 {
        t
    } else {
        triangles_drawn(
            camera,
            models_drawn(camera, t, models.drop_last()),
            translation_spec(models.last().pos),
            models.last().mesh.0@,
        )
    }
}

impl Scene {
    /// The camera of the scene.
    pub closed spec fn spec_camera(&self) -> Camera {
        self.camera
    }

    /// The models of the scene, in the order in which they were added.
    pub closed spec fn spec_models(&self) -> Seq<Model> {
        self.models@
    }

    /// A scene with the given camera and no model.
    pub fn new(camera: Camera) -> (scene: Scene)
        ensures
            scene.spec_camera() == camera,
            scene.spec_models() == Seq::<Model>::empty(),
    {
        Scene { camera, models: Vec::new() }
    }

    /// The camera of the scene.
    pub fn camera<'a>(&'a self) -> (camera: &'a Camera)
        ensures
            *camera == self.spec_camera(),
    {
        &self.camera
    }

    /// Adds a model after those already in the scene.
    pub fn add_model(&mut self, model: Model)
        ensures
            final(self).spec_camera() == old(self).spec_camera(),
            final(self).spec_models() == old(self).spec_models().push(model),
    {
        self.models.push(model);
    }

    /// Draws every triangle of every model onto the target, model by model
    /// and triangle by triangle, in order.
    pub fn render(&self, rt: &mut RenderTarget)
        requires
            old(rt).wf(),
        ensures
            final(rt).wf(),
            final(rt)@ == models_drawn(self.spec_camera(), old(rt)@, self.spec_models()),
            final(rt)@.width == old(rt)@.width,
            final(rt)@.height == old(rt)@.height,
    {
        let ghost before: TargetView = rt@;
        let mut i: usize = 0;
        while i < self.models.len()
            invariant
                i <= self.models.len(),
                rt.wf(),
                rt@.width == before.width,
                rt@.height == before.height,
                rt@ == models_drawn(self.camera, before, self.models@.take(i as int)),
            decreases self.models.len() - i,
        {
            let m: &Model = &self.models[i];
            let model_transform: Matrix = m.get_transform();
            let ghost start: TargetView = rt@;
            let mut j: usize = 0;
            while j < m.mesh.0.len()
                invariant
                    j <= m.mesh.0.len(),
                    rt.wf(),
                    rt@.width == before.width,
                    rt@.height == before.height,
                    model_transform@ == translation_spec(m.pos),
                    rt@ == triangles_drawn(
                        self.camera,
                        start,
                        translation_spec(m.pos),
                        m.mesh.0@.take(j as int),
                    ),
                decreases m.mesh.0.len() - j,
            {
                let t: &Triangle = &m.mesh.0[j];
                let ph_shader: SolidColorShader = SolidColorShader(Color::white());
                let sampler: SimpleMultiSampler = SimpleMultiSampler(2);
                let moved: Triangle = Triangle::new(
                    model_transform.apply(&t.0),
                    model_transform.apply(&t.1),
                    model_transform.apply(&t.2),
                );
                proof {
                    assert(m.mesh.0@.take(j + 1).drop_last() =~= m.mesh.0@.take(j as int));
                    assert(m.mesh.0@.take(j + 1).last() == *t);
                    assert(moved == transformed(translation_spec(m.pos), *t));
                }
                match self.camera.project_triangle(&moved) {
                    Some(t_proj) => {
                        rasterize_barycentric_ccw(&t_proj, rt, &self.camera, &sampler, &ph_shader);
                    },
                    None => {},
                }
                j = j + 1;
            }
            proof {
                assert(m.mesh.0@.take(j as int) =~= m.mesh.0@);
                assert(self.models@.take(i + 1).drop_last() =~= self.models@.take(i as int));
                assert(self.models@.take(i + 1).last() == *m);
            }
            i = i + 1;
        }
        assert(self.models@.take(i as int) =~= self.models@);
    }
}

} // verus!
