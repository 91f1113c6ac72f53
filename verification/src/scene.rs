//! The scene: its objects in order, and the camera that looks at them.

use crate::geometry::{Rot3, Vec3};
use crate::nearest::{
    all_numbers, first_minimum, kept_index, lemma_nearest_is_first_minimum, lemma_nearest_is_hit,
    nearest, option_index, take_candidate,
};
use crate::objects::{Camera, LightSource, Mesh, Sphere};
use crate::scalar::Scalar;
use crate::shading::{pixel_column, pixel_row, Shader};
use vstd::prelude::*;

verus! {

/// An object of a scene. The camera is none of them: a scene holds it apart.
pub enum SceneObject {
    Mesh(Mesh),
    Sphere(Sphere),
    LightSource(LightSource),
}

impl SceneObject {
    /// Where the object stands: a mesh's anchor, a sphere's centre, a light's
    /// position.
    pub open spec fn pos(self) -> Vec3 {
        match self {
            SceneObject::Mesh(mesh) => mesh.anchor,
            SceneObject::Sphere(sphere) => sphere.center,
            SceneObject::LightSource(light) => light.pos,
        }
    }

    /// How the object is turned.
    pub open spec fn rot(self) -> Rot3 {
        match self {
            SceneObject::Mesh(mesh) => mesh.rot,
            SceneObject::Sphere(sphere) => sphere.rot,
            SceneObject::LightSource(light) => light.rot,
        }
    }

    /// The object's identifier.
    pub open spec fn id(self) -> String {
        match self {
            SceneObject::Mesh(mesh) => mesh.id,
            SceneObject::Sphere(sphere) => sphere.id,
            SceneObject::LightSource(light) => light.id,
        }
    }

    /// A ray can hit the object: true of meshes and spheres, false of
    /// lights.
    pub open spec fn solid(self) -> bool {
        !(self is LightSource)
    }

    /// The object's position.
    pub fn get_pos(&self) -> (pos: &Vec3)
        ensures
            *pos == self.pos(),
    {
        match self {
            SceneObject::Mesh(mesh) => &mesh.anchor,
            SceneObject::Sphere(sphere) => &sphere.center,
            SceneObject::LightSource(light) => &light.pos,
        }
    }

    /// The object's orientation.
    pub fn get_rot(&self) -> (rot: &Rot3)
        ensures
            *rot == self.rot(),
    {
        match self {
            SceneObject::Mesh(mesh) => &mesh.rot,
            SceneObject::Sphere(sphere) => &sphere.rot,
            SceneObject::LightSource(light) => &light.rot,
        }
    }

    /// The object's identifier.
    pub fn get_id(&self) -> (id: &String)
        ensures
            *id == self.id(),
    {
        match self {
            SceneObject::Mesh(mesh) => &mesh.id,
            SceneObject::Sphere(sphere) => &sphere.id,
            SceneObject::LightSource(light) => &light.id,
        }
    }

    /// Tells whether a ray can hit the object.
    pub fn is_solid(&self) -> (solid: bool)
        ensures
            solid == self.solid(),
    {
        match self {
            SceneObject::LightSource(_) => false,
            _ => true,
        }
    }
}

/// The objects of a scene and its one active camera.
pub struct Scene {
    pub objects: Vec<SceneObject>,
    pub current_camera: Camera,
}

/// The lights among `objects`, in their order.
pub open spec fn light_sources(objects: Seq<SceneObject>) -> Seq<LightSource>
    decreases objects.len(),
{
    if objects.len() == 0 {
        Seq::empty()
    } else {
        let before = light_sources(objects.drop_last());
        match objects.last() {
            SceneObject::LightSource(light) => before.push(light),
            _ => before,
        }
    }
}

/// The meshes among `objects`, in their order.
pub open spec fn meshes(objects: Seq<SceneObject>) -> Seq<Mesh>
    decreases objects.len(),
{
    if objects.len() == 0 {
        Seq::empty()
    } else {
        let before = meshes(objects.drop_last());
        match objects.last() {
            SceneObject::Mesh(mesh) => before.push(mesh),
            _ => before,
        }
    }
}

/// `object` with `light` in its place, if it is a light; else `object` as it
/// is.
pub open spec fn relit(object: SceneObject, light: LightSource) -> SceneObject {
    match object {
        SceneObject::LightSource(_) => SceneObject::LightSource(light),
        other => other,
    }
}

/// `object` with `mesh` in its place, if it is a mesh; else `object` as it
/// is.
pub open spec fn reshaped(object: SceneObject, mesh: Mesh) -> SceneObject {
    match object {
        SceneObject::Mesh(_) => SceneObject::Mesh(mesh),
        other => other,
    }
}

/// How many lights stand before object number `i`: the place of that
/// object, if it is a light, among the lights.
pub open spec fn light_rank(objects: Seq<SceneObject>, i: int) -> int {
    light_sources(objects.take(i)).len() as int
}

/// How many meshes stand before object number `i`.
pub open spec fn mesh_rank(objects: Seq<SceneObject>, i: int) -> int {
    meshes(objects.take(i)).len() as int
}

/// The rank of a light is below the number of lights up to any later place.
pub proof fn lemma_light_rank(objects: Seq<SceneObject>, j: int, i: int)
    requires
        0 <= j < i <= objects.len(),
    ensures
        light_rank(objects, j) <= light_rank(objects, i),
        objects[j] is LightSource ==> light_rank(objects, j) < light_rank(objects, i),
    decreases i - j,
{
    assert(objects.take(i).drop_last() =~= objects.take(i - 1));
    if j < i - 1 {
        lemma_light_rank(objects, j, i - 1);
    }
}

/// The rank of a mesh is below the number of meshes up to any later place.
pub proof fn lemma_mesh_rank(objects: Seq<SceneObject>, j: int, i: int)
    requires
        0 <= j < i <= objects.len(),
    ensures
        mesh_rank(objects, j) <= mesh_rank(objects, i),
        objects[j] is Mesh ==> mesh_rank(objects, j) < mesh_rank(objects, i),
    decreases i - j,
{
    assert(objects.take(i).drop_last() =~= objects.take(i - 1));
    if j < i - 1 {
        lemma_mesh_rank(objects, j, i - 1);
    }
}

/// The hits that count when a ray is traced: a light is never hit, whatever
/// distance is given for it.
pub open spec fn solid_hits(objects: Seq<SceneObject>, distances: Seq<Option<Scalar>>) -> Seq<
    Option<Scalar>,
> {
    Seq::new(
        objects.len(),
        |i: int|
            if objects[i].solid() {
                distances[i]
            } else {
                None
            },
    )
}

impl Scene {
    /// The scene's lights, in the order of its objects, each open to change.
    /// What is written through a reference becomes that light of the scene;
    /// everything else stays as it was.
    pub fn get_all_light_sources(&mut self) -> (lights: Vec<&mut LightSource>)
        ensures
            lights@.len() == light_sources(old(self).objects@).len(),
            forall|k: int|
                0 <= k < lights@.len() ==> *lights@[k] == light_sources(old(self).objects@)[k],
            final(self).current_camera == old(self).current_camera,
            final(self).objects@.len() == old(self).objects@.len(),
            forall|i: int|
                0 <= i < old(self).objects@.len() ==> final(self).objects@[i] == relit(
                    old(self).objects@[i],
                    *final(lights@[light_rank(old(self).objects@, i)]),
                ),
    {
        let ghost objects = self.objects@;
        let mut res: Vec<&mut LightSource> = Vec::new();
        let mut rest: &mut [SceneObject] = self.objects.as_mut_slice();
        let ghost whole = final(rest)@;
        let ghost mut i: int = 0;
        while rest.len() > 0
            invariant
                0 <= i <= objects.len(),
                rest@ == objects.skip(i),
                res@.len() == light_rank(objects, i),
                forall|k: int| 0 <= k < res@.len() ==> *res@[k] == light_sources(objects.take(i))[k],
                whole.len() >= i,
                whole == whole.subrange(0, i) + final(rest)@,
                forall|j: int|
                    0 <= j < i ==> whole[j] == relit(objects[j], *final(res@[light_rank(objects, j)])),
            decreases rest.len(),
        {
            let ghost found = res@.len();
            assert(objects.take(i + 1).drop_last() =~= objects.take(i));
            let (head, tail) = rest.split_at_mut(1);
            let ghost head_final = final(head)@;
            match head.first_mut() {
                Some(SceneObject::LightSource(light)) => {
                    res.push(light);
                },
                _ => {
                },
            }
            rest = tail;
            proof {
                assert forall|j: int| 0 <= j < i && objects[j] is LightSource implies light_rank(
                    objects,
                    j,
                ) < found by {
                    lemma_light_rank(objects, j, i);
                }
                i = i + 1;
            }
        }
        proof {
            assert(objects.take(i) =~= objects);
        }
        res
    }

    /// The scene's meshes, in the order of its objects, each open to change.
    /// What is written through a reference becomes that mesh of the scene;
    /// everything else stays as it was.
    pub fn get_all_meshes(&mut self) -> (found: Vec<&mut Mesh>)
        ensures
            found@.len() == meshes(old(self).objects@).len(),
            forall|k: int| 0 <= k < found@.len() ==> *found@[k] == meshes(old(self).objects@)[k],
            final(self).current_camera == old(self).current_camera,
            final(self).objects@.len() == old(self).objects@.len(),
            forall|i: int|
                0 <= i < old(self).objects@.len() ==> final(self).objects@[i] == reshaped(
                    old(self).objects@[i],
                    *final(found@[mesh_rank(old(self).objects@, i)]),
                ),
    {
        let ghost objects = self.objects@;
        let mut res: Vec<&mut Mesh> = Vec::new();
        let mut rest: &mut [SceneObject] = self.objects.as_mut_slice();
        let ghost whole = final(rest)@;
        let ghost mut i: int = 0;
        while rest.len() > 0
            invariant
                0 <= i <= objects.len(),
                rest@ == objects.skip(i),
                res@.len() == mesh_rank(objects, i),
                forall|k: int| 0 <= k < res@.len() ==> *res@[k] == meshes(objects.take(i))[k],
                whole.len() >= i,
                whole == whole.subrange(0, i) + final(rest)@,
                forall|j: int|
                    0 <= j < i ==> whole[j] == reshaped(objects[j], *final(res@[mesh_rank(objects, j)])),
            decreases rest.len(),
        {
            let ghost count = res@.len();
            assert(objects.take(i + 1).drop_last() =~= objects.take(i));
            let (head, tail) = rest.split_at_mut(1);
            let ghost head_final = final(head)@;
            match head.first_mut() {
                Some(SceneObject::Mesh(mesh)) => {
                    res.push(mesh);
                },
                _ => {
                },
            }
            rest = tail;
            proof {
                assert forall|j: int| 0 <= j < i && objects[j] is Mesh implies mesh_rank(objects, j)
                    < count by {
                    lemma_mesh_rank(objects, j, i);
                }
                i = i + 1;
            }
        }
        proof {
            assert(objects.take(i) =~= objects);
        }
        res
    }

    /// The scene's lights, in the order of its objects.
    pub fn get_all_light_sources_immut(&self) -> (lights: Vec<&LightSource>)
        ensures
            lights@.len() == light_sources(self.objects@).len(),
            forall|k: int| 0 <= k < lights@.len() ==> *lights@[k] == light_sources(self.objects@)[k],
    {
        let mut res: Vec<&LightSource> = Vec::new();
        let mut i: usize = 0;
        while i < self.objects.len()
            invariant
                i <= self.objects.len(),
                res@.len() == light_sources(self.objects@.take(i as int)).len(),
                forall|k: int|
                    0 <= k < res@.len() ==> *res@[k] == light_sources(self.objects@.take(i as int))[k],
            decreases self.objects.len() - i,
        {
            proof {
                assert(self.objects@.take(i as int + 1).drop_last() =~= self.objects@.take(i as int));
            }
            if let SceneObject::LightSource(light) = &self.objects[i] {
                res.push(light);
            }
            i = i + 1;
        }
        proof {
            assert(self.objects@.take(i as int) =~= self.objects@);
        }
        res
    }

    /// The scene's meshes, in the order of its objects.
    pub fn get_all_meshes_immut(&self) -> (found: Vec<&Mesh>)
        ensures
            found@.len() == meshes(self.objects@).len(),
            forall|k: int| 0 <= k < found@.len() ==> *found@[k] == meshes(self.objects@)[k],
    {
        let mut res: Vec<&Mesh> = Vec::new();
        let mut i: usize = 0;
        while i < self.objects.len()
            invariant
                i <= self.objects.len(),
                res@.len() == meshes(self.objects@.take(i as int)).len(),
                forall|k: int|
                    0 <= k < res@.len() ==> *res@[k] == meshes(self.objects@.take(i as int))[k],
            decreases self.objects.len() - i,
        {
            proof {
                assert(self.objects@.take(i as int + 1).drop_last() =~= self.objects@.take(i as int));
            }
            if let SceneObject::Mesh(mesh) = &self.objects[i] {
                res.push(mesh);
            }
            i = i + 1;
        }
        proof {
            assert(self.objects@.take(i as int) =~= self.objects@);
        }
        res
    }

    /// Chooses the object that a ray hits. `distances` holds, for each object
    /// in order, how far from the active camera the ray hits it, or `None`
    /// where it does not: the distance is taken from the camera whatever the
    /// ray's own origin is. Lights are passed over. The first hit is kept
    /// until a later one is strictly nearer to the camera; where every
    /// distance is a number, that is the nearest hit, the earlier of two
    /// equally near.
    pub fn trace(&self, distances: &Vec<Option<Scalar>>) -> (found: Option<usize>)
        requires
            distances.len() == self.objects.len(),
        ensures
            option_index(found) == nearest(solid_hits(self.objects@, distances@)),
            found is None <==> forall|j: int|
                0 <= j < self.objects.len() ==> (#[trigger] solid_hits(self.objects@, distances@)[j])
                    is None,
            found matches Some(i) ==> i < self.objects.len() && self.objects[i as int].solid()
                && distances[i as int] is Some,
            all_numbers(solid_hits(self.objects@, distances@)) ==> (found matches Some(i)
                ==> first_minimum(solid_hits(self.objects@, distances@), i as int)),
    {
        let ghost counted = solid_hits(self.objects@, distances@);
        let mut kept: Option<(usize, Scalar)> = None;
        let mut next: usize = 0;
        while next < self.objects.len()
            invariant
                next <= self.objects.len(),
                distances.len() == self.objects.len(),
                counted == solid_hits(self.objects@, distances@),
                option_index(kept_index(kept)) == nearest(counted.take(next as int)),
                kept matches Some((k, d)) ==> k < next && counted[k as int] == Some(d),
            decreases self.objects.len() - next,
        {
            let candidate = if self.objects[next].is_solid() {
                distances[next]
            } else {
                None
            };
            proof {
                assert(counted.take(next as int + 1).drop_last() =~= counted.take(next as int));
            }
            kept = take_candidate(kept, next, candidate);
            next = next + 1;
        }
        proof {
            assert(counted.take(next as int) =~= counted);
            lemma_nearest_is_hit(counted);
            if all_numbers(counted) {
                lemma_nearest_is_first_minimum(counted);
            }
        }
        match kept {
            Some((k, _)) => Some(k),
            None => None,
        }
    }

    /// Begins the shading of pixel number `index` of an image with rows of
    /// `width` pixels. The scene's lights are counted once, here.
    pub fn cast_ray(&self, index: u64, width: i32) -> (shader: Shader)
        requires
            width > 0,
        ensures
            shader == Shader::initial(
                pixel_column(index, width) as i32,
                pixel_row(index, width) as i32,
                light_sources(self.objects@).len() as usize,
            ),
            shader.well_formed(),
    {
        let lights = self.get_all_light_sources_immut();
        Shader::start(index, width, lights.len())
    }
}

} // verus!
