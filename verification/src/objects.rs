//! What a scene is made of: triangles and the four kinds of object.

use crate::color::{Color, Material};
use crate::geometry::{Rot3, Vec3};
use crate::ident::{fresh_id, is_object_id};
use crate::nearest::{
    first_minimum, kept_index, lemma_nearest_is_first_minimum, lemma_nearest_is_hit, nearest,
    option_index, take_candidate,
};
use crate::scalar::Scalar;
use vstd::prelude::*;

verus! {

/// The pattern of 0.01: a hit no farther than this from the ray's origin is
/// taken for the surface that the ray started on.
pub const BIAS: u64 = 0x3F84_7AE1_47AE_147B;

/// A triangle in the space of the mesh that owns it.
pub struct Tri {
    pub a: Vec3,
    pub b: Vec3,
    pub c: Vec3,
    pub mat: Material,
}

/// A set of triangles, placed by an anchor and an orientation.
pub struct Mesh {
    pub anchor: Vec3,
    pub rot: Rot3,
    pub tri_list: Vec<Tri>,
    pub id: String,
}

/// A sphere. Its orientation plays no part in the intersection test.
pub struct Sphere {
    pub center: Vec3,
    pub radius: Scalar,
    pub rot: Rot3,
    pub material: Material,
    pub id: String,
}

/// A point light. No ray hits it and it casts no shadow.
pub struct LightSource {
    pub pos: Vec3,
    pub rot: Rot3,
    pub intensity: Scalar,
    pub color: Color,
    pub id: String,
}

/// The pinhole camera. No ray hits it and it casts no shadow.
pub struct Camera {
    pub pos: Vec3,
    pub rot: Rot3,
    /// The field of view, in degrees.
    pub fov: u16,
    pub id: String,
}

/// The hits of a mesh's triangles that count: those farther than the bias
/// from the ray's origin.
pub open spec fn beyond_bias(distances: Seq<Option<Scalar>>) -> Seq<Option<Scalar>> {
    Seq::new(
        distances.len(),
        |i: int|
            match distances[i] {
                Some(d) => if d.gt(Scalar { bits: BIAS }) {
                    Some(d)
                } else {
                    None
                },
                None => None,
            },
    )
}

impl Mesh {
    /// Makes a mesh of the given triangles, under a fresh identifier.
    pub fn new(anchor: Vec3, rot: Rot3, tris: Vec<Tri>) -> (mesh: Self)
        ensures
            mesh.anchor == anchor,
            mesh.rot == rot,
            mesh.tri_list == tris,
            is_object_id(mesh.id@),
    {
        Mesh { anchor, rot, tri_list: tris, id: fresh_id() }
    }

    /// Chooses the triangle that a ray hits first, and hands out its place
    /// in the mesh and its material. `distances` holds, for each triangle in
    /// order, how far from the ray's origin the ray hits it, or `None` where
    /// it does not. Hits within the bias are passed over; of the others the
    /// nearest is chosen, the earlier of two equally near.
    pub fn nearest_hit(&self, distances: &Vec<Option<Scalar>>) -> (found: Option<(usize, Material)>)
        requires
            distances.len() == self.tri_list.len(),
        ensures
            found is None <==> forall|j: int|
                0 <= j < distances.len() ==> (#[trigger] beyond_bias(distances@)[j]) is None,
            found matches Some((i, material)) ==> i < self.tri_list.len() && material
                == self.tri_list[i as int].mat,
            found matches Some((i, _)) ==> nearest(beyond_bias(distances@)) == Some(i as int),
            found matches Some((i, _)) ==> first_minimum(beyond_bias(distances@), i as int),
    {
        let ghost counted = beyond_bias(distances@);
        let bias = Scalar { bits: BIAS };
        let mut kept: Option<(usize, Scalar)> = None;
        let mut next: usize = 0;
        while next < distances.len()
            invariant
                next <= distances.len(),
                counted == beyond_bias(distances@),
                bias.bits == BIAS,
                option_index(kept_index(kept)) == nearest(counted.take(next as int)),
                kept matches Some((k, d)) ==> k < next && counted[k as int] == Some(d),
            decreases distances.len() - next,
        {
            let candidate = match distances[next] {
                Some(d) => if d.greater_than(&bias) {
                    Some(d)
                } else {
                    None
                },
                None => None,
            };
            proof {
                assert(counted.take(next as int + 1).drop_last() =~= counted.take(next as int));
            }
            kept = take_candidate(kept, next, candidate);
            next = next + 1;
        }
        proof {
            assert(counted.take(next as int) =~= counted);
            lemma_nearest_is_hit(counted);
            lemma_nearest_is_first_minimum(counted);
        }
        match kept {
            Some((k, _)) => Some((k, self.tri_list[k].mat)),
            None => None,
        }
    }
}

impl Sphere {
    /// Makes a sphere with no turn, under a fresh identifier.
    pub fn new(pos: Vec3, rad: Scalar, mat: Material) -> (sphere: Self)
        ensures
            sphere.center == pos,
            sphere.radius == rad,
            sphere.material == mat,
            sphere.rot == Rot3::new(),
            is_object_id(sphere.id@),
    {
        Sphere { center: pos, radius: rad, material: mat, rot: Rot3::new(), id: fresh_id() }
    }
}

impl LightSource {
    /// Makes a white light, under a fresh identifier.
    pub fn new(pos: Vec3, rot: Rot3, intensity: Scalar) -> (light: Self)
        ensures
            light.pos == pos,
            light.rot == rot,
            light.intensity == intensity,
            light.color == (Color { r: 255, g: 255, b: 255 }),
            is_object_id(light.id@),
    {
        LightSource { pos, rot, intensity, color: Color { r: 255, g: 255, b: 255 }, id: fresh_id() }
    }
}

impl Camera {
    /// Makes a camera, under a fresh identifier.
    pub fn new(pos: Vec3, rot: Rot3, fov: u16) -> (camera: Self)
        ensures
            camera.pos == pos,
            camera.rot == rot,
            camera.fov == fov,
            is_object_id(camera.id@),
    {
        Camera { pos, rot, fov, id: fresh_id() }
    }

    /// Widens the field of view by one degree.
    pub fn widen(&mut self)
        requires
            old(self).fov < u16::MAX,
        ensures
            *final(self) == (Camera { fov: (old(self).fov + 1) as u16, ..*old(self) }),
    {
        self.fov = self.fov + 1;
    }

    /// Narrows the field of view by one degree.
    pub fn narrow(&mut self)
        requires
            old(self).fov > 0,
        ensures
            *final(self) == (Camera { fov: (old(self).fov - 1) as u16, ..*old(self) }),
    {
        self.fov = self.fov - 1;
    }
}

} // verus!
