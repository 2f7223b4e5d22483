//! A triangle primitive: three vertices with their vertex normals.

use vstd::prelude::*;

use crate::material::Material;
use crate::vec3::Point3;

verus! {

#[derive(Clone, Copy, Debug)]
pub struct Triangle {
    pub verts: [Point3; 3],
    pub normals: [Point3; 3],
    pub material: Option<Material>,
}

impl Triangle {
    pub fn new(verts: [Point3; 3], normals: [Point3; 3], material: Option<Material>) -> (r: Self)
        ensures
            r.verts == verts,
            r.normals == normals,
            r.material == material,
    {
        Self { verts, normals, material }
    }
}

} // verus!
