//! The asset source: the collection that owns the mesh assets, looked up by
//! mesh identity.

use vstd::prelude::*;
use bevy_asset::Assets;
use bevy_asset::Handle;
use crate::mesh::MeshAsset;
use crate::resource::MeshIdentity;

verus! {

/// The mesh assets of the asset system: a `bevy_asset::Assets` of
/// `MeshAsset`, in which an asset stands under the handle whose id is the
/// mesh identity.
#[verifier::external_body]
pub struct MeshAssets {
    inner: Assets<MeshAsset>,
}

/// The assets that the collection holds, each under the id of its handle.
pub uninterp spec fn stored_meshes(meshes: MeshAssets) -> Map<u128, MeshAsset>;

/// `Assets::default`: a collection that holds no asset.
#[verifier::external_body]
fn assets_default() -> (collection: MeshAssets)
    ensures
        stored_meshes(collection) == (Map::<u128, MeshAsset>::empty()),
{
    MeshAssets { inner: Assets::default() }
}

/// `Assets::set`: the asset stands under the handle afterwards, in place of
/// any asset that stood there; the other assets stay. (The collection also
/// notes an event for each call, which nothing here reads.)
#[verifier::external_body]
fn assets_set(meshes: &mut MeshAssets, mesh: MeshIdentity, asset: MeshAsset)
    ensures
        stored_meshes(*final(meshes)) == stored_meshes(*old(meshes)).insert(mesh.id, asset),
{
    meshes.inner.set(Handle::from_u128(mesh.id), asset)
}

/// `Assets::get`: the asset that stands under the handle, or `None` where
/// none does.
#[verifier::external_body]
fn assets_get<'a>(meshes: &'a MeshAssets, mesh: MeshIdentity) -> (found: Option<&'a MeshAsset>)
    ensures
        found == (if stored_meshes(*meshes).contains_key(mesh.id) {
            Some(&stored_meshes(*meshes)[mesh.id])
        } else {
            None
        }),
{
    meshes.inner.get(&Handle::from_u128(mesh.id))
}

impl MeshAssets {
    /// A collection that holds no mesh.
    pub fn new() -> (meshes: Self)
        ensures
            stored_meshes(meshes) == (Map::<u128, MeshAsset>::empty()),
    {
        assets_default()
    }

    /// Stores `asset` as the geometry of `mesh`, in place of any earlier one.
    pub fn set(&mut self, mesh: MeshIdentity, asset: MeshAsset)
        ensures
            stored_meshes(*final(self)) == stored_meshes(*old(self)).insert(mesh.id, asset),
    {
        assets_set(self, mesh, asset)
    }

    /// The geometry of `mesh`, or `None` where the collection holds none
    /// for it.
    pub fn get(&self, mesh: MeshIdentity) -> (found: Option<&MeshAsset>)
        ensures
            found == (if stored_meshes(*self).contains_key(mesh.id) {
                Some(&stored_meshes(*self)[mesh.id])
            } else {
                None
            }),
    {
        assets_get(self, mesh)
    }
}

} // verus!
