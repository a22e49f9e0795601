use vstd::prelude::*;

verus! {

/// Handle to a camera: an index into the engine's camera arena. Handles are
/// indices into ever-growing vectors and are never reused.
#[derive(Copy, Clone, PartialEq, Eq, Structural, Debug)]
pub struct CameraHandle(pub usize);

/// Handle to a model: an index into the engine's model arena.
#[derive(Copy, Clone, PartialEq, Eq, Structural, Debug)]
pub struct ModelHandle(pub usize);

/// Handle to a texture: an index into the engine's texture arena.
#[derive(Copy, Clone, PartialEq, Eq, Structural, Debug)]
pub struct TextureHandle(pub usize);

/// Read access to the engine's model and texture arenas, resolving handles
/// to the resources they index.
pub struct AssetHandle<'a, M, T> {
    models: &'a Vec<M>,
    textures: &'a Vec<T>,
}

impl<'a, M, T> AssetHandle<'a, M, T> {
    pub closed spec fn spec_models(&self) -> Seq<M> {
        self.models@
    }

    pub closed spec fn spec_textures(&self) -> Seq<T> {
        self.textures@
    }

    pub fn new(models: &'a Vec<M>, textures: &'a Vec<T>) -> (h: Self)
        ensures
            h.spec_models() == models@,
            h.spec_textures() == textures@,
    {
        Self { models, textures }
    }

    pub fn get_model(&self, handle: ModelHandle) -> (m: &M)
        requires
            handle.0 < self.spec_models().len(),
        ensures
            *m == self.spec_models()[handle.0 as int],
    {
        &self.models[handle.0]
    }

    pub fn get_texture(&self, handle: TextureHandle) -> (t: &T)
        requires
            handle.0 < self.spec_textures().len(),
        ensures
            *t == self.spec_textures()[handle.0 as int],
    {
        &self.textures[handle.0]
    }
}

} // verus!
