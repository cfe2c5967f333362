use vstd::prelude::*;

verus! {

/// Something that can draw itself, given data of its own choosing.
pub trait Drawable {
    type ExtraData;
    type Error;

    fn draw(&self, extra_data: &mut Self::ExtraData) -> Result<(), Self::Error>;

    /// Draws the wireframe; a drawable that has none draws nothing and
    /// succeeds.
    fn draw_wireframe(&self, extra_data: &mut Self::ExtraData) -> (res: Result<(), Self::Error>)
        default_ensures
            res is Ok,
    {
        Ok(())
    }
}

/// Anything that holds data on the GPU (buffers, textures, render
/// targets) and must release it explicitly.
pub trait Rasterize {
    /// Releases the GPU data; a second call finds nothing to release.
    fn cleanup_opengl(&mut self);
}

} // verus!
