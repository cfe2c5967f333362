use vstd::prelude::*;

use crate::rng::random_usize;
use crate::spectrum::TSpectrum;

verus! {

/// An image whose pixels are spectra, stored row by row from the top
/// left.
///
/// The image carries an identifier: whenever the pixels may have been
/// changed (every mutable borrow of them) a fresh identifier is drawn,
/// so that a consumer holding a copy keyed by the old identifier knows
/// to refresh it.
#[derive(Debug, Clone)]
pub struct TSpectralImage<T> {
    id: usize,
    pixels: Vec<TSpectrum<T>>,
    width: usize,
    height: usize,
}

impl<T> TSpectralImage<T> {
    /// The pixels, row by row from the top left.
    pub closed spec fn spec_pixels(&self) -> Seq<TSpectrum<T>> {
        self.pixels@
    }

    pub closed spec fn spec_width(&self) -> usize {
        self.width
    }

    pub closed spec fn spec_height(&self) -> usize {
        self.height
    }

    /// The identifier of the current pixel data.
    pub closed spec fn spec_id(&self) -> usize {
        self.id
    }

    /// An image of the given size made of the given pixels, under a
    /// freshly drawn identifier.
    pub fn from_pixels(width: usize, height: usize, pixels: Vec<TSpectrum<T>>) -> (res: Self)
        ensures
            res.spec_width() == width,
            res.spec_height() == height,
            res.spec_pixels() == pixels@,
    {
        Self { id: random_usize(), pixels, width, height }
    }

    pub fn get_width(&self) -> (res: usize)
        ensures
            res == self.spec_width(),
    {
        self.width
    }

    pub fn get_height(&self) -> (res: usize)
        ensures
            res == self.spec_height(),
    {
        self.height
    }

    pub fn get_pixels(&self) -> (res: &[TSpectrum<T>])
        ensures
            res@ == self.spec_pixels(),
    {
        self.pixels.as_slice()
    }

    /// Mutable access to the pixels. The number of pixels cannot
    /// change through it, and the image takes a freshly drawn
    /// identifier since the caller may change any pixel.
    pub fn get_pixels_mut(&mut self) -> (res: &mut [TSpectrum<T>])
        ensures
            res@ == old(self).spec_pixels(),
            final(self).spec_pixels() == final(res)@,
            final(self).spec_width() == old(self).spec_width(),
            final(self).spec_height() == old(self).spec_height(),
    {
        self.id = random_usize();
        self.pixels.as_mut_slice()
    }
}

impl<T: Copy> TSpectralImage<T> {
    /// An image of `width * height` pixels, each an empty spectrum.
    pub fn new(width: usize, height: usize) -> (res: Self)
        requires
            width * height <= usize::MAX,
        ensures
            res.spec_width() == width,
            res.spec_height() == height,
            res.spec_pixels().len() == width * height,
            forall|i: int|
                0 <= i < width * height ==> (#[trigger] res.spec_pixels()[i])@
                    == Seq::<(usize, T)>::empty(),
    {
        let n: usize = width * height;
        let mut pixels: Vec<TSpectrum<T>> = Vec::with_capacity(n);
        let mut k: usize = 0;
        while k < n
            invariant
                k <= n,
                pixels@.len() == k,
                forall|i: int|
                    0 <= i < k ==> (#[trigger] pixels@[i])@ == Seq::<(usize, T)>::empty(),
            decreases n - k,
        {
            pixels.push(TSpectrum::new_empty());
            k = k + 1;
        }
        Self::from_pixels(width, height, pixels)
    }
}

} // verus!
