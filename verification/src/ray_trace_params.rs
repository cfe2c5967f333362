use vstd::prelude::*;

verus! {

/// The size of the image to trace, the deepest a path may go and the
/// number of samples taken for each pixel.
#[derive(Debug, Clone, Copy, PartialEq, Eq, Structural)]
pub struct RayTraceParams {
    width: usize,
    height: usize,
    trace_max_depth: usize,
    samples_per_pixel: usize,
}

impl RayTraceParams {
    pub closed spec fn spec_width(&self) -> usize {
        self.width
    }

    pub closed spec fn spec_height(&self) -> usize {
        self.height
    }

    pub closed spec fn spec_trace_max_depth(&self) -> usize {
        self.trace_max_depth
    }

    pub closed spec fn spec_samples_per_pixel(&self) -> usize {
        self.samples_per_pixel
    }

    pub fn new(width: usize, height: usize, trace_max_depth: usize, samples_per_pixel: usize) -> (res: Self)
        ensures
            res.spec_width() == width,
            res.spec_height() == height,
            res.spec_trace_max_depth() == trace_max_depth,
            res.spec_samples_per_pixel() == samples_per_pixel,
    {
        Self { width, height, trace_max_depth, samples_per_pixel }
    }

    pub fn get_width(&self) -> (res: usize)
        ensures
            res == self.spec_width(),
    {
        self.width
    }

    pub fn get_height(&self) -> (res: usize)
        ensures
            res == self.spec_height(),
    {
        self.height
    }

    pub fn get_trace_max_depth(&self) -> (res: usize)
        ensures
            res == self.spec_trace_max_depth(),
    {
        self.trace_max_depth
    }

    pub fn get_samples_per_pixel(&self) -> (res: usize)
        ensures
            res == self.spec_samples_per_pixel(),
    {
        self.samples_per_pixel
    }
}

} // verus!
