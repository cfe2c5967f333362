use vstd::prelude::*;

verus! {

/// Why a GPU shader program could not be built.
#[derive(Debug, Clone)]
pub enum ShaderError {
    /// A shader source could not be read.
    Io,
    /// The vertex shader did not compile; holds the compiler's log.
    VertexCompile(String),
    /// The fragment shader did not compile; holds the compiler's log.
    FragmentCompile(String),
    /// The program did not link.
    ProgramLinker,
}

} // verus!
