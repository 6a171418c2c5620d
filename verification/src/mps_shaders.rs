//! Settings for accelerated GPU kernels: which kernels exist, shader and fusion
//! configurations, command buffer limits and dispatch grid sizes.
use vstd::prelude::*;

verus! {

/// The kinds of accelerated kernel.
#[derive(Debug, Clone, Copy, PartialEq, Eq, Structural)]
pub enum ShaderType {
    MatrixMultiply,
    Attention,
    Softmax,
    LayerNorm,
    GeLU,
}

/// How kernels are compiled and run.
#[derive(Debug, Clone, Copy, PartialEq, Eq, Structural)]
pub struct ShaderConfig {
    pub use_half_precision: bool,
    pub tile_size: usize,
    pub use_simd_group_barrier: bool,
    pub use_imageblock: bool,
}

impl Default for ShaderConfig {
    /// Half precision, 32-wide tiles, SIMD-group barriers and image blocks.
    fn default() -> (r: Self)
        ensures
            r == (ShaderConfig {
                use_half_precision: true,
                tile_size: 32,
                use_simd_group_barrier: true,
                use_imageblock: true,
            }),
    {
        ShaderConfig {
            use_half_precision: true,
            tile_size: 32,
            use_simd_group_barrier: true,
            use_imageblock: true,
        }
    }
}

impl ShaderConfig {
    /// The fastest settings: half precision, 32-wide tiles, every GPU feature on.
    pub fn for_performance() -> (r: Self)
        ensures
            r == (ShaderConfig {
                use_half_precision: true,
                tile_size: 32,
                use_simd_group_barrier: true,
                use_imageblock: true,
            }),
    {
        ShaderConfig {
            use_half_precision: true,
            tile_size: 32,
            use_simd_group_barrier: true,
            use_imageblock: true,
        }
    }

    /// The most portable settings: full precision, 16-wide tiles, no optional
    /// GPU features.
    pub fn for_compatibility() -> (r: Self)
        ensures
            r == (ShaderConfig {
                use_half_precision: false,
                tile_size: 16,
                use_simd_group_barrier: false,
                use_imageblock: false,
            }),
    {
        ShaderConfig {
            use_half_precision: false,
            tile_size: 16,
            use_simd_group_barrier: false,
            use_imageblock: false,
        }
    }
}

/// Which operations are fused into single kernels.
#[derive(Debug, Clone, Copy, PartialEq, Eq, Structural)]
pub struct FusedOpConfig {
    pub fuse_attention_with_bias: bool,
    pub fuse_matmul_with_bias: bool,
    pub fuse_gelu_with_output: bool,
    pub use_flash_attention: bool,
}

impl Default for FusedOpConfig {
    /// Every fusion on.
    fn default() -> (r: Self)
        ensures
            r == (FusedOpConfig {
                fuse_attention_with_bias: true,
                fuse_matmul_with_bias: true,
                fuse_gelu_with_output: true,
                use_flash_attention: true,
            }),
    {
        FusedOpConfig {
            fuse_attention_with_bias: true,
            fuse_matmul_with_bias: true,
            fuse_gelu_with_output: true,
            use_flash_attention: true,
        }
    }
}

/// Indirect command buffer settings.
#[derive(Debug, Clone, Copy, PartialEq, Eq, Structural)]
pub struct ICBConfig {
    pub max_commands: usize,
    pub enable_concurrent_encoding: bool,
    pub use_secondary_commandbuffers: bool,
}

impl Default for ICBConfig {
    /// Up to 1024 commands, concurrent encoding and secondary buffers on.
    fn default() -> (r: Self)
        ensures
            r == (ICBConfig {
                max_commands: 1024,
                enable_concurrent_encoding: true,
                use_secondary_commandbuffers: true,
            }),
    {
        ICBConfig {
            max_commands: 1024,
            enable_concurrent_encoding: true,
            use_secondary_commandbuffers: true,
        }
    }
}

/// The dispatch grid for `threads` threads: 32 by 8 threadgroups, as many layers
/// deep as the threads fill (at least one).
pub fn get_optimal_grid_size(threads: usize) -> (r: (usize, usize, usize))
    ensures
        r.0 == 32,
        r.1 == 8,
        r.2 == if threads / 256 > 1 {
            threads / 256
        } else {
            1
        },
{
    let width: usize = 32;
    let height: usize = 8;
    let layers = threads / (width * height);
    let depth = if layers > 1 {
        layers
    } else {
        1
    };
    (width, height, depth)
}

} // verus!
