pub mod definitions;
pub mod kernel1d;
pub mod kernel2d;
pub mod resize;

pub use definitions::{KernelKind, MagicKernel, Sharp2013, Sharp2021};
pub use kernel1d::{Kernel1D, TapList};
pub use kernel2d::Kernel2D;
pub use resize::{plan, resolve_size, Version};
