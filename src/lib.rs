//! Cursor theming for wayland pointers: a cache of cursor themes, one per
//! scale factor, and the per-pointer state that renders the chosen cursor
//! onto a surface of its own and makes it the pointer's image.

pub mod cache;
pub mod model;
pub mod protocol;
pub mod theme;

pub use model::{Frame, PointerSettings, SurfaceOp};
pub use protocol::{AttachedCompositor, AttachedShm};
pub use theme::{ThemeManager, ThemedPointer};
