//! Window compositor: z-order, decorations, rendering, focus, input routing.
pub mod window;
pub mod surface;
pub mod render;
pub mod focus;
pub mod hotkey;
pub mod input_route;
pub mod text;
pub mod cursor;
pub mod test_app;
pub mod shell;
pub mod service;
