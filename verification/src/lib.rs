pub mod node_id;
pub mod paths;
pub mod render;
pub mod run;
pub mod strings;

pub use run::{run_tty, run_winit};
