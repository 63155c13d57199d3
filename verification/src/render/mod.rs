pub mod app_icon;
pub mod raster;
pub mod window;
pub mod monitor_map;
pub mod state;
pub mod text;
pub mod bearings;
pub mod utils;
pub mod render_utils;
pub mod cursor_theme;
pub mod background;
pub mod layer_shell;
pub mod frame;
pub mod node;
pub mod node_map;
