pub mod error;
pub mod gray_image;
pub mod font_atlas;
pub mod texture_atlas;
pub mod font;
pub mod font_face;
pub mod image_data;
pub mod timing;
pub mod frame_monitor;
pub mod color;
pub mod frame_stat_display;
pub mod camera;
pub mod window;
