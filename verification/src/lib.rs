//! Verified core of the rotating terminal scene: the pixel pipeline that moves the
//! software-rendered terminal screen into the model's texture atlas, the screen contents
//! shown in each scene mode, the camera progress used for image-sequence export, and the
//! export capture schedule.

pub mod grid;
pub mod layout;
pub mod pixels;
pub mod progress;
pub mod scene;
pub mod screen;
pub mod terminal;
pub mod export;
