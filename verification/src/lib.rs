//! A voxel ray traversal viewer: what it decides, apart from the graphics card and the window.
//!
//! - [`search`] chooses the physical device and the queue family, from what [`device`] tells of
//!   each device.
//! - [`swapchain`] and [`image`] plan the swapchain, the images and the scene.
//! - [`frame`] decides how a frame is drawn and when the swapchain is made again.
//! - [`event`] takes the events of the window into the input, [`input`] reads the input of a step
//!   and [`controls`] decides what it does to the camera.
//! - [`app`] holds the state and handles the events of the window.
pub mod app;
pub mod controls;
pub mod device;
pub mod event;
pub mod extent;
pub mod frame;
pub mod image;
pub mod input;
pub mod search;
pub mod swapchain;
