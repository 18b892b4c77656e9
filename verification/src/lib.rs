//! Verified core of an image viewer and editor: document history, pixel
//! operations, folder navigation order and batch conversion decisions.
pub mod editor;
pub mod text;
pub mod pixels;
pub mod settings;
pub mod batch;
pub mod image_ops;
pub mod navigation;
pub mod decoding;
