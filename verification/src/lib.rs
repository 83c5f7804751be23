//! Decoding of camera RAW sensor data and common image containers into packed
//! RGB pixels, with header-based format detection and a bounded,
//! freshness-aware cache of decoded images.

pub mod cfa;
pub mod container;
pub mod decoded;
pub mod demosaic;
pub mod detector;
pub mod bignat;
pub mod cache;
pub mod error;
pub mod extension;
pub mod flow;
pub mod gamma;
pub mod paths;
pub mod photo;
pub mod processors;
pub mod raw;
pub mod sensor;
pub mod standard;
pub mod view;
