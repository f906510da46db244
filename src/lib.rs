//! Barcode image generation: symbol rendering, logo compositing, WebP
//! encoding, and a bounded, time-expiring cache of finished responses.

pub mod cache;
pub mod create_qrcode;
pub mod handler;
pub mod http;
pub mod img;
pub mod pipeline;
pub mod raster;
