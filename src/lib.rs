//! A controller for an addressable LED strip: the strip model, the Flow
//! animation language (values, durations, validation, interpretation), the
//! animation store's file framing and the animator's scheduling decisions.

pub mod interface;
pub mod errors;
pub mod pixels;
pub mod service;
pub mod flow;
pub mod animations;
pub mod rainbow;
