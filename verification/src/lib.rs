//! The logic of an image viewer.

use vstd::prelude::*;

pub mod actions;
pub mod animation;
pub mod answer_laws;
pub mod apng;
pub mod archive;
pub mod associations;
pub mod binding_laws;
pub mod bindings;
pub mod build_plan;
pub mod bundled;
pub mod bytes;
pub mod capture;
pub mod compositor;
pub mod decode;
pub mod decode_laws;
pub mod display;
pub mod formats;
pub mod frame_laws;
pub mod frame_pipeline;
pub mod gain_map;
pub mod gain_map_laws;
pub mod gif;
pub mod half;
pub mod hdr;
pub mod icc;
pub mod image;
pub mod keys;
pub mod listing;
pub mod listing_laws;
pub mod location;
pub mod naming_laws;
pub mod navigation;
pub mod options;
pub mod overrides;
pub mod path;
pub mod pixels;
pub mod placement;
pub mod reading_laws;
pub mod registry;
pub mod registry_laws;
pub mod resource;
pub mod scan;
pub mod search;
pub mod session;
pub mod session_laws;
pub mod session_model;
pub mod session_parts;
pub mod settings_dialog;
pub mod settings_laws;
pub mod strings;
pub mod svg;
pub mod text;
pub mod text_input;
pub mod url;
pub mod view_laws;
pub mod weight;
pub mod work_laws;
pub mod worker;

verus! {

} // verus!
