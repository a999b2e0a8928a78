//! Data model and wire decoding for the resources that the Fimfiction API
//! returns: stories, chapters, users, groups and the rest.
pub mod json;
pub mod resources;
pub mod response;
pub mod rules;
pub mod values;
pub mod wire;
