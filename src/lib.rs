//! Resource descriptors of the Docker Engine API, and their JSON wire form.

pub mod json;
pub mod generic_resources;
pub mod resource_object;
