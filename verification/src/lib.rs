//! Loads a YAML document into a typed value tree in which every node
//! carries its source position.
//!
//! [`yaml::load_stream`] reads the one document of a text;
//! [`yaml::load_from_str`] also shows the tree to a [`validator::Validator`].
//! [`laws`] holds what is proved of every tree that is built.

pub mod data;
pub mod error;
pub mod events;
pub mod laws;
pub mod scalar;
pub mod validator;
pub mod yaml;
