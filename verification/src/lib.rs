//! Verified core of a package registry service: the registry of rated
//! packages, the listing and search rules, the request flows for creating and
//! updating packages, and the text handling they rely on.
#![allow(non_snake_case)]

pub mod text;
pub mod schema;
pub mod registry;
pub mod response;
pub mod sort;
pub mod listing;
pub mod pattern;
pub mod codec;
pub mod archive;
pub mod repository;
pub mod api;
pub mod flows;
pub mod laws;
