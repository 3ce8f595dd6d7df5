//! Verified core of the awesome-list generator: resource classification,
//! ordering, README table rendering and the decisions around repository
//! lookups and Connect IQ searches.

pub mod text;
pub mod order;
pub mod resource;
pub mod sorting;
pub mod render;
pub mod catalog;
pub mod time;
pub mod urls;
pub mod update;
pub mod compare;
pub mod search;


