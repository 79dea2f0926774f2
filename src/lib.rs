//! A video catalogue: validated create / read / update / soft-delete of
//! video records, with filtered, ordered and paginated listing.
pub mod api;
pub mod config;
pub mod db;
pub mod entity;
pub mod error;
pub mod laws;
pub mod order;
pub mod repository;
pub mod service;
pub mod text;
pub mod validation;
