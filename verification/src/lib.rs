//! A URL-shortening core library: pre-generated short-key pools, atomic
//! key allocation backing new short URLs, and redemption of short keys
//! with click counting.

pub mod config;
pub mod dtos;
pub mod errors;
pub mod keygen;
pub mod laws;
pub mod mappers;
pub mod model;
pub mod schema;
pub mod text;
pub mod url_repository;
pub mod url_service;
pub mod user;
pub mod user_repository;
pub mod user_service;
