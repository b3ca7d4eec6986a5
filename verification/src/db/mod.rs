//! Data model of stored app and mask configurations.

pub mod models;
