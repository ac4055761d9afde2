//! Core logic of a personal website: the mapping between URL paths and the
//! sections of the site, and the password generator.

pub mod decimal;
pub mod password;
pub mod sections;
pub mod text;
