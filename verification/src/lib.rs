//! Publishing HTML to a Cloud Storage bucket: the configuration, credential
//! classification, manifest, naming and diagnostic logic behind the tool.

pub mod adc;
pub mod cli;
pub mod config;
pub mod errors;
pub mod manifest;
pub mod run;
pub mod text;
pub mod upload;
pub mod verify;
