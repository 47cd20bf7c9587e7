//! Amixima: Soundcourse effect chains for local WAV batch processing.
//!
//! The verified library holds the Soundcourse model, the INI reader and
//! writer, the validation rules and the editor's decisions.
pub mod floatbits;
pub mod text;
pub mod error;
pub mod ontology;
pub mod validation;
pub mod catalog;
pub mod ini_config;
pub mod ini_doc;
pub mod parser;
pub mod editor;
pub mod files;
pub mod listing;
pub mod batch;
pub mod symbols;

