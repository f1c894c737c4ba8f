//! Expands file-selection directives in a text template into the contents
//! of the files they select.

pub mod cli;
pub mod text;
pub mod error;
pub mod template;
pub mod warning;
pub mod paths;
pub mod language_mapping;
pub mod path_resolver;
pub mod eftemplate;
pub mod document;
