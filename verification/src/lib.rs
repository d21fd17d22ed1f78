//! Request building, reply parsing and file naming for an image-generation
//! workbench that talks to OpenAI-style and Gemini image services.
pub mod file_laws;
pub mod files;
pub mod json;
pub mod laws;
pub mod model;
pub mod outside;
pub mod payload_laws;
pub mod prompt;
pub mod reply_laws;
pub mod request_laws;
pub mod requests;
pub mod responses;
pub mod text;
pub mod validation;
