//! Hana: a compiler from a small shading language to GLSL.
//!
//! A source text goes through three steps. The lexer ([`tokens`]) turns it
//! into tokens with byte offsets; the parser ([`parser`]) turns the tokens
//! into top-level nodes; the driver ([`backend`]) walks the nodes with a
//! back-end and collects one shader text per pipeline stage. The one
//! back-end writes GLSL for OpenGL ([`opengl`]); what it does is defined in
//! [`model`], and what holds of it in every state is proved in [`laws`].
//!
//! Every function of the library is verified against a contract over
//! mathematical models: texts are sequences of characters, and each data
//! type has a view.
pub mod annotations;
pub mod backend;
pub mod body;
pub mod error;
pub mod glsl;
pub mod laws;
pub mod model;
pub mod opengl;
pub mod parser;
pub mod structs;
pub mod table;
pub mod text;
pub mod tokens;
