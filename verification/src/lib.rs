pub mod json;
pub mod naming;
pub mod order;
pub mod persistence;
pub mod provider;
pub mod runtime;
pub mod sandbox;
pub mod terminal;
pub mod text;
pub mod text_laws;
pub mod textmap;
pub mod tools;
pub mod wildcard;
