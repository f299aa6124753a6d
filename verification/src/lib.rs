pub mod cli;
pub mod crawler;
pub mod html;
pub mod json;
pub mod models;
pub mod output;
pub mod patterns;
pub mod session;
pub mod sources;
pub mod text;
pub mod urls;
