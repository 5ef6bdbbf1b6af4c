//! OpenAI chat serving: request states, sampling inputs and response shaping.
pub mod chat;
pub mod config;
pub mod error;
pub mod frames;
pub mod json;
pub mod logprobs;
pub mod lowerer;
pub mod names;
pub mod request;
pub mod response;
pub mod run;
pub mod sampling;
pub mod status;
pub mod stream;
pub mod text;
pub mod tools;
pub mod unary;
pub mod usage;
pub mod wire;
