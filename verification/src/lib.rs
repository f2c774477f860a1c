//! Verified core of a tool that watches a stream for YouTube videos, records
//! them and prepares their titles, thumbnails and uploads.
pub mod strings;
pub mod text;
pub mod prompts;
pub mod gpt;
pub mod llm;
pub mod screen;
pub mod video;
pub mod thumbnail;
pub mod monitor;
pub mod json;
