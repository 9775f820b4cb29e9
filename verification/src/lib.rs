//! EzGraph's backend logic: turning imported `.md` / `.txt` files into plain
//! text, and preparing and interpreting the chat exchanges with the LLM
//! providers that generate draw.io diagrams.

pub mod text;
pub mod file_parser;
pub mod llm;
pub mod commands;
