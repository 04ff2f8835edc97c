//! Verified core of a personal matter-and-todo assistant: text rules that route
//! captured snippets to matters, extract todos, normalise due times, clean OCR
//! chat titles, keep the matter/log/todo store consistent, file captures,
//! send reminders once, and place the compact dock window.

pub mod text;
pub mod ascii;
pub mod timefmt;
pub mod order;
pub mod models;
pub mod lits;
pub mod clock;
pub mod store;
pub mod seqs;
pub mod words;
pub mod routing;
pub mod todo_rules;
pub mod summary;
pub mod prompts;
pub mod ai_service;
pub mod llm;
pub mod wechat;
pub mod dock;
pub mod shortcuts;
pub mod settings;
pub mod commands;
pub mod capture;
pub mod reminders;
pub mod autostart;
pub mod seed;
pub mod ids;
pub mod store_laws;
