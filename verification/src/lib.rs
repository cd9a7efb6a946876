pub mod app;
pub mod client;
pub mod grading;
pub mod kana;
pub mod schedule;
pub mod screen;
pub mod subject;
pub mod text;
