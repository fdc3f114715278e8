//! Tasks: the ready queue and the stride scheduler.

pub mod manager;
