//! Note formatter and publisher: turns one inbound chat message into a
//! formatted note, derives its storage key, and decides the reply and
//! persistence steps of the pipeline.

pub mod escape;
pub mod generation;
pub mod note;
pub mod numfmt;
pub mod pipeline;
pub mod storage;
pub mod tags;
pub mod text;
pub mod timestamp;
