//! Conversion-job model for a media service: which formats can be produced,
//! where artifacts live on storage, and the lifecycle of the jobs that derive
//! resized or transcoded variants from uploaded originals.

pub mod error;
pub mod media;
pub mod storage;
pub mod job;
pub mod store;
pub mod request;
