//! A build-and-publish pipeline for place files: the configuration model and
//! its validation, the decisions taken while build steps run, the check of
//! the session credential, and the making and confirming of the upload.

pub mod credential;
pub mod decimal;
pub mod pipeline;
pub mod publish;
pub mod status;
pub mod steps;
pub mod structures;
