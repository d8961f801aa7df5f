//! Text classification front end: the fixed-width character encoding fed to
//! the model, request validation, and the mapping of model scores to the
//! labelled response fields.

pub mod alphabet;
pub mod request;
pub mod response;
