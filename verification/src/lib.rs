//! Wire-level rules of a Bare protocol proxy: the sideband header codec, the
//! outbound request translation, the response composition and the error
//! taxonomy.

pub mod codec;
pub mod envelope;
pub mod error;
pub mod exchange;
pub mod header;
pub mod json;
pub mod names;
pub mod request;
pub mod response;
pub mod text;
pub mod version;
