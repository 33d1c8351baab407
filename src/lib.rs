//! Request building and response decoding for several model-serving HTTP
//! providers, over one JSON value type and one deep-merge rule.

pub mod json;
pub mod bailian;
pub mod completion;
pub mod decode;
pub mod text;
pub mod tei;
pub mod volcengine;
