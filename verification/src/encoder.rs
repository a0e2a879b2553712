//! One module per scheme, plus the delegating encoder that routes by tag.

pub mod bcrypt;
pub mod delegating;
pub mod digest;
pub mod md4;
pub mod md5;
pub mod noop;
pub mod standard;
