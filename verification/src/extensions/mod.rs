pub mod number;
pub mod str;

pub use self::str::Str;
