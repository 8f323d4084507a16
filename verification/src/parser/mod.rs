pub mod ir;
pub mod syntax;
pub mod convert;
pub mod source;
