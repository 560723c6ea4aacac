pub mod builtin;
pub mod env;
pub mod laws;
pub mod load;
pub mod machine;
pub mod prelude;
pub mod quoting;
pub mod step;
