//! A batch text-templating engine: a line-oriented work-order language
//! (`if`, `of`, `r`, `do`) driving sequential literal substitution.

pub mod directive;
pub mod interpreter;
pub mod level;
pub mod script;
pub mod split;
pub mod substitute;
pub mod text;
