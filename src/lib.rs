//! The query core of an embedded relational database: the uniform error taxonomy, the
//! lexer, expression evaluation under three-valued logic, the row operators of the
//! executor (Filter, Projection, Order, Limit, Offset, nested loop join), and logical
//! plans with a rule-based optimizer.

pub mod error;
pub mod execute;
pub mod expression;
mod foreign;
pub mod lexer;
pub mod order;
pub mod plan;
pub mod value;

pub use error::{Error, Result};
