//! Reads the table and column declarations of a database schema description
//! into a model of tables and columns, lists the model, proposes statements
//! that lift a redundant length limit from string columns, and compares two
//! models column by column.

pub mod column;
pub mod laws;
pub mod model;
pub mod reader;
pub mod recognize;
pub mod schema;
pub mod text;

pub use column::Column;
pub use reader::Reader;
pub use recognize::{Line, PatternError};
pub use schema::Schema;
