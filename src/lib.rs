pub mod column;
pub mod error;
pub mod laws;
mod names;
pub mod query;
pub mod render;
pub mod table;
pub mod value;

pub use column::Column;
pub use error::VirtualTableError;
pub use query::ColumnSpecification;
pub use table::{ColumnDefinition, Row, Table};
pub use value::{Cell, CellView, DataType, Index, IntoCell, PrimaryKey, TableValue, ValueView};
