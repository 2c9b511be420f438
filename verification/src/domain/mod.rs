//! The value types of the domain.

pub mod endpoint;
pub mod market_data;
pub mod params;
pub mod schema_table;
pub mod ticker;

pub use endpoint::EndpointName;
pub use market_data::{ApiError, ApiResponse, ErrorKind};
pub use params::{validate_year, HorizonParam, QuarterParam};
pub use schema_table::SchemaTable;
pub use ticker::TickerSymbol;
