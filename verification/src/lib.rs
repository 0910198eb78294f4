//! Tool layer and orchestration rules for agents that answer questions
//! from a SurrealDB datastore: schema introspection, validated read-only
//! queries, and rendering of query results as text.

pub mod agents;
pub mod config;
pub mod json;
pub mod sorting;
pub mod surreal;
pub mod text;

pub use config::{Config, ConfigError, Environment, SurrealConfig};
pub use json::{JsonNumber, JsonValue};
pub use surreal::schema::{SurrealSchemaArgs, TableColumn, TableSchema};
pub use surreal::select::{SelectPlan, SurrealSelectArgs};
pub use surreal::{
    GatewayStage, SurrealDbConfig, SurrealError, SurrealSchemaTool, SurrealSelectTool,
    ToolDefinition,
};
