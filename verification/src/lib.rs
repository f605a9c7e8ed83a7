//! A small catalog of command-line "actions" (tasks) mapped to the tools that
//! perform them. Catalogs are read from and written as TOML text, searched
//! with a case-insensitive query, and each action's tools can be partitioned
//! by whether they resolve on the current search path.

pub mod catalog;
pub mod codec;
pub mod install;
pub mod matching;

pub use catalog::{
    builtin_catalog_text, default_tools, resolve_tool_path, tools, user_tools, Action, Tools,
    UserSource,
};
pub use codec::{
    catalog_of_node, catalog_to_node, parse_catalog, serialize_catalog, LoadError, Node,
    SchemaError,
};
pub use install::{partition_by_flags, system_tools};
pub use matching::{find_actions, find_tool, lowercase_query, matches_lowered};
