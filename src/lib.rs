//! A weighted multi-criteria decision matrix: projects are weighed against
//! criteria, and each priority set scales the criteria differently. The
//! workspace keeps its names unique and its references by name intact, scores
//! projects exactly in fixed point, and can be taken apart into plain values
//! for storage and validated when put together again.
pub mod config;
pub mod criterion_map;
pub mod error;
pub mod laws;
pub mod model;
pub mod parts;
pub mod score;
pub mod workspace;

pub use config::{
    deactivate, get_config_dir, get_config_file_path, Config, ConfigDirProvider, ConfigError,
    DefaultConfigDirProvider,
};
pub use criterion_map::CriterionMap;
pub use error::{ErrorKind, RecicionError, WorkspaceError};
pub use parts::{NamedEntries, WorkspaceParts};
pub use score::{DEFAULT_PRIORITY, PRIORITY_SCALE};
pub use workspace::{Criterion, PrioritySet, Project, Workspace};
