//! The core of a live application launcher: it turns discovered paths into
//! launchable entries, keeps them in append-only shard caches, and ranks them
//! against the latest query.

pub mod cache;
pub mod descriptor;
pub mod entry;
pub mod icons;
pub mod matcher;
pub mod partition;
pub mod paths;
pub mod query;

pub use crate::cache::ShardCache;
pub use crate::entry::{SearchResult, SearchResultError};
pub use crate::icons::IconMemo;
pub use crate::matcher::{join_key, search_key, Matcher, RankedResult};
pub use crate::partition::{hash_pathbuf, partition};
pub use crate::paths::{is_desktop_extension, is_desktop_file, is_hidden};
pub use crate::query::QueryChannel;
