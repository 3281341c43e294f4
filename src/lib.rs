//! Backend of an application launcher: discovery of desktop entries and
//! open windows, a cache validated by directory modification times, icon
//! lookup, usage-weighted fuzzy ranking, and the planning of the compositor
//! requests that open an entry.

pub mod app_discovery;
pub mod cache;
pub mod error;
pub mod icon;
pub mod paths;
pub mod rank;
pub mod types;
pub mod usage;

pub use app_discovery::{
    get_desktop_entries, get_entries, get_window_entries, launch_action, parse_desktop_entry,
    DesktopRecord, LaunchAction, WindowInfo,
};
pub use cache::{
    collect_directory_timestamps, get_app_directories, get_desktop_entries_cached,
    usage_storage_path, Cache, CacheData, DirectoryState, Timestamp,
};
pub use error::LauncherError;
pub use icon::{get_fallback_icon, resolve_icon_path};
pub use rank::{rank, rank_at};
pub use types::{Entry, OpenType};
pub use usage::{current_timestamp, UsageStats, UsageTracker};
