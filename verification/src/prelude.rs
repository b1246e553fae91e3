//! Convenient re-exports of the crate's main types.

pub use crate::config::Config;
pub use crate::config::DatabaseConfig;
pub use crate::config::LogConfig;
pub use crate::database::Database;
pub use crate::database::PasswordEntry;
pub use crate::encryption::Encryption;
pub use crate::errors::FileSearchError;
pub use crate::errors::VaultError;
pub use crate::file_search::FileSearch;
pub use crate::password::PasswordManager;
