//! Configuration of the surrounding application: logging level and the
//! name of the store file. Loading and saving the configuration file is the
//! caller's business; the core works on the resolved values.

use vstd::prelude::*;

verus! {

/// The resolved configuration.
#[derive(Debug)]
pub struct Config {
    pub logging: LogConfig,
    pub database: DatabaseConfig,
}

/// Logging settings.
#[derive(Debug)]
pub struct LogConfig {
    /// One of "trace", "debug", "info", "warn", "error".
    pub level: String,
}

/// Store settings.
#[derive(Debug)]
pub struct DatabaseConfig {
    /// File name of the entry store inside the configuration directory.
    pub db_name: String,
}

impl Default for Config {
    /// The default configuration: log level "info", store file "pass.db".
    fn default() -> (c: Self)
        ensures
            c.logging.level@ == "info"@,
            c.database.db_name@ == "pass.db"@,
    {
        Config {
            logging: LogConfig { level: String::from_str("info") },
            database: DatabaseConfig { db_name: String::from_str("pass.db") },
        }
    }
}

impl Config {
    /// The path of the store file: the configuration directory, a slash,
    /// and the configured file name.
    pub fn get_db_path(&self, config_dir: &str) -> (p: String)
        ensures
            p@ == config_dir@ + "/"@ + self.database.db_name@,
    {
        let mut p = String::from_str(config_dir);
        p.append("/");
        p.append(self.database.db_name.as_str());
        p
    }
}

} // verus!
