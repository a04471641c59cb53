//! The settings of the dashboard: where its sources are.

use crate::menu::MenuItem;
use crate::text::{chars_of, trim_bounds, trimmed};
use vstd::prelude::*;

verus! {

/// Where the dashboard finds its sources, and the key for the weather
/// service.
#[derive(Debug, Clone, PartialEq, Eq)]
pub struct Config {
    pub todo_file_path: String,
    pub cyber_resource_file_path: String,
    pub bill_dir_path: String,
    pub weather_api_key: String,
}

impl Default for Config {
    /// The settings of a first start: the two tables under `md/`, the
    /// statements under `tmp`, and no key.
    fn default() -> (cfg: Config)
        ensures
            cfg.todo_file_path@ == "md/TODO.md"@,
            cfg.cyber_resource_file_path@ == "md/CyberResource.md"@,
            cfg.bill_dir_path@ == "tmp"@,
            cfg.weather_api_key@ == Seq::<char>::empty(),
    {
        Config {
            todo_file_path: "md/TODO.md".to_owned(),
            cyber_resource_file_path: "md/CyberResource.md".to_owned(),
            bill_dir_path: "tmp".to_owned(),
            weather_api_key: String::new(),
        }
    }
}

impl Config {
    /// Whether a key for the weather service is set: one that is more than
    /// white space.
    pub fn has_weather_key(&self) -> (set: bool)
        ensures
            set == (trimmed(self.weather_api_key@).len() > 0),
    {
        let chars = chars_of(self.weather_api_key.as_str());
        let (a, b) = trim_bounds(&chars, 0, chars.len());
        assert(chars@.subrange(0, chars.len() as int) == chars@);
        a < b
    }

    /// The path behind a menu entry: the file of a table, the directory of
    /// the statements.
    pub fn source_path(&self, item: MenuItem) -> (path: &String)
        ensures
            path == match item {
                MenuItem::Todo => self.todo_file_path,
                MenuItem::Cyber => self.cyber_resource_file_path,
                MenuItem::Bill => self.bill_dir_path,
            },
    {
        match item {
            MenuItem::Todo => &self.todo_file_path,
            MenuItem::Cyber => &self.cyber_resource_file_path,
            MenuItem::Bill => &self.bill_dir_path,
        }
    }
}

} // verus!
