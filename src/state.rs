//! The application's data layout: where logs, reports, exports and the
//! event database live, and how their files are named.

use vstd::prelude::*;
use vstd::string::StringExecFns;
use crate::text::{ascii_lower_seq, concat2, eq_ignore_ascii_case};

verus! {

/// `name` inside directory `dir`.
pub open spec fn joined_path(dir: Seq<char>, name: Seq<char>) -> Seq<char> {
    dir + "/"@ + name
}

/// `name` inside directory `dir`.
pub fn join_path(dir: &str, name: &str) -> (r: String)
    ensures
        r@ == joined_path(dir@, name@),
{
    let mut r = concat2(dir, "/");
    r.append(name);
    r
}

/// The directories and the database file of the application, all under
/// one base directory.
#[derive(Clone, Debug)]
pub struct AppState {
    pub logs_dir: String,
    pub reports_dir: String,
    pub exports_dir: String,
    pub base_dir: String,
    pub data_dir: String,
    pub db_path: String,
}

impl AppState {
    /// Whether the layout is the one rooted at `app_data_dir`.
    pub open spec fn laid_out_under(&self, app_data_dir: Seq<char>) -> bool {
        let base = joined_path(app_data_dir, "Sentinel"@);
        let data = joined_path(base, "Data"@);
        &&& self.base_dir@ == base
        &&& self.logs_dir@ == joined_path(base, "logs"@)
        &&& self.reports_dir@ == joined_path(base, "reports"@)
        &&& self.exports_dir@ == joined_path(base, "exports"@)
        &&& self.data_dir@ == data
        &&& self.db_path@ == joined_path(data, "sentinel.db"@)
    }

    /// The layout under the user's local application-data directory:
    /// `Sentinel/` with `logs/`, `reports/`, `exports/` and `Data/sentinel.db`.
    pub fn initialize(app_data_dir: &str) -> (r: AppState)
        ensures
            r.laid_out_under(app_data_dir@),
    {
        let base = join_path(app_data_dir, "Sentinel");
        let logs_dir = join_path(base.as_str(), "logs");
        let reports_dir = join_path(base.as_str(), "reports");
        let exports_dir = join_path(base.as_str(), "exports");
        let data_dir = join_path(base.as_str(), "Data");
        let db_path = join_path(data_dir.as_str(), "sentinel.db");
        AppState { logs_dir, reports_dir, exports_dir, base_dir: base, data_dir, db_path }
    }

    /// Where the latest analysis report is saved.
    pub fn latest_report_path(&self) -> (r: String)
        ensures
            r@ == joined_path(self.reports_dir@, "latest.json"@),
    {
        join_path(self.reports_dir.as_str(), "latest.json")
    }

    /// The directories that must exist, parents first.
    pub fn required_dirs(&self) -> (r: Vec<String>)
        ensures
            r@.len() == 5,
            r@[0]@ == self.base_dir@,
            r@[1]@ == self.logs_dir@,
            r@[2]@ == self.reports_dir@,
            r@[3]@ == self.exports_dir@,
            r@[4]@ == self.data_dir@,
    {
        let mut r: Vec<String> = Vec::new();
        r.push(self.base_dir.clone());
        r.push(self.logs_dir.clone());
        r.push(self.reports_dir.clone());
        r.push(self.exports_dir.clone());
        r.push(self.data_dir.clone());
        r
    }

    /// The log file of one day, named by its date (`YYYY-MM-DD`).
    pub fn log_file_path(&self, date: &str) -> (r: String)
        ensures
            r@ == joined_path(self.logs_dir@, date@ + ".log"@),
    {
        let name = concat2(date, ".log");
        join_path(self.logs_dir.as_str(), name.as_str())
    }

    /// The archive of an export made at the given time stamp.
    pub fn export_path(&self, stamp: &str) -> (r: String)
        ensures
            r@ == joined_path(self.exports_dir@, "Sentinel_Report_"@ + stamp@ + ".zip"@),
    {
        let mut name = concat2("Sentinel_Report_", stamp);
        name.append(".zip");
        join_path(self.exports_dir.as_str(), name.as_str())
    }
}

/// One line of the log: `[<timestamp>] <message>`.
pub fn log_line(timestamp: &str, message: &str) -> (r: String)
    ensures
        r@ == "["@ + timestamp@ + "] "@ + message@,
{
    let mut r = concat2("[", timestamp);
    r.append("] ");
    r.append(message);
    r
}

/// Whether a file with this extension is a log file (`log`, in any ASCII
/// case).
pub fn is_log_extension(extension: Option<&str>) -> (r: bool)
    ensures
        r == match extension {
            Some(e) => ascii_lower_seq(e@) == ascii_lower_seq("log"@),
            None => false,
        },
{
    match extension {
        Some(e) => eq_ignore_ascii_case(e, "log"),
        None => false,
    }
}

/// The name under which a log file is stored in an export archive.
pub fn archive_log_name(file_name: Option<&str>) -> (r: String)
    ensures
        r@ == "logs/"@ + match file_name {
            Some(f) => f@,
            None => "sentinel.log"@,
        },
{
    match file_name {
        Some(f) => concat2("logs/", f),
        None => concat2("logs/", "sentinel.log"),
    }
}

} // verus!
