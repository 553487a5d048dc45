//! Startup entries: shaping Run-key values and startup-folder shortcuts into
//! items with a trust verdict, and planning an enable/disable toggle.

use vstd::prelude::*;
use vstd::string::StringExecFns;
use crate::store::{opt_seq, ChangeEvent, ChangeView};
use crate::text::{
    chars_of, concat2, contains_seq, find_chars, find_token_end, first_index, occurs_at,
    skip_repeated, slice_chars, starts_with_chars, strip_repeated, token_end, trim_bounds,
    trim_seq,
};
use crate::trust::{assess_risk, is_trusted_location, lower_of, quick_trust_from_path, risk_of};

verus! {

/// The executable named by a command line: the text between the first pair
/// of double quotes when the trimmed command starts with one (none when the
/// closing quote is missing), else its first whitespace-delimited token;
/// none for a blank command.
pub open spec fn executable_of(command: Seq<char>) -> Option<Seq<char>> {
    let t = trim_seq(command);
    if t.len() == 0 {
        None
    } else if t[0] == '"' {
        let rest = t.drop_first();
        if contains_seq(rest, "\""@) {
            Some(rest.take(first_index(rest, "\""@)))
        } else {
            None
        }
    } else {
        Some(t.take(token_end(t)))
    }
}

/// The executable named by a command line.
pub fn extract_executable_path(command: &str) -> (r: Option<String>)
    ensures
        opt_seq(r) == executable_of(command@),
{
    let v = chars_of(command);
    let n = v.len();
    let (a, b) = trim_bounds(&v, 0, n);
    let ghost t = v@.subrange(a as int, b as int);
    assert(v@.subrange(0, n as int) =~= v@);
    if a == b {
        return None;
    }
    if v[a] == '"' {
        let rest = slice_chars(&v, a + 1, b);
        assert(rest@ =~= t.drop_first());
        let quote = chars_of("\"");
        match find_chars(&rest, &quote) {
            None => None,
            Some(e) => {
                assert(command@.subrange(a + 1, a + 1 + e) =~= rest@.take(e as int));
                Some(String::from_str(command.substring_char(a + 1, a + 1 + e)))
            },
        }
    } else {
        let e = find_token_end(&v, a, b);
        assert(command@.subrange(a as int, e as int) =~= t.take(e - a));
        Some(String::from_str(command.substring_char(a, e)))
    }
}

/// A program started at sign-in, with its trust verdict.
#[derive(Clone, Debug)]
pub struct StartupItem {
    pub id: String,
    pub name: String,
    pub command: String,
    pub location: String,
    pub is_enabled: bool,
    pub path: Option<String>,
    pub signed: bool,
    pub publisher: Option<String>,
    pub risk: String,
}

/// The startup items found.
#[derive(Clone, Debug)]
pub struct StartupItemsResponse {
    pub items: Vec<StartupItem>,
}

/// The outcome of a request to enable or disable a startup item.
#[derive(Clone, Debug)]
pub struct StartupToggleResponse {
    pub success: bool,
    pub id: String,
    pub enabled: bool,
    pub message: String,
}

/// Whether `r` is `item` with the quick trust verdict of its path and the
/// risk that follows from it.
pub open spec fn trusted_item(r: StartupItem, item: StartupItem) -> bool {
    let signed = match item.path {
        Some(p) => is_trusted_location(lower_of(p@)),
        None => false,
    };
    &&& r.id == item.id
    &&& r.name == item.name
    &&& r.command == item.command
    &&& r.location == item.location
    &&& r.is_enabled == item.is_enabled
    &&& r.path == item.path
    &&& r.signed == signed
    &&& r.publisher is None
    &&& r.risk@ == risk_of(opt_seq(item.path), None, signed, Some(item.name@)).label_spec()
}

/// `item` with the quick trust verdict of its path and the resulting risk.
pub fn with_trust(item: StartupItem) -> (r: StartupItem)
    ensures
        trusted_item(r, item),
{
    let path_str: Option<&str> = match &item.path {
        Some(p) => Some(p.as_str()),
        None => None,
    };
    let trust = quick_trust_from_path(path_str);
    let risk = assess_risk(path_str, None, trust.signed, Some(item.name.as_str()));
    StartupItem { signed: trust.signed, publisher: trust.publisher, risk, ..item }
}

/// A registry Run key from which programs start.
#[derive(Clone, Copy, Debug, PartialEq, Eq, Structural)]
pub enum RunHive {
    CurrentUser,
    LocalMachine,
}

impl RunHive {
    /// The location label of the key.
    pub open spec fn label_spec(self) -> Seq<char> {
        match self {
            RunHive::CurrentUser => "HKCU Run"@,
            RunHive::LocalMachine => "HKLM Run"@,
        }
    }

    /// The location label of the key.
    pub fn label(&self) -> (r: &'static str)
        ensures
            r@ == self.label_spec(),
    {
        match self {
            RunHive::CurrentUser => "HKCU Run",
            RunHive::LocalMachine => "HKLM Run",
        }
    }
}

/// Whether a per-user Run value is one that this agent disabled (renamed
/// with the disabled marker in front).
pub open spec fn is_disabled_value(hive: RunHive, value_name: Seq<char>) -> bool {
    hive == RunHive::CurrentUser && occurs_at(value_name, "_Sentinel_Disabled_"@, 0)
}

/// The item name of a Run value: disabled values lose every leading marker.
pub open spec fn run_item_name(hive: RunHive, value_name: Seq<char>) -> Seq<char> {
    if is_disabled_value(hive, value_name) {
        strip_repeated(value_name, "_Sentinel_Disabled_"@)
    } else {
        value_name
    }
}

/// Whether a Run value starts at sign-in: machine-wide values always do;
/// a per-user value does unless it was disabled here or its approval data
/// starts with the byte 3.
pub open spec fn run_item_enabled(hive: RunHive, value_name: Seq<char>, approved: Option<Seq<u8>>) -> bool {
    if hive == RunHive::LocalMachine {
        true
    } else if is_disabled_value(hive, value_name) {
        false
    } else {
        match approved {
            None => true,
            Some(b) => b.len() == 0 || b[0] != 3,
        }
    }
}

/// Whether `r` is the item of the Run value `value_name` holding `command`.
pub open spec fn run_item_fits(
    r: StartupItem,
    hive: RunHive,
    value_name: Seq<char>,
    command: Seq<char>,
    approved: Option<Seq<u8>>,
) -> bool {
    let name = run_item_name(hive, value_name);
    let path = executable_of(command);
    let signed = match path {
        Some(p) => is_trusted_location(lower_of(p)),
        None => false,
    };
    &&& r.id@ == hive.label_spec() + ":"@ + name
    &&& r.name@ == name
    &&& r.command@ == command
    &&& r.location@ == hive.label_spec()
    &&& r.is_enabled == run_item_enabled(hive, value_name, approved)
    &&& opt_seq(r.path) == path
    &&& r.signed == signed
    &&& r.publisher is None
    &&& r.risk@ == risk_of(path, None, signed, Some(name)).label_spec()
}

/// The item of a Run value; `approved` is the value's approval data, where
/// the key that holds it has one.
pub fn run_key_item(hive: RunHive, value_name: &str, command: &str, approved: Option<&Vec<u8>>) -> (r:
    StartupItem)
    ensures
        run_item_fits(
            r,
            hive,
            value_name@,
            command@,
            match approved {
                Some(b) => Some(b@),
                None => None,
            },
        ),
{
    let v = chars_of(value_name);
    let marker = chars_of("_Sentinel_Disabled_");
    let disabled = match hive {
        RunHive::CurrentUser => starts_with_chars(&v, &marker),
        RunHive::LocalMachine => false,
    };
    let name = if disabled {
        let start = skip_repeated(&v, &marker);
        String::from_str(value_name.substring_char(start, v.len()))
    } else {
        String::from_str(value_name)
    };
    let is_enabled = match hive {
        RunHive::LocalMachine => true,
        RunHive::CurrentUser => if disabled {
            false
        } else {
            match approved {
                None => true,
                Some(b) => b.len() == 0 || b[0] != 3,
            }
        },
    };
    let mut id = concat2(hive.label(), ":");
    id.append(name.as_str());
    let item = StartupItem {
        id,
        name,
        command: String::from_str(command),
        location: String::from_str(hive.label()),
        is_enabled,
        path: extract_executable_path(command),
        signed: false,
        publisher: None,
        risk: String::from_str("unknown"),
    };
    with_trust(item)
}

/// Whether `r` is the item of a startup-folder shortcut.
pub open spec fn folder_item_fits(r: StartupItem, full_path: Seq<char>, stem: Option<Seq<char>>, enabled: bool) -> bool {
    let name = match stem {
        Some(s) => s,
        None => "startup-item"@,
    };
    let signed = is_trusted_location(lower_of(full_path));
    &&& r.id@ == "folder:"@ + full_path
    &&& r.name@ == name
    &&& r.command@ == full_path
    &&& r.location@ == "Startup folder"@
    &&& r.is_enabled == enabled
    &&& opt_seq(r.path) == Some(full_path)
    &&& r.signed == signed
    &&& r.publisher is None
    &&& r.risk@ == risk_of(Some(full_path), None, signed, Some(name)).label_spec()
}

/// The item of a startup-folder shortcut; `stem` is its file name without
/// the extension, and shortcuts in the folder's `Disabled` subfolder are
/// disabled.
pub fn folder_item(full_path: &str, stem: Option<&str>, enabled: bool) -> (r: StartupItem)
    ensures
        folder_item_fits(r, full_path@, crate::trust::opt_view(stem), enabled),
{
    let name = match stem {
        Some(s) => String::from_str(s),
        None => String::from_str("startup-item"),
    };
    let item = StartupItem {
        id: concat2("folder:", full_path),
        name,
        command: String::from_str(full_path),
        location: String::from_str("Startup folder"),
        is_enabled: enabled,
        path: Some(String::from_str(full_path)),
        signed: false,
        publisher: None,
        risk: String::from_str("unknown"),
    };
    with_trust(item)
}

/// What a toggle request has to do, decided from the item's id.
#[derive(Clone, Debug)]
pub enum ToggleStep {
    /// Put the per-user Run value `name` back from its backup `backup`, then
    /// remove the backup.
    RestoreRunValue { name: String, backup: String },
    /// Copy the per-user Run value `name` to its backup `backup`, then remove it.
    BackupRunValue { name: String, backup: String },
    /// Nothing: a machine-wide Run value is enabled while it exists.
    KeepMachineValue { name: String },
    /// Remove the machine-wide Run value `name`.
    DeleteMachineValue { name: String },
    /// Move the shortcut at `path` out of the `Disabled` subfolder, if it is there.
    RestoreFolderItem { path: String },
    /// Move the shortcut at `path` into the `Disabled` subfolder.
    DisableFolderItem { path: String },
}

/// The text of `s` after the prefix `p`, when `s` starts with it.
pub open spec fn after_prefix(s: Seq<char>, p: Seq<char>) -> Option<Seq<char>> {
    if occurs_at(s, p, 0) {
        Some(s.subrange(p.len() as int, s.len() as int))
    } else {
        None
    }
}

/// Whether `r` is the step for toggling the item `id` to `enabled`: the id
/// names the location (`HKCU Run:`, `HKLM Run:` or `folder:` followed by the
/// value name or the shortcut path), and any other id is rejected.
pub open spec fn toggle_step_fits(r: Result<ToggleStep, String>, id: Seq<char>, enabled: bool) -> bool {
    if let Some(name) = after_prefix(id, "HKCU Run:"@) {
        let backup = "_Sentinel_Disabled_"@ + name;
        match r {
            Ok(ToggleStep::RestoreRunValue { name: n, backup: b }) => enabled && n@ == name && b@ == backup,
            Ok(ToggleStep::BackupRunValue { name: n, backup: b }) => !enabled && n@ == name && b@ == backup,
            _ => false,
        }
    } else if let Some(name) = after_prefix(id, "HKLM Run:"@) {
        match r {
            Ok(ToggleStep::KeepMachineValue { name: n }) => enabled && n@ == name,
            Ok(ToggleStep::DeleteMachineValue { name: n }) => !enabled && n@ == name,
            _ => false,
        }
    } else if let Some(path) = after_prefix(id, "folder:"@) {
        match r {
            Ok(ToggleStep::RestoreFolderItem { path: p }) => enabled && p@ == path,
            Ok(ToggleStep::DisableFolderItem { path: p }) => !enabled && p@ == path,
            _ => false,
        }
    } else {
        match r {
            Err(e) => e@ == "Unsupported startup item id format."@,
            _ => false,
        }
    }
}

/// The text of `s` after the prefix `p`, when `s` starts with it.
fn strip_prefix_text(s: &str, p: &str) -> (r: Option<String>)
    ensures
        opt_seq(r) == after_prefix(s@, p@),
{
    let v = chars_of(s);
    let pv = chars_of(p);
    if starts_with_chars(&v, &pv) {
        Some(String::from_str(s.substring_char(pv.len(), v.len())))
    } else {
        None
    }
}

/// The step for toggling the startup item `id` to `enabled`.
pub fn toggle_step(id: &str, enabled: bool) -> (r: Result<ToggleStep, String>)
    ensures
        toggle_step_fits(r, id@, enabled),
{
    if let Some(name) = strip_prefix_text(id, "HKCU Run:") {
        let backup = concat2("_Sentinel_Disabled_", name.as_str());
        if enabled {
            return Ok(ToggleStep::RestoreRunValue { name, backup });
        }
        return Ok(ToggleStep::BackupRunValue { name, backup });
    }
    if let Some(name) = strip_prefix_text(id, "HKLM Run:") {
        if enabled {
            return Ok(ToggleStep::KeepMachineValue { name });
        }
        return Ok(ToggleStep::DeleteMachineValue { name });
    }
    if let Some(path) = strip_prefix_text(id, "folder:") {
        if enabled {
            return Ok(ToggleStep::RestoreFolderItem { path });
        }
        return Ok(ToggleStep::DisableFolderItem { path });
    }
    Err(String::from_str("Unsupported startup item id format."))
}

/// The message reported once a step has been carried out.
pub open spec fn step_message(step: ToggleStep) -> Seq<char> {
    match step {
        ToggleStep::RestoreRunValue { .. } => "Startup item enabled."@,
        ToggleStep::BackupRunValue { .. } => "Startup item disabled."@,
        ToggleStep::KeepMachineValue { name } => "HKLM startup item '"@ + name@ + "' is already enabled."@,
        ToggleStep::DeleteMachineValue { .. } => "HKLM startup item disabled."@,
        ToggleStep::RestoreFolderItem { .. } => "Startup folder item enabled."@,
        ToggleStep::DisableFolderItem { .. } => "Startup folder item disabled."@,
    }
}

/// The message reported once a step has been carried out.
pub fn toggle_message(step: &ToggleStep) -> (r: String)
    ensures
        r@ == step_message(*step),
{
    match step {
        ToggleStep::RestoreRunValue { .. } => String::from_str("Startup item enabled."),
        ToggleStep::BackupRunValue { .. } => String::from_str("Startup item disabled."),
        ToggleStep::KeepMachineValue { name } => {
            let mut m = concat2("HKLM startup item '", name.as_str());
            m.append("' is already enabled.");
            m
        },
        ToggleStep::DeleteMachineValue { .. } => String::from_str("HKLM startup item disabled."),
        ToggleStep::RestoreFolderItem { .. } => String::from_str("Startup folder item enabled."),
        ToggleStep::DisableFolderItem { .. } => String::from_str("Startup folder item disabled."),
    }
}

/// The response to a toggle request, given its outcome: the success message
/// or the failure text.
pub fn toggle_response(id: String, enabled: bool, outcome: Result<String, String>) -> (r:
    StartupToggleResponse)
    ensures
        r.id == id,
        r.enabled == enabled,
        r.success == outcome is Ok,
        r.message == match outcome {
            Ok(m) => m,
            Err(e) => e,
        },
{
    match outcome {
        Ok(message) => StartupToggleResponse { success: true, id, enabled, message },
        Err(message) => StartupToggleResponse { success: false, id, enabled, message },
    }
}

/// The change event that records a toggled startup item.
pub open spec fn toggle_event(id: Seq<char>, message: Seq<char>, now: i64) -> ChangeView {
    ChangeView {
        id: None,
        detected_utc: now,
        category: "Startup"@,
        change_type: "Modified"@,
        name: Some(id),
        path: None,
        details: Some(message),
        is_approved: false,
        is_ignored: false,
    }
}

/// The change event that records the startup item `id` toggled at `now`.
pub fn toggle_change_event(id: &str, message: &str, now: i64) -> (r: ChangeEvent)
    ensures
        r@ == toggle_event(id@, message@, now),
{
    ChangeEvent {
        id: None,
        detected_utc: now,
        category: String::from_str("Startup"),
        change_type: String::from_str("Modified"),
        name: Some(String::from_str(id)),
        path: None,
        details: Some(String::from_str(message)),
        is_approved: false,
        is_ignored: false,
    }
}

} // verus!
