use sentinel::services::{
    parse_binary_path, service_action_outcome, service_action_response, service_action_script,
    service_change_event, service_record, services_from_json, sort_services, ServiceFields,
};
use sentinel::startup::{
    folder_item, run_key_item, toggle_change_event, toggle_message, toggle_response, toggle_step,
    RunHive, ToggleStep,
};

#[test]
fn run_value_item() {
    let it = run_key_item(RunHive::CurrentUser, "Updater", "\"C:\\Program Files\\Up\\up.exe\" /bg", None);
    assert_eq!(it.id, "HKCU Run:Updater");
    assert_eq!(it.name, "Updater");
    assert_eq!(it.location, "HKCU Run");
    assert!(it.is_enabled);
    assert_eq!(it.path.as_deref(), Some("C:\\Program Files\\Up\\up.exe"));
    assert!(it.signed);
    assert_eq!(it.risk, "low");
}

#[test]
fn disabled_run_value_item() {
    let it = run_key_item(
        RunHive::CurrentUser,
        "_Sentinel_Disabled__Sentinel_Disabled_Tool",
        "C:\\Users\\a\\AppData\\Local\\Temp\\tool.exe",
        None,
    );
    assert_eq!(it.name, "Tool");
    assert_eq!(it.id, "HKCU Run:Tool");
    assert!(!it.is_enabled);
    assert_eq!(it.risk, "high");
}

#[test]
fn approval_data_disables() {
    let off = vec![3u8, 0, 0];
    let on = vec![2u8, 0];
    assert!(!run_key_item(RunHive::CurrentUser, "A", "a.exe", Some(&off)).is_enabled);
    assert!(run_key_item(RunHive::CurrentUser, "A", "a.exe", Some(&on)).is_enabled);
    assert!(run_key_item(RunHive::CurrentUser, "A", "a.exe", Some(&Vec::new())).is_enabled);
    let m = run_key_item(RunHive::LocalMachine, "_Sentinel_Disabled_B", "b.exe", Some(&off));
    assert!(m.is_enabled);
    assert_eq!(m.name, "_Sentinel_Disabled_B");
    assert_eq!(m.id, "HKLM Run:_Sentinel_Disabled_B");
}

#[test]
fn startup_folder_item() {
    let it = folder_item("C:\\Start\\Disabled\\Chat.lnk", Some("Chat"), false);
    assert_eq!(it.id, "folder:C:\\Start\\Disabled\\Chat.lnk");
    assert_eq!(it.name, "Chat");
    assert_eq!(it.location, "Startup folder");
    assert!(!it.is_enabled);
    assert_eq!(it.risk, "medium");
    assert_eq!(folder_item("x.lnk", None, true).name, "startup-item");
}

#[test]
fn toggle_steps_by_id() {
    match toggle_step("HKCU Run:Updater", false) {
        Ok(ToggleStep::BackupRunValue { name, backup }) => {
            assert_eq!(name, "Updater");
            assert_eq!(backup, "_Sentinel_Disabled_Updater");
        }
        _ => panic!("wrong step"),
    }
    assert!(matches!(toggle_step("HKCU Run:U", true), Ok(ToggleStep::RestoreRunValue { .. })));
    let keep = toggle_step("HKLM Run:Agent", true).unwrap();
    assert_eq!(toggle_message(&keep), "HKLM startup item 'Agent' is already enabled.");
    assert!(matches!(toggle_step("HKLM Run:Agent", false), Ok(ToggleStep::DeleteMachineValue { .. })));
    match toggle_step("folder:C:\\S\\a.lnk", false) {
        Ok(ToggleStep::DisableFolderItem { path }) => assert_eq!(path, "C:\\S\\a.lnk"),
        _ => panic!("wrong step"),
    }
    let err = toggle_step("registry:thing", true).err().unwrap();
    assert_eq!(err, "Unsupported startup item id format.");
}

#[test]
fn toggle_outcomes() {
    let ok = toggle_response("HKCU Run:A".to_string(), false, Ok("Startup item disabled.".to_string()));
    assert!(ok.success);
    assert_eq!(ok.message, "Startup item disabled.");
    let bad = toggle_response("x".to_string(), true, Err("nope".to_string()));
    assert!(!bad.success);
    assert_eq!(bad.message, "nope");
    let e = toggle_change_event("HKCU Run:A", "Startup item disabled.", 3);
    assert_eq!(e.category, "Startup");
    assert_eq!(e.change_type, "Modified");
    assert_eq!(e.name.as_deref(), Some("HKCU Run:A"));
}

#[test]
fn service_defaults() {
    let f = ServiceFields {
        name: Some("svc".to_string()),
        display_name: None,
        state: None,
        start_mode: Some("Auto".to_string()),
        path_name: Some("C:\\Windows\\System32\\svchost.exe -k netsvcs".to_string()),
    };
    let r = service_record(&f).unwrap();
    assert_eq!(r.display_name, "svc");
    assert_eq!(r.status, "Unknown");
    assert_eq!(r.start_type, "Auto");
    assert_eq!(r.binary_path.as_deref(), Some("C:\\Windows\\System32\\svchost.exe"));
    assert!(r.signed);
    assert_eq!(r.risk, "low");
    let unnamed = ServiceFields { name: Some(String::new()), display_name: None, state: None, start_mode: None, path_name: None };
    assert!(service_record(&unnamed).is_none());
    assert_eq!(parse_binary_path("  \"C:\\a b\\c.exe\" x").as_deref(), Some("C:\\a b\\c.exe"));
}

#[test]
fn services_listing_sorted_by_display_name() {
    let json = br#"[{"Name":"b","DisplayName":"Beta","State":"Running","StartMode":"Auto","PathName":null},
                   {"Name":"","DisplayName":"Skipped"},
                   {"Name":"a","DisplayName":"Alpha","State":"Stopped","StartMode":"Manual","PathName":"C:\\x\\a.exe"}]"#;
    let list = services_from_json(json).unwrap();
    assert_eq!(list.len(), 2);
    assert_eq!(list[0].display_name, "Alpha");
    assert_eq!(list[1].display_name, "Beta");
    assert_eq!(list[1].status, "Running");
    let single = services_from_json(br#"{"Name":"only"}"#).unwrap();
    assert_eq!(single.len(), 1);
    assert!(services_from_json(b"42").unwrap().is_empty());
    assert!(services_from_json(b"[]").unwrap().is_empty());
    let nested = services_from_json(br#"[{"Name":"x","DisplayName":"Zed","PathName":"/tmp/x y"},{"Name":7}]"#).unwrap();
    assert_eq!(nested.len(), 1);
    assert_eq!(nested[0].binary_path.as_deref(), Some("/tmp/x"));
    assert_eq!(nested[0].risk, "high");
    assert_eq!(nested[0].start_type, "Unknown");
    let err = services_from_json(b"{oops").err().unwrap();
    assert!(err.starts_with("invalid services json: "));
    let sorted = sort_services(vec![list[1].clone(), list[0].clone()]);
    assert_eq!(sorted[0].name, "a");
}

#[test]
fn service_scripts() {
    assert_eq!(service_action_script("Spooler", "START").unwrap(), "Start-Service -Name 'Spooler'");
    assert_eq!(service_action_script("O'Brien", "stop").unwrap(), "Stop-Service -Name 'O''Brien' -Force");
    assert_eq!(service_action_script("s", "Restart").unwrap(), "Restart-Service -Name 's' -Force");
    assert_eq!(service_action_script("s", "automatic").unwrap(), "Set-Service -Name 's' -StartupType Automatic");
    assert_eq!(service_action_script("s", "Manual").unwrap(), "Set-Service -Name 's' -StartupType Manual");
    assert_eq!(service_action_script("s", "DISABLED").unwrap(), "Set-Service -Name 's' -StartupType Disabled");
    assert_eq!(service_action_script("s", "Pause").err().unwrap(), "unsupported service action: pause");
}

#[test]
fn service_outcomes() {
    assert_eq!(service_action_outcome(true, "ignored").unwrap(), "Service action completed.");
    assert_eq!(
        service_action_outcome(false, "").err().unwrap(),
        "Service action failed. Administrator rights may be required."
    );
    assert_eq!(service_action_outcome(false, "Access denied").err().unwrap(), "Access denied");
    let r = service_action_response("s".to_string(), "stop".to_string(), Err("denied".to_string()));
    assert!(!r.success);
    assert_eq!(r.message, "denied");
    let e = service_change_event("s", "stop", "Service action completed.", 1);
    assert_eq!(e.details.as_deref(), Some("Action 'stop' completed: Service action completed."));
    assert_eq!(e.category, "Service");
}
