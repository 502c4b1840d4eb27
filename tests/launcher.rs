use process_guard_service::launcher::{
    command_line, find_process_by_name, find_process_by_path, select_session, ProcessEntry, SessionInfo, NO_SESSION,
};

fn entry(pid: u32, image: &str) -> ProcessEntry {
    ProcessEntry { process_id: pid, image: image.to_string() }
}

#[test]
fn command_line_quotes_the_path() {
    assert_eq!(command_line("C:\\My App\\a.exe", None), "\"C:\\My App\\a.exe\"");
    assert_eq!(command_line("C:\\a.exe", Some("-x 1")), "\"C:\\a.exe\" -x 1");
}

#[test]
fn console_session_is_preferred() {
    let sessions = vec![SessionInfo { session_id: 3, active: true }];
    assert_eq!(select_session(1, &sessions), Some(1));
}

#[test]
fn enumeration_picks_the_first_active_session() {
    let sessions = vec![
        SessionInfo { session_id: 0, active: false },
        SessionInfo { session_id: 4, active: true },
        SessionInfo { session_id: 5, active: true },
    ];
    assert_eq!(select_session(NO_SESSION, &sessions), Some(4));
    assert_eq!(select_session(NO_SESSION, &vec![SessionInfo { session_id: 2, active: false }]), None);
    assert_eq!(select_session(NO_SESSION, &vec![]), None);
}

#[test]
fn path_search_ignores_case() {
    let snapshot = vec![entry(10, "C:\\Windows\\explorer.exe"), entry(20, "C:\\APPS\\Tool.EXE"), entry(30, "c:\\apps\\tool.exe")];
    assert_eq!(find_process_by_path(&snapshot, "c:\\apps\\tool.exe"), Some(20));
    assert_eq!(find_process_by_path(&snapshot, "C:\\apps\\other.exe"), None);
}

#[test]
fn name_search_matches_a_name_or_a_path_suffix() {
    let snapshot = vec![entry(1, "C:\\x\\notmytool.exe"), entry(2, "C:\\Apps\\MyTool.exe"), entry(3, "mytool.exe")];
    assert_eq!(find_process_by_name(&snapshot, "MYTOOL.EXE"), Some(2));
    assert_eq!(find_process_by_name(&vec![entry(3, "MyTool.exe")], "mytool.exe"), Some(3));
    assert_eq!(find_process_by_name(&snapshot, "tool.exe"), None);
}
