use oxys::welcome::{SystemInfo, OXYS_VERSION};

#[test]
fn system_line_contains_real_fields() {
    let info = SystemInfo { kernel: "6.12.1-oxys".into(), packages: Some(847) };

    let line = info.line();
    assert!(line.contains(&format!("System: OxysOS {}", OXYS_VERSION)));
    assert!(line.contains("Kernel: 6.12.1-oxys"));
    assert!(line.contains("Packages: 847"));
}

#[test]
fn unreadable_facts_read_unavailable() {
    let info = SystemInfo::detect(Some("  \n"), None);
    assert_eq!(info.kernel, "unavailable");
    assert_eq!(info.line(), format!("System: OxysOS {}  |  Kernel: unavailable  |  Packages: unavailable", OXYS_VERSION));
    let info = SystemInfo::detect(Some("6.12.1-oxys\n"), Some(0));
    assert_eq!(info.kernel, "6.12.1-oxys");
    assert!(info.line().ends_with("Packages: 0"));
}
