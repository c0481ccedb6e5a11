use one_pkg::format::Format;
use one_pkg::ledger::{InstallInfo, Ledger};

fn record(name: &str, method: Format) -> InstallInfo {
    InstallInfo { name: name.to_string(), method }
}

#[test]
fn new_ledger_holds_nothing() {
    let ledger = Ledger::new();
    assert_eq!(ledger.len(), 0);
    assert_eq!(ledger.is_installed("foo"), None);
}

#[test]
fn record_install_appends() {
    let mut ledger = Ledger::new();
    ledger.record_install("foo".to_string(), Format::Apt);
    ledger.record_install("bar".to_string(), Format::GitHub);
    assert_eq!(ledger.len(), 2);
    assert_eq!(ledger.is_installed("foo"), Some(Format::Apt));
    assert_eq!(ledger.is_installed("bar"), Some(Format::GitHub));
    assert_eq!(ledger.is_installed("baz"), None);
    assert_eq!(
        ledger.records(),
        &vec![record("foo", Format::Apt), record("bar", Format::GitHub)]
    );
}

#[test]
fn record_uninstall_removes_only_the_named_record() {
    let mut ledger = Ledger::new();
    ledger.record_install("a".to_string(), Format::Dnf);
    ledger.record_install("b".to_string(), Format::Aur);
    ledger.record_install("c".to_string(), Format::Flathub);
    ledger.record_uninstall("b");
    assert_eq!(ledger.is_installed("b"), None);
    assert_eq!(ledger.records(), &vec![record("a", Format::Dnf), record("c", Format::Flathub)]);
}

#[test]
fn record_uninstall_of_an_absent_name_changes_nothing() {
    let mut ledger = Ledger::new();
    ledger.record_install("a".to_string(), Format::Dnf);
    ledger.record_uninstall("zzz");
    assert_eq!(ledger.records(), &vec![record("a", Format::Dnf)]);
    let mut empty = Ledger::new();
    empty.record_uninstall("a");
    assert_eq!(empty.len(), 0);
}

#[test]
fn from_records_refuses_a_name_recorded_twice() {
    assert!(Ledger::from_records(vec![record("a", Format::Dnf), record("a", Format::Apt)]).is_none());
    assert!(Ledger::from_records(vec![
        record("a", Format::Dnf),
        record("b", Format::Apt),
        record("a", Format::Dnf)
    ])
    .is_none());
    let ledger = Ledger::from_records(vec![record("a", Format::Dnf), record("b", Format::Apt)])
        .expect("names differ");
    assert_eq!(ledger.is_installed("b"), Some(Format::Apt));
    assert_eq!(Ledger::from_records(Vec::new()).expect("empty").len(), 0);
}
