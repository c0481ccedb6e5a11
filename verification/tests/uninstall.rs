use one_pkg::catalog::Catalog;
use one_pkg::dispatch::{Action, Session};
use one_pkg::error::EngineError;
use one_pkg::format::Format;
use one_pkg::ledger::Ledger;
use one_pkg::package::{AppImageInfo, FormatInfo, GitHubInfo, Package};
use one_pkg::protocol::Event;

fn catalog(entries: Vec<Package>) -> Catalog {
    Catalog::new(entries).expect("no name occurs twice")
}

fn text(s: &str) -> String {
    s.to_string()
}

fn entry() -> Package {
    Package {
        name: text("pkg"),
        install: FormatInfo {
            dnf: text("pkg-dnf"),
            apt: String::new(),
            pacman: String::new(),
            aur: String::new(),
            flathub: text("org.pkg.Pkg"),
            appimage: AppImageInfo { link: text("https://x/pkg"), name: text("Pkg.AppImage") },
            github: GitHubInfo {
                repo: text("https://github.com/x/pkg"),
                steps: vec![text("make")],
                uninstall_steps: vec![text("make uninstall"), text("rm -rf build")],
                deps: vec![text("dep")],
            },
        },
    }
}

fn begin(method: Format, entries: Vec<Package>) -> Session {
    let mut ledger = Ledger::new();
    ledger.record_install(text("keep"), Format::Apt);
    ledger.record_install(text("pkg"), method);
    Package::uninstall("pkg", catalog(entries), ledger, "/apps", "/src")
}

fn names(session: &Session) -> Vec<String> {
    session.ledger().records().iter().map(|r| r.name.clone()).collect()
}

fn finish(result: Result<(), EngineError>) -> Action {
    Action::Finish { outcome: result }
}

#[test]
fn uninstalling_what_is_not_installed_is_a_success() {
    let mut ledger = Ledger::new();
    ledger.record_install(text("keep"), Format::Apt);
    let session = Package::uninstall("pkg", catalog(vec![]), ledger, "/apps", "/src");
    assert!(session.finished());
    assert_eq!(session.pending(), finish(Ok(())));
    assert_eq!(names(&session), vec![text("keep")]);
    let session =
        Package::uninstall("pkg", catalog(vec![entry()]), Ledger::new(), "/a", "/s");
    assert_eq!(session.pending(), finish(Ok(())));
    assert_eq!(session.ledger().len(), 0);
}

#[test]
fn a_package_manager_removes_what_it_installed() {
    let session = begin(Format::Dnf, vec![entry()]);
    assert_eq!(
        session.pending(),
        Action::Backend { method: Format::Dnf, removal: true, token: text("pkg-dnf") }
    );
    assert_eq!(names(&session), vec![text("keep"), text("pkg")]);
    let session = session.advance(Event::Status(0));
    assert_eq!(session.pending(), finish(Ok(())));
    assert_eq!(names(&session), vec![text("keep")]);
}

#[test]
fn a_failed_removal_keeps_the_record() {
    let session = begin(Format::Flathub, vec![entry()]).advance(Event::Status(2));
    assert_eq!(
        session.pending(),
        finish(Err(EngineError::BackendExecutionFailure { tool: text("flatpak"), status: 2 }))
    );
    assert_eq!(names(&session), vec![text("keep"), text("pkg")]);
}

#[test]
fn a_package_that_left_the_catalog_cannot_be_removed_by_its_manager() {
    let session = begin(Format::Dnf, vec![]);
    assert_eq!(session.pending(), finish(Err(EngineError::PackageNotFound { name: text("pkg") })));
    assert_eq!(names(&session), vec![text("keep"), text("pkg")]);
    let session = begin(Format::Apt, vec![entry()]);
    assert_eq!(
        session.pending(),
        finish(Err(EngineError::NoInstallCandidate { name: text("pkg") }))
    );
    assert_eq!(names(&session), vec![text("keep"), text("pkg")]);
}

#[test]
fn an_appimage_is_deleted() {
    let session = begin(Format::AppImage, vec![entry()]);
    assert_eq!(session.pending(), Action::Delete { target: text("/apps/Pkg.AppImage") });
    let session = session.advance(Event::Status(0));
    assert_eq!(session.pending(), finish(Ok(())));
    assert_eq!(names(&session), vec![text("keep")]);
}

#[test]
fn an_appimage_that_is_gone_already_is_uninstalled() {
    let session = begin(Format::AppImage, vec![entry()]).advance(Event::Absent);
    assert_eq!(session.pending(), finish(Ok(())));
    assert_eq!(names(&session), vec![text("keep")]);
}

#[test]
fn an_appimage_that_cannot_be_deleted_stays_recorded() {
    let session = begin(Format::AppImage, vec![entry()]).advance(Event::Status(13));
    assert_eq!(session.pending(), finish(Err(EngineError::IoFailure { status: 13 })));
    assert_eq!(names(&session), vec![text("keep"), text("pkg")]);
}

#[test]
fn a_source_build_runs_its_uninstall_steps() {
    let session = begin(Format::GitHub, vec![entry()]);
    assert_eq!(
        session.pending(),
        Action::Step { command: text("make uninstall"), directory: text("/src/pkg") }
    );
    let session = session.advance(Event::Status(0));
    assert_eq!(
        session.pending(),
        Action::Step { command: text("rm -rf build"), directory: text("/src/pkg") }
    );
    assert_eq!(names(&session), vec![text("keep"), text("pkg")]);
    let session = session.advance(Event::Status(0));
    assert_eq!(session.pending(), finish(Ok(())));
    assert_eq!(names(&session), vec![text("keep")]);
}

#[test]
fn a_failed_uninstall_step_keeps_the_record() {
    let session = begin(Format::GitHub, vec![entry()])
        .advance(Event::Status(0))
        .advance(Event::Status(7));
    assert_eq!(
        session.pending(),
        finish(Err(EngineError::BuildStepFailure { step: 2, status: 7 }))
    );
    assert_eq!(names(&session), vec![text("keep"), text("pkg")]);
}

#[test]
fn a_source_build_without_uninstall_steps_is_dropped_at_once() {
    let mut plain = entry();
    plain.install.github.uninstall_steps = Vec::new();
    let session = begin(Format::GitHub, vec![plain]);
    assert!(session.finished());
    assert_eq!(session.pending(), finish(Ok(())));
    assert_eq!(names(&session), vec![text("keep")]);
}
