use one_pkg::catalog::Catalog;
use one_pkg::dispatch::{Action, Session};
use one_pkg::error::EngineError;
use one_pkg::format::Format;
use one_pkg::ledger::{InstallInfo, Ledger};
use one_pkg::package::{AppImageInfo, FormatInfo, GitHubInfo, Package};
use one_pkg::protocol::Event;

fn catalog(entries: Vec<Package>) -> Catalog {
    Catalog::new(entries).expect("no name occurs twice")
}

fn text(s: &str) -> String {
    s.to_string()
}

fn texts(list: &[&str]) -> Vec<String> {
    list.iter().map(|s| s.to_string()).collect()
}

fn bare(name: &str) -> Package {
    Package {
        name: text(name),
        install: FormatInfo {
            dnf: String::new(),
            apt: String::new(),
            pacman: String::new(),
            aur: String::new(),
            flathub: String::new(),
            appimage: AppImageInfo { link: String::new(), name: String::new() },
            github: GitHubInfo {
                repo: String::new(),
                steps: Vec::new(),
                uninstall_steps: Vec::new(),
                deps: Vec::new(),
            },
        },
    }
}

fn with_apt(name: &str, token: &str) -> Package {
    let mut entry = bare(name);
    entry.install.apt = text(token);
    entry
}

fn source(name: &str, steps: &[&str], deps: &[&str]) -> Package {
    let mut entry = bare(name);
    entry.install.github = GitHubInfo {
        repo: format!("https://github.com/x/{}", name),
        steps: texts(steps),
        uninstall_steps: Vec::new(),
        deps: texts(deps),
    };
    entry
}

fn ledger_of(records: &[(&str, Format)]) -> Ledger {
    let mut ledger = Ledger::new();
    for (name, method) in records {
        ledger.record_install(name.to_string(), *method);
    }
    ledger
}

fn begin(name: &str, entries: Vec<Package>, ledger: Ledger) -> Session {
    Package::install(name, catalog(entries), ledger, "/apps", "/src")
}

fn records(session: &Session) -> Vec<(String, Format)> {
    session.ledger().records().iter().map(|r| (r.name.clone(), r.method)).collect()
}

fn finish(result: Result<(), EngineError>) -> Action {
    Action::Finish { outcome: result }
}

#[test]
fn foo_is_installed_by_apt_and_only_once() {
    let session = begin("foo", vec![with_apt("foo", "foo-pkg")], Ledger::new());
    assert!(!session.finished());
    assert_eq!(
        session.pending(),
        Action::Choose { package: text("foo"), options: vec![Format::Apt] }
    );
    let session = session.advance(Event::Selected(0));
    assert_eq!(
        session.pending(),
        Action::Backend { method: Format::Apt, removal: false, token: text("foo-pkg") }
    );
    assert_eq!(session.ledger().len(), 0);
    let session = session.advance(Event::Status(0));
    assert!(session.finished());
    assert_eq!(session.pending(), finish(Ok(())));
    assert_eq!(
        session.ledger().records(),
        &vec![InstallInfo { name: text("foo"), method: Format::Apt }]
    );
    let again = begin("foo", vec![with_apt("foo", "foo-pkg")], session.into_ledger());
    assert!(again.finished());
    assert_eq!(again.pending(), finish(Ok(())));
    assert_eq!(records(&again), vec![(text("foo"), Format::Apt)]);
}

#[test]
fn installing_what_is_installed_asks_nothing_of_any_backend() {
    let ledger = ledger_of(&[("foo", Format::Dnf)]);
    let session = begin("foo", vec![], ledger);
    assert_eq!(session.pending(), finish(Ok(())));
    assert_eq!(records(&session), vec![(text("foo"), Format::Dnf)]);
    let session = session.advance(Event::Status(1)).advance(Event::Selected(0));
    assert_eq!(session.pending(), finish(Ok(())));
    assert_eq!(records(&session), vec![(text("foo"), Format::Dnf)]);
}

#[test]
fn unknown_and_unresolvable_packages_are_told_apart() {
    let session = begin("nope", vec![with_apt("foo", "f")], Ledger::new());
    assert_eq!(session.pending(), finish(Err(EngineError::PackageNotFound { name: text("nope") })));
    let session = begin("empty", vec![bare("empty")], Ledger::new());
    assert_eq!(
        session.pending(),
        finish(Err(EngineError::NoInstallCandidate { name: text("empty") }))
    );
    assert_eq!(session.ledger().len(), 0);
}

#[test]
fn a_selection_off_the_list_is_refused() {
    let session = begin("foo", vec![with_apt("foo", "f")], Ledger::new());
    let session = session.advance(Event::Selected(1));
    assert_eq!(session.pending(), finish(Err(EngineError::AmbiguousOrInvalidSelection)));
    assert_eq!(session.ledger().len(), 0);
}

#[test]
fn an_event_that_answers_nothing_changes_nothing() {
    let session = begin("foo", vec![with_apt("foo", "f")], Ledger::new());
    let session = session.advance(Event::Status(0)).advance(Event::Absent);
    assert_eq!(
        session.pending(),
        Action::Choose { package: text("foo"), options: vec![Format::Apt] }
    );
    let session = session.advance(Event::Selected(0)).advance(Event::Selected(0));
    assert_eq!(
        session.pending(),
        Action::Backend { method: Format::Apt, removal: false, token: text("f") }
    );
}

#[test]
fn each_package_manager_gets_its_own_token() {
    let mut entry = bare("multi");
    entry.install.dnf = text("m-dnf");
    entry.install.pacman = text("m-pac");
    entry.install.aur = text("m-aur");
    entry.install.flathub = text("org.m.M");
    let cases = [
        (0, Format::Dnf, "m-dnf", "dnf"),
        (1, Format::Pacman, "m-pac", "pacman"),
        (2, Format::Aur, "m-aur", "yay"),
        (3, Format::Flathub, "org.m.M", "flatpak"),
    ];
    for (choice, method, token, tool) in cases {
        let session = begin("multi", vec![entry.clone()], Ledger::new());
        let session = session.advance(Event::Selected(choice));
        assert_eq!(
            session.pending(),
            Action::Backend { method, removal: false, token: text(token) }
        );
        let failed = session.advance(Event::Status(100));
        assert_eq!(
            failed.pending(),
            finish(Err(EngineError::BackendExecutionFailure { tool: text(tool), status: 100 }))
        );
        assert_eq!(failed.ledger().len(), 0);
        let session = begin("multi", vec![entry.clone()], Ledger::new());
        let done = session.advance(Event::Selected(choice)).advance(Event::Status(0));
        assert_eq!(done.pending(), finish(Ok(())));
        assert_eq!(records(&done), vec![(text("multi"), method)]);
    }
}

#[test]
fn an_appimage_is_fetched_and_made_executable() {
    let mut entry = bare("img");
    entry.install.appimage = AppImageInfo { link: text("https://x/img.AppImage"), name: text("Img") };
    let session = begin("img", vec![entry], Ledger::new());
    assert_eq!(
        session.pending(),
        Action::Choose { package: text("img"), options: vec![Format::AppImage] }
    );
    let session = session.advance(Event::Selected(0));
    assert_eq!(
        session.pending(),
        Action::Fetch { link: text("https://x/img.AppImage"), target: text("/apps/Img") }
    );
    let session = session.advance(Event::Status(0));
    assert_eq!(session.pending(), Action::MarkExecutable { target: text("/apps/Img") });
    assert_eq!(session.ledger().len(), 0);
    let session = session.advance(Event::Status(0));
    assert_eq!(session.pending(), finish(Ok(())));
    assert_eq!(records(&session), vec![(text("img"), Format::AppImage)]);
}

#[test]
fn a_failed_download_is_a_network_failure() {
    let mut entry = bare("img");
    entry.install.appimage = AppImageInfo { link: text("l"), name: text("Img") };
    let session = begin("img", vec![entry.clone()], Ledger::new());
    let session = session.advance(Event::Selected(0)).advance(Event::Status(22));
    assert_eq!(session.pending(), finish(Err(EngineError::NetworkFailure { status: 22 })));
    assert_eq!(session.ledger().len(), 0);
    let session = begin("img", vec![entry], Ledger::new());
    let session =
        session.advance(Event::Selected(0)).advance(Event::Status(0)).advance(Event::Status(-1));
    assert_eq!(session.pending(), finish(Err(EngineError::IoFailure { status: -1 })));
    assert_eq!(session.ledger().len(), 0);
}

#[test]
fn a_source_build_runs_its_steps_in_order() {
    let entry = source("tool", &["./configure", "make", "make install"], &[]);
    let session = begin("tool", vec![entry], Ledger::new());
    let session = session.advance(Event::Selected(0));
    assert_eq!(
        session.pending(),
        Action::CloneRepository { repo: text("https://github.com/x/tool"), target: text("/src/tool") }
    );
    let mut session = session.advance(Event::Status(0));
    for command in ["./configure", "make", "make install"] {
        assert_eq!(
            session.pending(),
            Action::Step { command: text(command), directory: text("/src/tool") }
        );
        assert_eq!(session.ledger().len(), 0);
        session = session.advance(Event::Status(0));
    }
    assert_eq!(session.pending(), finish(Ok(())));
    assert_eq!(records(&session), vec![(text("tool"), Format::GitHub)]);
}

#[test]
fn a_source_build_without_steps_is_done_once_cloned() {
    let session = begin("tool", vec![source("tool", &[], &[])], Ledger::new());
    let session = session.advance(Event::Selected(0)).advance(Event::Status(0));
    assert_eq!(session.pending(), finish(Ok(())));
    assert_eq!(records(&session), vec![(text("tool"), Format::GitHub)]);
}

#[test]
fn a_failed_clone_is_a_network_failure() {
    let session = begin("tool", vec![source("tool", &["make"], &[])], Ledger::new());
    let session = session.advance(Event::Selected(0)).advance(Event::Status(128));
    assert_eq!(session.pending(), finish(Err(EngineError::NetworkFailure { status: 128 })));
    assert_eq!(session.ledger().len(), 0);
}

#[test]
fn build_step_two_of_three_fails() {
    let entry = source("tool", &["one", "two", "three"], &[]);
    let ledger = ledger_of(&[("other", Format::Apt)]);
    let session = begin("tool", vec![entry], ledger);
    let session = session
        .advance(Event::Selected(0))
        .advance(Event::Status(0))
        .advance(Event::Status(0));
    assert_eq!(
        session.pending(),
        Action::Step { command: text("two"), directory: text("/src/tool") }
    );
    let session = session.advance(Event::Status(3));
    assert!(session.finished());
    assert_eq!(
        session.pending(),
        finish(Err(EngineError::BuildStepFailure { step: 2, status: 3 }))
    );
    assert_eq!(records(&session), vec![(text("other"), Format::Apt)]);
}

#[test]
fn the_first_and_the_last_build_step_are_counted_from_one() {
    let entry = source("tool", &["one", "two", "three"], &[]);
    let session = begin("tool", vec![entry.clone()], Ledger::new());
    let session =
        session.advance(Event::Selected(0)).advance(Event::Status(0)).advance(Event::Status(-9));
    assert_eq!(
        session.pending(),
        finish(Err(EngineError::BuildStepFailure { step: 1, status: -9 }))
    );
    let session = begin("tool", vec![entry], Ledger::new());
    let session = session
        .advance(Event::Selected(0))
        .advance(Event::Status(0))
        .advance(Event::Status(0))
        .advance(Event::Status(0))
        .advance(Event::Status(1));
    assert_eq!(
        session.pending(),
        finish(Err(EngineError::BuildStepFailure { step: 3, status: 1 }))
    );
    assert_eq!(session.ledger().len(), 0);
}

#[test]
fn an_installed_dependency_is_not_installed_again() {
    let entries = vec![with_apt("foo", "foo-pkg"), source("bar", &["make"], &["foo"])];
    let session = begin("bar", entries, ledger_of(&[("foo", Format::Apt)]));
    assert_eq!(
        session.pending(),
        Action::Choose { package: text("bar"), options: vec![Format::GitHub] }
    );
    let session = session.advance(Event::Selected(0));
    assert_eq!(
        session.pending(),
        Action::CloneRepository { repo: text("https://github.com/x/bar"), target: text("/src/bar") }
    );
    let session = session.advance(Event::Status(0)).advance(Event::Status(0));
    assert_eq!(session.pending(), finish(Ok(())));
    assert_eq!(records(&session), vec![(text("foo"), Format::Apt), (text("bar"), Format::GitHub)]);
}

#[test]
fn dependencies_are_installed_before_the_build() {
    let entries = vec![
        with_apt("foo", "foo-pkg"),
        source("bar", &["make"], &["foo", "held", "baz"]),
        with_apt("baz", "baz-pkg"),
    ];
    let session = begin("bar", entries, ledger_of(&[("held", Format::Dnf)]));
    let session = session.advance(Event::Selected(0));
    assert_eq!(
        session.pending(),
        Action::Choose { package: text("foo"), options: vec![Format::Apt] }
    );
    let session = session.advance(Event::Selected(0));
    assert_eq!(
        session.pending(),
        Action::Backend { method: Format::Apt, removal: false, token: text("foo-pkg") }
    );
    let session = session.advance(Event::Status(0));
    assert_eq!(records(&session), vec![(text("held"), Format::Dnf), (text("foo"), Format::Apt)]);
    assert_eq!(
        session.pending(),
        Action::Choose { package: text("baz"), options: vec![Format::Apt] }
    );
    let session = session.advance(Event::Selected(0)).advance(Event::Status(0));
    assert_eq!(
        session.pending(),
        Action::CloneRepository { repo: text("https://github.com/x/bar"), target: text("/src/bar") }
    );
    let session = session.advance(Event::Status(0)).advance(Event::Status(0));
    assert_eq!(session.pending(), finish(Ok(())));
    assert_eq!(
        records(&session),
        vec![
            (text("held"), Format::Dnf),
            (text("foo"), Format::Apt),
            (text("baz"), Format::Apt),
            (text("bar"), Format::GitHub)
        ]
    );
}

#[test]
fn a_failed_dependency_fails_the_install_and_keeps_earlier_ones() {
    let entries = vec![
        with_apt("foo", "foo-pkg"),
        with_apt("baz", "baz-pkg"),
        source("bar", &["make"], &["foo", "baz"]),
    ];
    let session = begin("bar", entries, Ledger::new());
    let session = session
        .advance(Event::Selected(0))
        .advance(Event::Selected(0))
        .advance(Event::Status(0))
        .advance(Event::Selected(0))
        .advance(Event::Status(5));
    assert_eq!(
        session.pending(),
        finish(Err(EngineError::DependencyFailure { dependency: text("baz") }))
    );
    assert_eq!(records(&session), vec![(text("foo"), Format::Apt)]);
}

#[test]
fn an_unknown_or_unresolvable_dependency_fails_the_install() {
    let session = begin("bar", vec![source("bar", &["make"], &["ghost"])], Ledger::new());
    let session = session.advance(Event::Selected(0));
    assert_eq!(
        session.pending(),
        finish(Err(EngineError::DependencyFailure { dependency: text("ghost") }))
    );
    let session =
        begin("bar", vec![source("bar", &["make"], &["hollow"]), bare("hollow")], Ledger::new());
    let session = session.advance(Event::Selected(0));
    assert_eq!(
        session.pending(),
        finish(Err(EngineError::DependencyFailure { dependency: text("hollow") }))
    );
    assert_eq!(session.ledger().len(), 0);
}

#[test]
fn a_nested_failure_names_the_dependency_that_was_asked_for() {
    let entries = vec![
        source("top", &["make"], &["mid"]),
        source("mid", &["make"], &["low"]),
        with_apt("low", "low-pkg"),
    ];
    let session = begin("top", entries, Ledger::new());
    let session = session.advance(Event::Selected(0)).advance(Event::Selected(0));
    assert_eq!(
        session.pending(),
        Action::Choose { package: text("low"), options: vec![Format::Apt] }
    );
    let session = session.advance(Event::Selected(0)).advance(Event::Status(1));
    assert_eq!(
        session.pending(),
        finish(Err(EngineError::DependencyFailure { dependency: text("mid") }))
    );
    assert_eq!(session.ledger().len(), 0);
}

#[test]
fn packages_that_wait_for_each_other_fail() {
    let entries = vec![source("a", &["make"], &["b"]), source("b", &["make"], &["a"])];
    let session = begin("a", entries, Ledger::new());
    let session = session.advance(Event::Selected(0));
    assert_eq!(
        session.pending(),
        Action::Choose { package: text("b"), options: vec![Format::GitHub] }
    );
    let session = session.advance(Event::Selected(0));
    assert_eq!(
        session.pending(),
        finish(Err(EngineError::DependencyFailure { dependency: text("b") }))
    );
    let session = begin("self", vec![source("self", &[], &["self"])], Ledger::new());
    let session = session.advance(Event::Selected(0));
    assert_eq!(
        session.pending(),
        finish(Err(EngineError::DependencyFailure { dependency: text("self") }))
    );
}

#[test]
fn nested_dependencies_are_installed_innermost_first() {
    let entries = vec![
        source("top", &["t"], &["mid"]),
        source("mid", &["m"], &["low"]),
        with_apt("low", "low-pkg"),
    ];
    let mut session = begin("top", entries, Ledger::new());
    let script = [
        Event::Selected(0),
        Event::Selected(0),
        Event::Selected(0),
        Event::Status(0),
        Event::Status(0),
        Event::Status(0),
        Event::Status(0),
        Event::Status(0),
    ];
    for event in script {
        assert!(!session.finished());
        session = session.advance(event);
    }
    assert_eq!(session.pending(), finish(Ok(())));
    assert_eq!(
        records(&session),
        vec![(text("low"), Format::Apt), (text("mid"), Format::GitHub), (text("top"), Format::GitHub)]
    );
    assert_eq!(session.catalog().entries().len(), 3);
}

#[test]
fn a_bad_selection_for_a_dependency_fails_the_install() {
    let entries = vec![with_apt("foo", "foo-pkg"), source("bar", &["make"], &["foo"])];
    let session = begin("bar", entries, Ledger::new());
    let session = session.advance(Event::Selected(0)).advance(Event::Selected(7));
    assert_eq!(
        session.pending(),
        finish(Err(EngineError::DependencyFailure { dependency: text("foo") }))
    );
    assert_eq!(session.ledger().len(), 0);
}

#[test]
fn a_finished_session_stays_finished() {
    let session = begin("foo", vec![with_apt("foo", "f")], Ledger::new());
    let session = session.advance(Event::Selected(0)).advance(Event::Status(4));
    let expected =
        finish(Err(EngineError::BackendExecutionFailure { tool: text("apt"), status: 4 }));
    assert_eq!(session.pending(), expected);
    let session = session
        .advance(Event::Status(0))
        .advance(Event::Selected(0))
        .advance(Event::Absent);
    assert!(session.finished());
    assert_eq!(session.pending(), expected);
    assert_eq!(session.into_ledger().len(), 0);
}
