use one_pkg::catalog::Catalog;
use one_pkg::document::{
    catalog_document, decode_appimage, decode_catalog, decode_entries, decode_github, decode_ledger,
    decode_package, decode_record, decode_records, decode_texts, encode_catalog, encode_ledger,
    encode_package, encode_record, encode_texts, ledger_document, load_catalog, load_ledger,
};
use one_pkg::error::EngineError;
use one_pkg::format::Format;
use one_pkg::ledger::{InstallInfo, Ledger};
use one_pkg::package::{AppImageInfo, FormatInfo, GitHubInfo, Package};

const FOO: &str = r#"{
    "name": "foo",
    "install": {
        "dnf": "", "apt": "foo-pkg", "pacman": "", "aur": "", "flathub": "",
        "appimage": { "link": "", "name": "" },
        "github": { "repo": "", "steps": [], "uninstall_steps": [], "deps": [] }
    }
}"#;

const BAR: &str = r#"{
    "name": "bar",
    "install": {
        "dnf": "bar", "apt": "", "pacman": "", "aur": "bar-git", "flathub": "org.bar.Bar",
        "appimage": { "link": "https://bar.example/bar.AppImage", "name": "Bar" },
        "github": {
            "repo": "https://github.com/bar/bar",
            "steps": ["./configure", "make", "make install"],
            "uninstall_steps": ["make uninstall"],
            "deps": ["foo"]
        }
    }
}"#;

fn catalog(entries: Vec<Package>) -> Catalog {
    Catalog::new(entries).expect("no name occurs twice")
}

fn text(s: &str) -> String {
    s.to_string()
}

fn foo() -> Package {
    Package {
        name: text("foo"),
        install: FormatInfo {
            dnf: text(""),
            apt: text("foo-pkg"),
            pacman: text(""),
            aur: text(""),
            flathub: text(""),
            appimage: AppImageInfo { link: text(""), name: text("") },
            github: GitHubInfo {
                repo: text(""),
                steps: vec![],
                uninstall_steps: vec![],
                deps: vec![],
            },
        },
    }
}

fn bar() -> Package {
    Package {
        name: text("bar"),
        install: FormatInfo {
            dnf: text("bar"),
            apt: text(""),
            pacman: text(""),
            aur: text("bar-git"),
            flathub: text("org.bar.Bar"),
            appimage: AppImageInfo {
                link: text("https://bar.example/bar.AppImage"),
                name: text("Bar"),
            },
            github: GitHubInfo {
                repo: text("https://github.com/bar/bar"),
                steps: vec![text("./configure"), text("make"), text("make install")],
                uninstall_steps: vec![text("make uninstall")],
                deps: vec![text("foo")],
            },
        },
    }
}

fn parse_failure(result: Result<Catalog, EngineError>) -> String {
    match result {
        Err(EngineError::ParseFailure { detail }) => detail,
        other => panic!("expected a parse failure, got {:?}", other),
    }
}

fn node(source: &str) -> serde_json::Value {
    serde_json::from_str::<serde_json::Value>(source).expect("test document")
}

#[test]
fn load_catalog_reads_every_field() {
    let document = format!("[{}, {}]", FOO, BAR);
    assert_eq!(load_catalog(&document), Ok(catalog(vec![foo(), bar()])));
}

#[test]
fn load_catalog_accepts_the_empty_catalog() {
    assert_eq!(load_catalog("[]"), Ok(catalog(vec![])));
    assert_eq!(load_catalog("  [ ]\n"), Ok(catalog(vec![])));
}

#[test]
fn load_catalog_passes_over_members_it_does_not_know() {
    let document = r#"[{
        "name": "foo", "homepage": "https://foo.example", "rank": 3,
        "install": {
            "dnf": "", "apt": "foo-pkg", "pacman": "", "aur": "", "flathub": "", "snap": "x",
            "appimage": { "link": "", "name": "", "size": 12 },
            "github": { "repo": "", "steps": [], "uninstall_steps": [], "deps": [], "x": null }
        }
    }]"#;
    assert_eq!(load_catalog(document), Ok(catalog(vec![foo()])));
}

#[test]
fn load_catalog_reports_what_the_parser_found() {
    let detail = parse_failure(load_catalog("[{\"name\": }]"));
    assert!(detail.contains("line 1"), "{}", detail);
    assert_ne!(detail, "the document does not describe a package catalog");
    assert!(matches!(load_catalog(""), Err(EngineError::ParseFailure { .. })));
    assert!(matches!(load_catalog("[] []"), Err(EngineError::ParseFailure { .. })));
}

#[test]
fn load_catalog_is_strict_about_the_shape() {
    let shape = "the document does not describe a package catalog";
    assert_eq!(parse_failure(load_catalog("{}")), shape);
    assert_eq!(parse_failure(load_catalog("null")), shape);
    assert_eq!(parse_failure(load_catalog("\"foo\"")), shape);
    assert_eq!(parse_failure(load_catalog("[1]")), shape);
    assert_eq!(parse_failure(load_catalog("[{}]")), shape);
    assert_eq!(parse_failure(load_catalog(&format!("[{}, 7]", FOO))), shape);
    let required = [
        "\"name\": \"foo\",",
        "\"dnf\": \"\",",
        "\"apt\": \"foo-pkg\",",
        "\"pacman\": \"\",",
        "\"aur\": \"\",",
        "\"flathub\": \"\",",
        "\"link\": \"\",",
        "\"repo\": \"\",",
        "\"steps\": [],",
        "\"uninstall_steps\": [],",
    ];
    for member in required {
        assert!(FOO.contains(member), "{}", member);
        let without = format!("[{}]", FOO.replacen(member, "", 1));
        assert_eq!(parse_failure(load_catalog(&without)), shape, "{}", member);
    }
    let wrong = [
        ("\"name\": \"foo\"", "\"name\": 1"),
        ("\"apt\": \"foo-pkg\"", "\"apt\": null"),
        ("\"steps\": []", "\"steps\": [1]"),
        ("\"deps\": []", "\"deps\": \"foo\""),
        ("\"appimage\": {", "\"appimage\": [], \"other\": {"),
    ];
    for (from, to) in wrong {
        assert!(FOO.contains(from), "{}", from);
        let changed = format!("[{}]", FOO.replacen(from, to, 1));
        assert_eq!(parse_failure(load_catalog(&changed)), shape, "{}", to);
    }
}

#[test]
fn load_catalog_refuses_a_name_that_occurs_twice() {
    let twice = format!("[{}, {}, {}]", FOO, BAR, FOO);
    assert_eq!(
        parse_failure(load_catalog(&twice)),
        "two packages of the catalog bear the same name"
    );
    assert_eq!(decode_catalog(&node(&twice)), None);
    assert_eq!(decode_entries(&node(&twice)), Some(vec![foo(), bar(), foo()]));
    assert_eq!(decode_entries(&node("{}")), None);
}

#[test]
fn decoders_read_nodes() {
    assert_eq!(decode_texts(&node(r#"["a", "", "c"]"#)), Some(vec![text("a"), text(""), text("c")]));
    assert_eq!(decode_texts(&node("[]")), Some(vec![]));
    assert_eq!(decode_texts(&node(r#"["a", 1]"#)), None);
    assert_eq!(decode_texts(&node(r#"{"a": "b"}"#)), None);
    assert_eq!(decode_texts(&node(r#""a""#)), None);
    assert_eq!(
        decode_appimage(&node(r#"{"name": "N", "link": "L"}"#)),
        Some(AppImageInfo { link: text("L"), name: text("N") })
    );
    assert_eq!(decode_appimage(&node(r#"{"name": "N"}"#)), None);
    assert_eq!(decode_appimage(&node(r#"["L", "N"]"#)), None);
    assert_eq!(decode_github(&node(r#"{"repo": "r", "steps": [], "deps": []}"#)), None);
    assert_eq!(decode_package(&node(BAR)), Some(bar()));
    assert_eq!(decode_package(&node(r#"{"name": "x"}"#)), None);
    assert_eq!(
        decode_catalog(&node(&format!("[{}]", BAR))),
        Some(catalog(vec![bar()]))
    );
    assert_eq!(decode_catalog(&node(BAR)), None);
}

#[test]
fn a_catalog_survives_writing_and_reading() {
    for catalog in [
        catalog(vec![]),
        catalog(vec![foo()]),
        catalog(vec![bar(), foo()]),
    ] {
        let written = catalog_document(&catalog).expect("a catalog can be rendered");
        assert_eq!(load_catalog(&written).as_ref(), Ok(&catalog));
        assert_eq!(decode_catalog(&encode_catalog(&catalog)), Some(catalog));
    }
}

#[test]
fn a_catalog_with_odd_texts_survives_writing_and_reading() {
    let mut odd = bar();
    odd.name = text("na\"me\\ with \n newline and \u{1F600} and \u{0}");
    odd.install.github.steps = vec![text("echo '{\"a\": [1, 2]}'"), text("")];
    let catalog = catalog(vec![odd]);
    let written = catalog_document(&catalog).expect("a catalog can be rendered");
    assert_eq!(load_catalog(&written), Ok(catalog));
}

#[test]
fn encoders_write_the_members_by_name() {
    let written = encode_package(&bar());
    assert_eq!(written, node(BAR));
    assert_eq!(encode_texts(&vec![text("a"), text("b")]), node(r#"["a", "b"]"#));
    assert_eq!(
        encode_record(&InstallInfo { name: text("foo"), method: Format::AppImage }),
        node(r#"{"name": "foo", "method": "AppImage"}"#)
    );
}

#[test]
fn load_ledger_reads_records() {
    let ledger = load_ledger(
        r#"[{"name": "foo", "method": "Apt"}, {"method": "GitHub", "name": "bar", "x": 1}]"#,
    );
    assert_eq!(ledger.len(), 2);
    assert_eq!(ledger.is_installed("foo"), Some(Format::Apt));
    assert_eq!(ledger.is_installed("bar"), Some(Format::GitHub));
    assert_eq!(load_ledger("[]").len(), 0);
}

#[test]
fn load_ledger_knows_every_method() {
    for method in [
        Format::Dnf,
        Format::Apt,
        Format::Pacman,
        Format::Aur,
        Format::Flathub,
        Format::AppImage,
        Format::GitHub,
    ] {
        let document = format!("[{{\"name\": \"p\", \"method\": \"{}\"}}]", method.token());
        assert_eq!(load_ledger(&document).is_installed("p"), Some(method));
    }
}

#[test]
fn a_corrupt_ledger_is_an_empty_ledger() {
    for document in [
        "",
        "not json",
        "{}",
        "null",
        "[1]",
        r#"[{"name": "foo"}]"#,
        r#"[{"name": "foo", "method": "Snap"}]"#,
        r#"[{"name": "foo", "method": "apt"}]"#,
        r#"[{"name": 1, "method": "Apt"}]"#,
        r#"[{"name": "foo", "method": "Apt"}, {"name": "foo", "method": "Dnf"}]"#,
        r#"[{"name": "foo", "method": "Apt"}, 3]"#,
        r#"[{"name": "foo", "method": "Apt"}"#,
    ] {
        assert_eq!(load_ledger(document).len(), 0, "{}", document);
    }
}

#[test]
fn ledger_nodes_are_decoded() {
    assert_eq!(
        decode_record(&node(r#"{"name": "a", "method": "Dnf"}"#)),
        Some(InstallInfo { name: text("a"), method: Format::Dnf })
    );
    assert_eq!(decode_record(&node(r#"{"name": "a", "method": "dnf"}"#)), None);
    assert_eq!(
        decode_records(&node(r#"[{"name": "a", "method": "Dnf"}, {"name": "a", "method": "Apt"}]"#)),
        Some(vec![
            InstallInfo { name: text("a"), method: Format::Dnf },
            InstallInfo { name: text("a"), method: Format::Apt }
        ])
    );
    assert_eq!(decode_records(&node("{}")), None);
    assert_eq!(
        decode_ledger(&node(r#"[{"name": "a", "method": "Dnf"}, {"name": "a", "method": "Apt"}]"#))
            .len(),
        0
    );
    assert_eq!(
        decode_ledger(&node(r#"[{"name": "a", "method": "Aur"}]"#)).is_installed("a"),
        Some(Format::Aur)
    );
}

#[test]
fn a_ledger_survives_writing_and_reading() {
    let mut ledger = Ledger::new();
    assert_eq!(ledger_document(&ledger), Some(text("[]")));
    ledger.record_install(text("foo"), Format::Apt);
    ledger.record_install(text("b\"ar"), Format::GitHub);
    ledger.record_install(text("img"), Format::AppImage);
    let written = ledger_document(&ledger).expect("a ledger can be rendered");
    let read = load_ledger(&written);
    assert_eq!(read.records(), ledger.records());
    assert_eq!(decode_ledger(&encode_ledger(&ledger)).records(), ledger.records());
}
