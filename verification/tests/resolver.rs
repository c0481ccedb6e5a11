use one_pkg::backend::arguments;
use one_pkg::catalog::Catalog;
use one_pkg::error::EngineError;
use one_pkg::format::Format;
use one_pkg::package::{AppImageInfo, Candidate, Descriptor, FormatInfo, GitHubInfo, Package};

fn catalog(entries: Vec<Package>) -> Catalog {
    Catalog::new(entries).expect("no name occurs twice")
}

fn text(s: &str) -> String {
    s.to_string()
}

fn bare(name: &str) -> Package {
    Package {
        name: text(name),
        install: FormatInfo {
            dnf: String::new(),
            apt: String::new(),
            pacman: String::new(),
            aur: String::new(),
            flathub: String::new(),
            appimage: AppImageInfo { link: String::new(), name: String::new() },
            github: GitHubInfo {
                repo: String::new(),
                steps: Vec::new(),
                uninstall_steps: Vec::new(),
                deps: Vec::new(),
            },
        },
    }
}

fn everything(name: &str) -> Package {
    let mut entry = bare(name);
    entry.install.dnf = text("d");
    entry.install.apt = text("a");
    entry.install.pacman = text("p");
    entry.install.aur = text("u");
    entry.install.flathub = text("f");
    entry.install.appimage = AppImageInfo { link: text("https://x/y.AppImage"), name: text("y") };
    entry.install.github.repo = text("https://github.com/x/y");
    entry
}

#[test]
fn formats_follow_the_fixed_order() {
    assert_eq!(
        everything("all").formats(),
        vec![
            Format::Dnf,
            Format::Apt,
            Format::Pacman,
            Format::Aur,
            Format::Flathub,
            Format::AppImage,
            Format::GitHub
        ]
    );
}

#[test]
fn formats_leave_out_empty_fields() {
    let mut entry = everything("some");
    entry.install.apt = String::new();
    entry.install.flathub = String::new();
    entry.install.appimage.link = String::new();
    assert_eq!(
        entry.formats(),
        vec![Format::Dnf, Format::Pacman, Format::Aur, Format::GitHub]
    );
    assert!(!entry.offers(Format::Apt));
    assert!(entry.offers(Format::Dnf));
}

#[test]
fn structured_descriptors_count_by_their_primary_field() {
    let mut entry = bare("img");
    entry.install.appimage.name = text("only-a-name");
    entry.install.github.steps = vec![text("make")];
    assert_eq!(entry.formats(), Vec::<Format>::new());
    entry.install.appimage.link = text("https://x/img");
    assert_eq!(entry.formats(), vec![Format::AppImage]);
    entry.install.github.repo = text("r");
    assert_eq!(entry.formats(), vec![Format::AppImage, Format::GitHub]);
}

#[test]
fn resolver_returns_apt_for_foo() {
    let mut foo = bare("foo");
    foo.install.apt = text("foo-pkg");
    let catalog = catalog(vec![foo]);
    assert_eq!(
        catalog.resolve("foo"),
        Ok(vec![Candidate { method: Format::Apt, descriptor: Descriptor::Token(text("foo-pkg")) }])
    );
}

#[test]
fn resolver_pairs_each_backend_with_its_descriptor() {
    let entry = everything("all");
    let list = entry.candidates();
    assert_eq!(list.len(), 7);
    assert_eq!(list[0], Candidate { method: Format::Dnf, descriptor: Descriptor::Token(text("d")) });
    assert_eq!(list[4].descriptor, Descriptor::Token(text("f")));
    assert_eq!(list[5].descriptor, Descriptor::AppImage(entry.install.appimage.clone()));
    assert_eq!(list[6].descriptor, Descriptor::GitHub(entry.install.github.clone()));
}

#[test]
fn resolver_tells_unknown_from_unresolvable() {
    let catalog = catalog(vec![bare("empty"), everything("full")]);
    assert_eq!(
        catalog.resolve("missing"),
        Err(EngineError::PackageNotFound { name: text("missing") })
    );
    assert_eq!(
        catalog.resolve("empty"),
        Err(EngineError::NoInstallCandidate { name: text("empty") })
    );
    assert!(catalog.resolve("full").is_ok());
}

#[test]
fn find_gives_the_position_of_the_entry() {
    let mut first = bare("first");
    first.install.dnf = text("one");
    let mut last = bare("last");
    last.install.apt = text("two");
    let catalog = catalog(vec![first, bare("other"), last]);
    assert_eq!(catalog.find("first"), Some(0));
    assert_eq!(catalog.find("other"), Some(1));
    assert_eq!(catalog.find("last"), Some(2));
    assert_eq!(catalog.find("none"), None);
    assert_eq!(catalog.find(""), None);
    assert_eq!(catalog.entries().len(), 3);
}

#[test]
fn a_catalog_holds_no_name_twice() {
    assert!(Catalog::new(vec![bare("a"), bare("b"), bare("a")]).is_none());
    assert!(Catalog::new(vec![bare("a"), bare("a")]).is_none());
    assert!(Catalog::new(vec![bare("a"), everything("b")]).is_some());
    assert!(Catalog::new(vec![bare("a")]).is_some());
    assert!(Catalog::new(Vec::new()).is_some());
}

#[test]
fn tokens_name_their_backends() {
    let all = [
        (Format::Dnf, "Dnf"),
        (Format::Apt, "Apt"),
        (Format::Pacman, "Pacman"),
        (Format::Aur, "Aur"),
        (Format::Flathub, "Flathub"),
        (Format::AppImage, "AppImage"),
        (Format::GitHub, "GitHub"),
    ];
    for (method, word) in all {
        assert_eq!(method.token(), word);
        assert_eq!(Format::from_token(word), Some(method));
    }
    assert_eq!(Format::from_token("apt"), None);
    assert_eq!(Format::from_token(""), None);
    assert!(Format::Flathub.uses_token());
    assert!(!Format::AppImage.uses_token());
    assert!(!Format::GitHub.uses_token());
}

#[test]
fn tools_are_named() {
    assert_eq!(Format::Dnf.tool(), "dnf");
    assert_eq!(Format::Apt.tool(), "apt");
    assert_eq!(Format::Pacman.tool(), "pacman");
    assert_eq!(Format::Aur.tool(), "yay");
    assert_eq!(Format::Flathub.tool(), "flatpak");
}

#[test]
fn package_managers_are_called_with_verb_and_token() {
    assert_eq!(arguments(Format::Dnf, false, "t"), vec![text("install"), text("t")]);
    assert_eq!(arguments(Format::Dnf, true, "t"), vec![text("remove"), text("t")]);
    assert_eq!(arguments(Format::Apt, false, "foo-pkg"), vec![text("install"), text("foo-pkg")]);
    assert_eq!(arguments(Format::Apt, true, "t"), vec![text("remove"), text("t")]);
    assert_eq!(arguments(Format::Pacman, false, "t"), vec![text("-S"), text("t")]);
    assert_eq!(arguments(Format::Pacman, true, "t"), vec![text("-R"), text("t")]);
    assert_eq!(arguments(Format::Aur, false, "t"), vec![text("-S"), text("t")]);
    assert_eq!(arguments(Format::Aur, true, "t"), vec![text("-R"), text("t")]);
    assert_eq!(
        arguments(Format::Flathub, false, "org.x.Y"),
        vec![text("install"), text("flathub"), text("org.x.Y")]
    );
    assert_eq!(arguments(Format::Flathub, true, "org.x.Y"), vec![text("uninstall"), text("org.x.Y")]);
}
