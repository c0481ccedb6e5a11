//! The two documents of the engine: the catalog and the ledger.
//!
//! A catalog document is a JSON array of package objects. Each has a `name`
//! and an `install` object; that holds one text for each system package
//! manager, an `appimage` object and a `github` object. A ledger document is
//! a JSON array of objects with a `name` and a `method`. Members that the
//! engine does not know are passed over.

use crate::catalog::{package_views, unique_names, Catalog};
use crate::error::{EngineError, ErrorView};
use crate::format::Format;
use crate::json::{
    json_document, json_items, json_member, json_rendering, json_text, list_node, node_items,
    node_member, node_text, object_node, parse, render, text_node,
};
use crate::ledger::{record_map, record_names, record_views, InstallInfo, InstallView, Ledger};
use crate::package::{
    AppImageInfo, AppImageView, FormatInfo, FormatView, GitHubInfo, GitHubView, Package,
    PackageView,
};
use crate::text::{copy_text, distinct, texts};
use vstd::prelude::*;

verus! {

/// The text that an object holds under a key.
pub open spec fn text_member(node: serde_json::Value, key: Seq<char>) -> Option<Seq<char>> {
    match json_member(node, key) {
        Some(member) => json_text(member),
        None => None,
    }
}

/// The texts of an array of JSON strings.
pub open spec fn text_list(node: serde_json::Value) -> Option<Seq<Seq<char>>> {
    match json_items(node) {
        Some(items) => if forall|i: int| 0 <= i < items.len() ==> json_text(#[trigger] items[i]) is Some {
            Some(Seq::new(items.len(), |i: int| json_text(items[i])->0))
        } else {
            None
        },
        None => None,
    }
}

/// The list of texts that an object holds under a key.
pub open spec fn list_member(node: serde_json::Value, key: Seq<char>) -> Option<Seq<Seq<char>>> {
    match json_member(node, key) {
        Some(member) => text_list(member),
        None => None,
    }
}

/// The AppImage descriptor that an object stands for.
pub open spec fn appimage_of(node: serde_json::Value) -> Option<AppImageView> {
    if text_member(node, "link"@) is Some && text_member(node, "name"@) is Some {
        Some(
            AppImageView {
                link: text_member(node, "link"@)->0,
                name: text_member(node, "name"@)->0,
            },
        )
    } else {
        None
    }
}

/// The source-build descriptor that an object stands for.
pub open spec fn github_of(node: serde_json::Value) -> Option<GitHubView> {
    if text_member(node, "repo"@) is Some && list_member(node, "steps"@) is Some && list_member(
        node,
        "uninstall_steps"@,
    ) is Some && list_member(node, "deps"@) is Some {
        Some(
            GitHubView {
                repo: text_member(node, "repo"@)->0,
                steps: list_member(node, "steps"@)->0,
                uninstall_steps: list_member(node, "uninstall_steps"@)->0,
                deps: list_member(node, "deps"@)->0,
            },
        )
    } else {
        None
    }
}

/// The AppImage descriptor that an object holds under `appimage`.
pub open spec fn appimage_member(node: serde_json::Value) -> Option<AppImageView> {
    match json_member(node, "appimage"@) {
        Some(member) => appimage_of(member),
        None => None,
    }
}

/// The source-build descriptor that an object holds under `github`.
pub open spec fn github_member(node: serde_json::Value) -> Option<GitHubView> {
    match json_member(node, "github"@) {
        Some(member) => github_of(member),
        None => None,
    }
}

/// The descriptors that an object stands for.
pub open spec fn formats_of(node: serde_json::Value) -> Option<FormatView> {
    if text_member(node, "dnf"@) is Some && text_member(node, "apt"@) is Some && text_member(
        node,
        "pacman"@,
    ) is Some && text_member(node, "aur"@) is Some && text_member(node, "flathub"@) is Some
        && appimage_member(node) is Some && github_member(node) is Some {
        Some(
            FormatView {
                dnf: text_member(node, "dnf"@)->0,
                apt: text_member(node, "apt"@)->0,
                pacman: text_member(node, "pacman"@)->0,
                aur: text_member(node, "aur"@)->0,
                flathub: text_member(node, "flathub"@)->0,
                appimage: appimage_member(node)->0,
                github: github_member(node)->0,
            },
        )
    } else {
        None
    }
}

/// The descriptors that an object holds under `install`.
pub open spec fn install_member(node: serde_json::Value) -> Option<FormatView> {
    match json_member(node, "install"@) {
        Some(member) => formats_of(member),
        None => None,
    }
}

/// The catalog entry that an object stands for.
pub open spec fn package_of(node: serde_json::Value) -> Option<PackageView> {
    if text_member(node, "name"@) is Some && install_member(node) is Some {
        Some(PackageView { name: text_member(node, "name"@)->0, install: install_member(node)->0 })
    } else {
        None
    }
}

/// The entries that a node stands for: it is an array, and each element
/// is a package object.
pub open spec fn entries_of(node: serde_json::Value) -> Option<Seq<PackageView>> {
    match json_items(node) {
        Some(items) => if forall|i: int| 0 <= i < items.len() ==> package_of(#[trigger] items[i]) is Some {
            Some(Seq::new(items.len(), |i: int| package_of(items[i])->0))
        } else {
            None
        },
        None => None,
    }
}

/// The catalog that a node stands for: its entries, where no two of them
/// bear the same name.
pub open spec fn catalog_of(node: serde_json::Value) -> Option<Seq<PackageView>> {
    match entries_of(node) {
        Some(entries) => if unique_names(entries) {
            Some(entries)
        } else {
            None
        },
        None => None,
    }
}

/// What is said of a document that is well-formed JSON and yet no list of
/// packages.
pub open spec fn shape_fault() -> Seq<char> {
    "the document does not describe a package catalog"@
}

/// What is said of a list of packages in which a name occurs twice.
pub open spec fn name_fault() -> Seq<char> {
    "two packages of the catalog bear the same name"@
}

/// The catalog that a text stands for, or the failure to parse it.
pub open spec fn load_spec(text: Seq<char>) -> Result<Seq<PackageView>, ErrorView> {
    match json_document(text) {
        Err(detail) => Err(ErrorView::ParseFailure { detail }),
        Ok(node) => match entries_of(node) {
            Some(entries) => if unique_names(entries) {
                Ok(entries)
            } else {
                Err(ErrorView::ParseFailure { detail: name_fault() })
            },
            None => Err(ErrorView::ParseFailure { detail: shape_fault() }),
        },
    }
}

fn member_text(node: &serde_json::Value, key: &str) -> (r: Option<String>)
    ensures
        match r {
            Some(text) => text_member(*node, key@) == Some(text@),
            None => text_member(*node, key@) is None,
        },
{
    match node_member(node, key) {
        None => None,
        Some(member) => match node_text(member) {
            None => None,
            Some(text) => Some(copy_text(text)),
        },
    }
}

/// The texts of an array of JSON strings.
pub fn decode_texts(node: &serde_json::Value) -> (r: Option<Vec<String>>)
    ensures
        match r {
            Some(list) => text_list(*node) == Some(texts(list@)),
            None => text_list(*node) is None,
        },
{
    match node_items(node) {
        None => None,
        Some(items) => {
            let mut out: Vec<String> = Vec::new();
            let mut i: usize = 0;
            while i < items.len()
                invariant
                    i <= items.len(),
                    out.len() == i,
                    json_items(*node) == Some(items@),
                    forall|k: int| 0 <= k < i ==> json_text(#[trigger] items[k]) == Some(out[k]@),
                decreases items.len() - i,
            {
                match node_text(&items[i]) {
                    None => {
                        return None;
                    },
                    Some(text) => {
                        out.push(copy_text(text));
                    },
                }
                i = i + 1;
            }
            Some(out)
        },
    }
}

fn member_list(node: &serde_json::Value, key: &str) -> (r: Option<Vec<String>>)
    ensures
        match r {
            Some(list) => list_member(*node, key@) == Some(texts(list@)),
            None => list_member(*node, key@) is None,
        },
{
    match node_member(node, key) {
        None => None,
        Some(member) => decode_texts(member),
    }
}

/// The AppImage descriptor that an object stands for.
pub fn decode_appimage(node: &serde_json::Value) -> (r: Option<AppImageInfo>)
    ensures
        match r {
            Some(info) => appimage_of(*node) == Some(info@),
            None => appimage_of(*node) is None,
        },
{
    let link = member_text(node, "link");
    let name = member_text(node, "name");
    match (link, name) {
        (Some(link), Some(name)) => Some(AppImageInfo { link, name }),
        _ => None,
    }
}

/// The source-build descriptor that an object stands for.
pub fn decode_github(node: &serde_json::Value) -> (r: Option<GitHubInfo>)
    ensures
        match r {
            Some(info) => github_of(*node) == Some(info@),
            None => github_of(*node) is None,
        },
{
    let repo = member_text(node, "repo");
    let steps = member_list(node, "steps");
    let uninstall_steps = member_list(node, "uninstall_steps");
    let deps = member_list(node, "deps");
    match (repo, steps, uninstall_steps, deps) {
        (Some(repo), Some(steps), Some(uninstall_steps), Some(deps)) => Some(
            GitHubInfo { repo, steps, uninstall_steps, deps },
        ),
        _ => None,
    }
}

/// The descriptors that an object stands for.
pub fn decode_formats(node: &serde_json::Value) -> (r: Option<FormatInfo>)
    ensures
        match r {
            Some(info) => formats_of(*node) == Some(info@),
            None => formats_of(*node) is None,
        },
{
    let dnf = member_text(node, "dnf");
    let apt = member_text(node, "apt");
    let pacman = member_text(node, "pacman");
    let aur = member_text(node, "aur");
    let flathub = member_text(node, "flathub");
    let appimage = match node_member(node, "appimage") {
        Some(member) => decode_appimage(member),
        None => None,
    };
    let github = match node_member(node, "github") {
        Some(member) => decode_github(member),
        None => None,
    };
    match (dnf, apt, pacman, aur, flathub, appimage, github) {
        (
            Some(dnf),
            Some(apt),
            Some(pacman),
            Some(aur),
            Some(flathub),
            Some(appimage),
            Some(github),
        ) => Some(FormatInfo { dnf, apt, pacman, aur, flathub, appimage, github }),
        _ => None,
    }
}

/// The catalog entry that an object stands for.
pub fn decode_package(node: &serde_json::Value) -> (r: Option<Package>)
    ensures
        match r {
            Some(entry) => package_of(*node) == Some(entry@),
            None => package_of(*node) is None,
        },
{
    let name = member_text(node, "name");
    let install = match node_member(node, "install") {
        Some(member) => decode_formats(member),
        None => None,
    };
    match (name, install) {
        (Some(name), Some(install)) => Some(Package { name, install }),
        _ => None,
    }
}

/// The entries that a document node stands for.
pub fn decode_entries(node: &serde_json::Value) -> (r: Option<Vec<Package>>)
    ensures
        match r {
            Some(entries) => entries_of(*node) == Some(package_views(entries@)),
            None => entries_of(*node) is None,
        },
{
    match node_items(node) {
        None => None,
        Some(items) => {
            let mut entries: Vec<Package> = Vec::new();
            let mut i: usize = 0;
            while i < items.len()
                invariant
                    i <= items.len(),
                    entries.len() == i,
                    json_items(*node) == Some(items@),
                    forall|k: int|
                        0 <= k < i ==> package_of(#[trigger] items[k]) == Some(entries[k]@),
                decreases items.len() - i,
            {
                match decode_package(&items[i]) {
                    None => {
                        return None;
                    },
                    Some(entry) => {
                        entries.push(entry);
                    },
                }
                i = i + 1;
            }
            Some(entries)
        },
    }
}

/// The catalog that a document node stands for.
pub fn decode_catalog(node: &serde_json::Value) -> (r: Option<Catalog>)
    ensures
        match r {
            Some(catalog) => catalog_of(*node) == Some(catalog@),
            None => catalog_of(*node) is None,
        },
{
    match decode_entries(node) {
        Some(entries) => Catalog::new(entries),
        None => None,
    }
}

/// Reads a catalog document. Parsing is strict: a text that is not JSON, a
/// document that is not an array of complete package objects, and a list in
/// which a name occurs twice, all fail.
pub fn load_catalog(text: &str) -> (r: Result<Catalog, EngineError>)
    ensures
        match r {
            Ok(catalog) => load_spec(text@) == Ok::<Seq<PackageView>, ErrorView>(catalog@),
            Err(e) => load_spec(text@) == Err::<Seq<PackageView>, ErrorView>(e@),
        },
{
    match parse(text) {
        Err(detail) => Err(EngineError::ParseFailure { detail }),
        Ok(node) => match decode_entries(&node) {
            Some(entries) => match Catalog::new(entries) {
                Some(catalog) => Ok(catalog),
                None => Err(
                    EngineError::ParseFailure {
                        detail: copy_text("two packages of the catalog bear the same name"),
                    },
                ),
            },
            None => Err(
                EngineError::ParseFailure {
                    detail: copy_text("the document does not describe a package catalog"),
                },
            ),
        },
    }
}

/// The ledger record that an object stands for.
pub open spec fn record_of(node: serde_json::Value) -> Option<InstallView> {
    if text_member(node, "name"@) is Some && text_member(node, "method"@) is Some
        && Format::from_token_spec(text_member(node, "method"@)->0) is Some {
        Some(
            InstallView {
                name: text_member(node, "name"@)->0,
                method: Format::from_token_spec(text_member(node, "method"@)->0)->0,
            },
        )
    } else {
        None
    }
}

/// The records that a node stands for: it is an array, and each element is
/// a record object.
pub open spec fn records_of(node: serde_json::Value) -> Option<Seq<InstallView>> {
    match json_items(node) {
        Some(items) => if forall|i: int| 0 <= i < items.len() ==> record_of(#[trigger] items[i]) is Some {
            Some(Seq::new(items.len(), |i: int| record_of(items[i])->0))
        } else {
            None
        },
        None => None,
    }
}

/// The ledger that a node stands for. A node that is no list of records,
/// and a list that records a name twice, stand for the empty ledger.
pub open spec fn ledger_of(node: serde_json::Value) -> Map<Seq<char>, Format> {
    match records_of(node) {
        Some(list) => if distinct(record_names(list)) {
            record_map(list)
        } else {
            Map::empty()
        },
        None => Map::empty(),
    }
}

/// The ledger that a text stands for. A text that is not JSON stands for the
/// empty ledger.
pub open spec fn ledger_spec(text: Seq<char>) -> Map<Seq<char>, Format> {
    match json_document(text) {
        Ok(node) => ledger_of(node),
        Err(_) => Map::empty(),
    }
}

/// The ledger record that an object stands for.
pub fn decode_record(node: &serde_json::Value) -> (r: Option<InstallInfo>)
    ensures
        match r {
            Some(record) => record_of(*node) == Some(record@),
            None => record_of(*node) is None,
        },
{
    let name = member_text(node, "name");
    let method = member_text(node, "method");
    match (name, method) {
        (Some(name), Some(word)) => match Format::from_token(word.as_str()) {
            Some(method) => Some(InstallInfo { name, method }),
            None => None,
        },
        _ => None,
    }
}

/// The records that a document node stands for.
pub fn decode_records(node: &serde_json::Value) -> (r: Option<Vec<InstallInfo>>)
    ensures
        match r {
            Some(list) => records_of(*node) == Some(record_views(list@)),
            None => records_of(*node) is None,
        },
{
    match node_items(node) {
        None => None,
        Some(items) => {
            let mut out: Vec<InstallInfo> = Vec::new();
            let mut i: usize = 0;
            while i < items.len()
                invariant
                    i <= items.len(),
                    out.len() == i,
                    json_items(*node) == Some(items@),
                    forall|k: int| 0 <= k < i ==> record_of(#[trigger] items[k]) == Some(out[k]@),
                decreases items.len() - i,
            {
                match decode_record(&items[i]) {
                    None => {
                        return None;
                    },
                    Some(record) => {
                        out.push(record);
                    },
                }
                i = i + 1;
            }
            Some(out)
        },
    }
}

/// The ledger that a document node stands for. This never fails: whatever
/// is no sound list of records gives the empty ledger.
pub fn decode_ledger(node: &serde_json::Value) -> (r: Ledger)
    ensures
        r@ == ledger_of(*node),
{
    match decode_records(node) {
        None => Ledger::new(),
        Some(list) => match Ledger::from_records(list) {
            Some(ledger) => ledger,
            None => Ledger::new(),
        },
    }
}

/// Reads a ledger document. This never fails: a text that is not JSON, or
/// that is no sound list of records, gives the empty ledger.
pub fn load_ledger(text: &str) -> (r: Ledger)
    ensures
        r@ == ledger_spec(text@),
{
    match parse(text) {
        Err(_) => Ledger::new(),
        Ok(node) => decode_ledger(&node),
    }
}

fn text_entry(key: &str, text: &String) -> (r: (String, serde_json::Value))
    ensures
        r.0@ == key@,
        json_text(r.1) == Some(text@),
{
    (copy_text(key), text_node(text.clone()))
}

/// The array of JSON strings that holds the given texts.
pub fn encode_texts(list: &Vec<String>) -> (node: serde_json::Value)
    ensures
        text_list(node) == Some(texts(list@)),
{
    let mut items: Vec<serde_json::Value> = Vec::new();
    let mut i: usize = 0;
    while i < list.len()
        invariant
            i <= list.len(),
            items.len() == i,
            forall|k: int| 0 <= k < i ==> json_text(#[trigger] items[k]) == Some(list[k]@),
        decreases list.len() - i,
    {
        items.push(text_node(list[i].clone()));
        i = i + 1;
    }
    let node = list_node(items);
    node
}

fn list_entry(key: &str, list: &Vec<String>) -> (r: (String, serde_json::Value))
    ensures
        r.0@ == key@,
        text_list(r.1) == Some(texts(list@)),
{
    (copy_text(key), encode_texts(list))
}

/// The object that stands for an AppImage descriptor.
pub fn encode_appimage(info: &AppImageInfo) -> (node: serde_json::Value)
    ensures
        appimage_of(node) == Some(info@),
{
    let mut members: Vec<(String, serde_json::Value)> = Vec::new();
    members.push(text_entry("link", &info.link));
    members.push(text_entry("name", &info.name));
    let ghost held = members@;
    proof {
        reveal_strlit("link");
        reveal_strlit("name");
        assert("link"@[0] != "name"@[0]);
    }
    let node = object_node(members);
    assert(json_member(node, held[0].0@) == Some(held[0].1));
    assert(json_member(node, held[1].0@) == Some(held[1].1));
    node
}

/// The object that stands for a source-build descriptor.
pub fn encode_github(info: &GitHubInfo) -> (node: serde_json::Value)
    ensures
        github_of(node) == Some(info@),
{
    let mut members: Vec<(String, serde_json::Value)> = Vec::new();
    members.push(text_entry("repo", &info.repo));
    members.push(list_entry("steps", &info.steps));
    members.push(list_entry("uninstall_steps", &info.uninstall_steps));
    members.push(list_entry("deps", &info.deps));
    let ghost held = members@;
    proof {
        reveal_strlit("repo");
        reveal_strlit("steps");
        reveal_strlit("uninstall_steps");
        reveal_strlit("deps");
        assert("repo"@[0] == 'r');
        assert("steps"@[0] == 's');
        assert("uninstall_steps"@[0] == 'u');
        assert("deps"@[0] == 'd');
    }
    let node = object_node(members);
    assert(json_member(node, held[0].0@) == Some(held[0].1));
    assert(json_member(node, held[1].0@) == Some(held[1].1));
    assert(json_member(node, held[2].0@) == Some(held[2].1));
    assert(json_member(node, held[3].0@) == Some(held[3].1));
    node
}

/// The object that stands for the descriptors of a package.
pub fn encode_formats(info: &FormatInfo) -> (node: serde_json::Value)
    ensures
        formats_of(node) == Some(info@),
{
    let mut members: Vec<(String, serde_json::Value)> = Vec::new();
    members.push(text_entry("dnf", &info.dnf));
    members.push(text_entry("apt", &info.apt));
    members.push(text_entry("pacman", &info.pacman));
    members.push(text_entry("aur", &info.aur));
    members.push(text_entry("flathub", &info.flathub));
    members.push((copy_text("appimage"), encode_appimage(&info.appimage)));
    members.push((copy_text("github"), encode_github(&info.github)));
    let ghost held = members@;
    proof {
        reveal_strlit("dnf");
        reveal_strlit("apt");
        reveal_strlit("pacman");
        reveal_strlit("aur");
        reveal_strlit("flathub");
        reveal_strlit("appimage");
        reveal_strlit("github");
        assert("dnf"@[0] == 'd');
        assert("apt"@[1] == 'p' && "apt"@.len() == 3);
        assert("pacman"@[0] == 'p');
        assert("aur"@[1] == 'u' && "aur"@.len() == 3);
        assert("flathub"@[0] == 'f');
        assert("appimage"@.len() == 8);
        assert("github"@[0] == 'g');
    }
    let node = object_node(members);
    assert(json_member(node, held[0].0@) == Some(held[0].1));
    assert(json_member(node, held[1].0@) == Some(held[1].1));
    assert(json_member(node, held[2].0@) == Some(held[2].1));
    assert(json_member(node, held[3].0@) == Some(held[3].1));
    assert(json_member(node, held[4].0@) == Some(held[4].1));
    assert(json_member(node, held[5].0@) == Some(held[5].1));
    assert(json_member(node, held[6].0@) == Some(held[6].1));
    node
}

/// The object that stands for a catalog entry.
pub fn encode_package(entry: &Package) -> (node: serde_json::Value)
    ensures
        package_of(node) == Some(entry@),
{
    let mut members: Vec<(String, serde_json::Value)> = Vec::new();
    members.push(text_entry("name", &entry.name));
    members.push((copy_text("install"), encode_formats(&entry.install)));
    let ghost held = members@;
    proof {
        reveal_strlit("name");
        reveal_strlit("install");
        assert("name"@[0] != "install"@[0]);
    }
    let node = object_node(members);
    assert(json_member(node, held[0].0@) == Some(held[0].1));
    assert(json_member(node, held[1].0@) == Some(held[1].1));
    node
}

/// The document node that stands for a catalog. Reading the node back with
/// [`decode_catalog`] gives the same catalog.
pub fn encode_catalog(catalog: &Catalog) -> (node: serde_json::Value)
    ensures
        catalog_of(node) == Some(catalog@),
{
    let entries = catalog.entries();
    let mut items: Vec<serde_json::Value> = Vec::new();
    let mut i: usize = 0;
    while i < entries.len()
        invariant
            i <= entries.len(),
            items.len() == i,
            forall|k: int| 0 <= k < i ==> package_of(#[trigger] items[k]) == Some(entries[k]@),
        decreases entries.len() - i,
    {
        items.push(encode_package(&entries[i]));
        i = i + 1;
    }
    let node = list_node(items);
    assert(entries_of(node)->0 =~= package_views(entries@));
    node
}

/// The object that stands for a ledger record.
pub fn encode_record(record: &InstallInfo) -> (node: serde_json::Value)
    ensures
        record_of(node) == Some(record@),
{
    let word = copy_text(record.method.token());
    let mut members: Vec<(String, serde_json::Value)> = Vec::new();
    members.push(text_entry("name", &record.name));
    members.push(text_entry("method", &word));
    let ghost held = members@;
    proof {
        reveal_strlit("name");
        reveal_strlit("method");
        assert("name"@[0] != "method"@[0]);
        crate::format::lemma_token_round_trip(record.method);
    }
    let node = object_node(members);
    assert(json_member(node, held[0].0@) == Some(held[0].1));
    assert(json_member(node, held[1].0@) == Some(held[1].1));
    node
}

/// The document node that stands for a ledger. Reading the node back with
/// [`decode_ledger`] gives the same ledger.
pub fn encode_ledger(ledger: &Ledger) -> (node: serde_json::Value)
    ensures
        ledger_of(node) == ledger@,
{
    let records = ledger.records();
    let mut items: Vec<serde_json::Value> = Vec::new();
    let mut i: usize = 0;
    while i < records.len()
        invariant
            i <= records.len(),
            items.len() == i,
            forall|k: int| 0 <= k < i ==> record_of(#[trigger] items[k]) == Some(records[k]@),
        decreases records.len() - i,
    {
        items.push(encode_record(&records[i]));
        i = i + 1;
    }
    let node = list_node(items);
    assert(records_of(node)->0 =~= record_views(records@));
    node
}

/// The characters of a rendering, where there is one.
pub open spec fn rendering_view(rendering: Option<String>) -> Option<Seq<char>> {
    match rendering {
        Some(text) => Some(text@),
        None => None,
    }
}

/// The text of a catalog document: what `serde_json` renders a node as that
/// stands for the catalog. Where `serde_json` renders no text for that node,
/// there is none.
pub fn catalog_document(catalog: &Catalog) -> (r: Option<String>)
    ensures
        exists|node: serde_json::Value|
            catalog_of(node) == Some(catalog@) && #[trigger] json_rendering(node)
                == rendering_view(r),
{
    let node = encode_catalog(catalog);
    render(&node)
}

/// The text of a ledger document: what `serde_json` renders a node as that
/// stands for the ledger. Where `serde_json` renders no text for that node,
/// there is none.
pub fn ledger_document(ledger: &Ledger) -> (r: Option<String>)
    ensures
        exists|node: serde_json::Value|
            ledger_of(node) == ledger@ && #[trigger] json_rendering(node) == rendering_view(r),
{
    let node = encode_ledger(ledger);
    render(&node)
}

/// A catalog that is written and read again is the same catalog: where a
/// node stands for the catalog, as the one that [`encode_catalog`] makes
/// does, and a text is read back as that node, [`load_catalog`] gives the
/// catalog for the text.
pub proof fn lemma_catalog_round_trip(
    entries: Seq<PackageView>,
    node: serde_json::Value,
    text: Seq<char>,
)
    ensures
        catalog_of(node) == Some(entries) && json_document(text) == Ok::<
            serde_json::Value,
            Seq<char>,
        >(node) ==> load_spec(text) == Ok::<Seq<PackageView>, ErrorView>(entries),
{
}

/// A ledger that is written and read again is the same ledger: where a
/// node stands for the ledger, as the one that [`encode_ledger`] makes
/// does, and a text is read back as that node, [`load_ledger`] gives the
/// ledger for the text.
pub proof fn lemma_ledger_round_trip(
    ledger: Map<Seq<char>, Format>,
    node: serde_json::Value,
    text: Seq<char>,
)
    ensures
        ledger_of(node) == ledger && json_document(text) == Ok::<serde_json::Value, Seq<char>>(
            node,
        ) ==> ledger_spec(text) == ledger,
{
}

} // verus!
