//! Where the engine keeps its files: one configuration directory with the
//! catalog, its backup, the ledger, the AppImages and the cloned
//! repositories.

use crate::error::{EngineError, ErrorView};
use crate::text::{join, join_spec};
use vstd::prelude::*;
use vstd::string::*;

verus! {

/// The paths of the engine's files.
#[derive(Debug, PartialEq, Eq)]
pub struct Layout {
    /// The configuration directory of the engine.
    pub dir: String,
    /// The catalog document.
    pub catalog: String,
    /// The catalog document of before the last synchronization.
    pub backup: String,
    /// The ledger document.
    pub ledger: String,
    /// The directory of the AppImages.
    pub apps: String,
    /// The directory of the cloned repositories.
    pub sources: String,
}

/// A [`Layout`] with its paths as sequences of characters.
pub struct LayoutView {
    pub dir: Seq<char>,
    pub catalog: Seq<char>,
    pub backup: Seq<char>,
    pub ledger: Seq<char>,
    pub apps: Seq<char>,
    pub sources: Seq<char>,
}

impl View for Layout {
    type V = LayoutView;

    open spec fn view(&self) -> LayoutView {
        LayoutView {
            dir: self.dir@,
            catalog: self.catalog@,
            backup: self.backup@,
            ledger: self.ledger@,
            apps: self.apps@,
            sources: self.sources@,
        }
    }
}

/// The path of the catalog document in a configuration directory.
pub open spec fn catalog_path(dir: Seq<char>) -> Seq<char> {
    join_spec(dir, "pkg-ls.json"@)
}

/// The path of the catalog's backup in a configuration directory: that of
/// the catalog with `.old` behind it.
pub open spec fn backup_path(dir: Seq<char>) -> Seq<char> {
    catalog_path(dir) + ".old"@
}

/// The paths of the engine's files, given the directory in which the
/// system keeps configuration.
pub open spec fn layout_spec(root: Seq<char>) -> LayoutView {
    let dir = join_spec(root, "one-pkg"@);
    LayoutView {
        dir,
        catalog: catalog_path(dir),
        backup: backup_path(dir),
        ledger: join_spec(dir, "installed.json"@),
        apps: join_spec(dir, "appimages"@),
        sources: join_spec(dir, "sources"@),
    }
}

/// The characters of a text, if there is one.
pub open spec fn root_view(root: Option<String>) -> Option<Seq<char>> {
    match root {
        Some(text) => Some(text@),
        None => None,
    }
}

/// The paths of the engine's files, or the failure to place them where the
/// system knows no directory for configuration.
pub open spec fn locate_spec(root: Option<Seq<char>>) -> Result<LayoutView, ErrorView> {
    match root {
        Some(root) => Ok(layout_spec(root)),
        None => Err(ErrorView::ConfigDirUnavailable),
    }
}

/// The path of the catalog document in a configuration directory.
pub fn catalog_in(dir: &str) -> (r: String)
    ensures
        r@ == catalog_path(dir@),
{
    join(dir, "pkg-ls.json")
}

/// The path of the catalog's backup in a configuration directory.
pub fn backup_in(dir: &str) -> (r: String)
    ensures
        r@ == backup_path(dir@),
{
    let mut path = catalog_in(dir);
    path.append(".old");
    path
}

impl Layout {
    /// The paths of the engine's files, given the directory in which the
    /// system keeps configuration.
    pub fn under(root: &str) -> (r: Layout)
        ensures
            r@ == layout_spec(root@),
    {
        let dir = join(root, "one-pkg");
        let catalog = catalog_in(dir.as_str());
        let backup = backup_in(dir.as_str());
        let ledger = join(dir.as_str(), "installed.json");
        let apps = join(dir.as_str(), "appimages");
        let sources = join(dir.as_str(), "sources");
        Layout { dir, catalog, backup, ledger, apps, sources }
    }
}

/// The paths of the engine's files, given the directory in which the system
/// keeps configuration, if it has one.
pub fn layout_from(root: Option<String>) -> (r: Result<Layout, EngineError>)
    ensures
        match r {
            Ok(layout) => locate_spec(root_view(root)) == Ok::<LayoutView, ErrorView>(
                layout@,
            ),
            Err(e) => locate_spec(root_view(root)) == Err::<LayoutView, ErrorView>(e@),
        },
{
    match root {
        Some(root) => Ok(Layout::under(root.as_str())),
        None => Err(EngineError::ConfigDirUnavailable),
    }
}

/// Calls `dirs::config_dir`. What comes back depends on the system and on
/// how the user has set it up, so nothing is said of it. A path that is not
/// Unicode counts as none.
#[verifier::external_body]
fn config_root() -> Option<String> {
    dirs::config_dir().and_then(|path| path.to_str().map(|text| text.to_owned()))
}

/// The paths of the engine's files on this system: those that
/// [`layout_from`] gives for the directory in which the system keeps
/// configuration, whichever that is.
pub fn locate() -> (r: Result<Layout, EngineError>)
    ensures
        exists|root: Option<Seq<char>>|
            match r {
                Ok(layout) => #[trigger] locate_spec(root) == Ok::<LayoutView, ErrorView>(layout@),
                Err(e) => locate_spec(root) == Err::<LayoutView, ErrorView>(e@),
            },
{
    let root = config_root();
    let r = layout_from(root);
    r
}

} // verus!
