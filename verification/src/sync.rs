//! The catalog synchronizer: the protocol by which the catalog is replaced
//! with a fresh copy. The catalog that is there is first moved to its
//! backup; then the new one is fetched, and read to see that it is sound.
//! An unsound catalog stays where it is, beside the backup: putting the
//! backup in its place again is left to the caller.

use crate::catalog::Catalog;
use crate::document::{load_catalog, load_spec};
use crate::error::{EngineError, ErrorView};
use crate::layout::{backup_in, backup_path, catalog_in, catalog_path};
use crate::package::PackageView;
use crate::text::copy_text;
use vstd::prelude::*;

verus! {

/// How far a synchronization has come.
#[derive(Clone, Copy, Debug, PartialEq, Eq, Structural)]
pub enum SyncState {
    /// Nothing has been done yet.
    Absent,
    /// The configuration directory is there.
    Ready,
    /// The catalog that was there, if any, is now the backup.
    BackedUp,
    /// The new catalog has been fetched.
    Fetched,
    /// The new catalog is sound. The synchronization has ended.
    Verified,
    /// The new catalog is not sound. The synchronization has ended.
    Invalid,
    /// A step failed. The synchronization has ended.
    Aborted,
}

impl SyncState {
    /// The position of a state in the order in which states are passed.
    pub open spec fn rank(self) -> int {
        match self {
            SyncState::Absent => 0,
            SyncState::Ready => 1,
            SyncState::BackedUp => 2,
            SyncState::Fetched => 3,
            SyncState::Verified => 4,
            SyncState::Invalid => 4,
            SyncState::Aborted => 4,
        }
    }
}

/// What the caller reports back to the synchronizer.
#[derive(Debug, PartialEq, Eq)]
pub enum Report {
    /// The status with which the requested work ended; zero is success.
    Status(i32),
    /// The file that was to be moved is not there.
    Missing,
    /// The text of the file that was to be read.
    Document(String),
}

/// A [`Report`] with its text as a sequence of characters.
pub enum ReportView {
    Status(i32),
    Missing,
    Document(Seq<char>),
}

impl View for Report {
    type V = ReportView;

    open spec fn view(&self) -> ReportView {
        match *self {
            Report::Status(status) => ReportView::Status(status),
            Report::Missing => ReportView::Missing,
            Report::Document(text) => ReportView::Document(text@),
        }
    }
}

/// What the synchronizer asks its caller to do.
#[derive(Debug, PartialEq, Eq)]
pub enum SyncAction {
    /// Create the directory if it is not there, and report the status.
    EnsureDirectory { path: String },
    /// Move the file `from` to `to`, over whatever is there, and report the
    /// status, or that `from` is not there.
    Backup { from: String, to: String },
    /// Download what the link points to into the target file, and report the
    /// status.
    Fetch { link: String, target: String },
    /// Read the file and report its text, or the status with which reading
    /// failed.
    Verify { path: String },
    /// Nothing is left to do: the synchronization has ended in this way.
    Finish { outcome: Result<(), EngineError> },
}

/// A [`SyncAction`] with its texts as sequences of characters.
pub enum SyncActionView {
    EnsureDirectory { path: Seq<char> },
    Backup { from: Seq<char>, to: Seq<char> },
    Fetch { link: Seq<char>, target: Seq<char> },
    Verify { path: Seq<char> },
    Finish { outcome: Result<(), ErrorView> },
}

impl View for SyncAction {
    type V = SyncActionView;

    open spec fn view(&self) -> SyncActionView {
        match *self {
            SyncAction::EnsureDirectory { path } => SyncActionView::EnsureDirectory { path: path@ },
            SyncAction::Backup { from, to } => SyncActionView::Backup { from: from@, to: to@ },
            SyncAction::Fetch { link, target } => SyncActionView::Fetch {
                link: link@,
                target: target@,
            },
            SyncAction::Verify { path } => SyncActionView::Verify { path: path@ },
            SyncAction::Finish { outcome } => SyncActionView::Finish {
                outcome: crate::error::result_view(outcome),
            },
        }
    }
}

impl SyncActionView {
    /// The file or directory that carrying out the action may change, if
    /// any.
    pub open spec fn written(self) -> Option<Seq<char>> {
        match self {
            SyncActionView::EnsureDirectory { path } => Some(path),
            SyncActionView::Backup { from, to } => Some(to),
            SyncActionView::Fetch { link, target } => Some(target),
            SyncActionView::Verify { path } => None,
            SyncActionView::Finish { outcome } => None,
        }
    }
}

/// A synchronization, with its texts as sequences of characters.
pub struct SyncView {
    /// The configuration directory.
    pub dir: Seq<char>,
    /// Where the catalog is fetched from.
    pub link: Seq<char>,
    pub state: SyncState,
    /// Why the synchronization ended as invalid or aborted.
    pub fault: Option<ErrorView>,
}

/// Where the catalog is fetched from.
pub open spec fn catalog_link() -> Seq<char> {
    "https://raw.githubusercontent.com/blueOkiris/one-pkg/blueOkiris/install/pkg-ls.json"@
}

impl SyncView {
    /// Whether the synchronization has ended.
    pub open spec fn finished(self) -> bool {
        self.state.rank() == 4
    }

    /// The synchronization ended by the failure of a step.
    pub open spec fn aborted(self, error: ErrorView) -> SyncView {
        SyncView { state: SyncState::Aborted, fault: Some(error), ..self }
    }

    /// The synchronization in another state.
    pub open spec fn at(self, state: SyncState) -> SyncView {
        SyncView { state, ..self }
    }

    /// The synchronization after the fetched catalog has been read: it
    /// ends as verified where the catalog is sound, and as invalid, with the
    /// failure to parse it, where it is not. Before the catalog has been
    /// fetched, and after the end, nothing changes.
    pub open spec fn settled(self, loaded: Result<Seq<PackageView>, ErrorView>) -> SyncView {
        if self.state is Fetched {
            match loaded {
                Ok(_) => self.at(SyncState::Verified),
                Err(e) => SyncView { state: SyncState::Invalid, fault: Some(e), ..self },
            }
        } else {
            self
        }
    }

    /// What holds of every synchronization: it keeps a failure exactly when
    /// it has ended as invalid or aborted.
    pub open spec fn inv(self) -> bool {
        self.fault is Some <==> (self.state is Invalid || self.state is Aborted)
    }
}

/// The synchronization that has not begun.
pub open spec fn sync_start(dir: Seq<char>) -> SyncView {
    SyncView { dir, link: catalog_link(), state: SyncState::Absent, fault: None }
}

/// What the synchronizer asks its caller to do next.
pub open spec fn sync_pending(s: SyncView) -> SyncActionView {
    match s.state {
        SyncState::Absent => SyncActionView::EnsureDirectory { path: s.dir },
        SyncState::Ready => SyncActionView::Backup {
            from: catalog_path(s.dir),
            to: backup_path(s.dir),
        },
        SyncState::BackedUp => SyncActionView::Fetch {
            link: s.link,
            target: catalog_path(s.dir),
        },
        SyncState::Fetched => SyncActionView::Verify { path: catalog_path(s.dir) },
        _ => SyncActionView::Finish {
            outcome: match s.fault {
                Some(e) => Err(e),
                None => Ok(()),
            },
        },
    }
}

/// The synchronization after the caller has reported how the pending
/// action went. A report that is no answer to the pending action changes
/// nothing.
pub open spec fn sync_step(s: SyncView, report: ReportView) -> SyncView {
    match (s.state, report) {
        (SyncState::Absent, ReportView::Status(status)) => if status == 0 {
            s.at(SyncState::Ready)
        } else {
            s.aborted(ErrorView::IoFailure { status })
        },
        (SyncState::Ready, ReportView::Status(status)) => if status == 0 {
            s.at(SyncState::BackedUp)
        } else {
            s.aborted(ErrorView::IoFailure { status })
        },
        (SyncState::Ready, ReportView::Missing) => s.at(SyncState::BackedUp),
        (SyncState::BackedUp, ReportView::Status(status)) => if status == 0 {
            s.at(SyncState::Fetched)
        } else {
            s.aborted(ErrorView::NetworkFailure { status })
        },
        (SyncState::Fetched, ReportView::Status(status)) => if status == 0 {
            s
        } else {
            s.aborted(ErrorView::IoFailure { status })
        },
        (SyncState::Fetched, ReportView::Document(text)) => s.settled(load_spec(text)),
        _ => s,
    }
}

/// Every step keeps what holds of a synchronization, leaves its paths as
/// they are, and never leads back: the states are passed in their order,
/// and a synchronization that has ended stays as it is.
pub proof fn lemma_sync_step(s: SyncView, report: ReportView)
    requires
        s.inv(),
    ensures
        sync_step(s, report).inv(),
        sync_step(s, report).dir == s.dir,
        sync_step(s, report).link == s.link,
        sync_step(s, report).state.rank() >= s.state.rank(),
        s.finished() ==> sync_step(s, report) == s,
{
}

/// The catalog is fetched only after the backup step: a synchronization
/// comes to fetch by no other way than from the state in which it asked for
/// the backup, on the report that the catalog was moved or was not there.
pub proof fn lemma_backup_first(s: SyncView, report: ReportView)
    requires
        sync_step(s, report).state is BackedUp,
        !(s.state is BackedUp),
    ensures
        s.state is Ready,
        sync_pending(s) == (SyncActionView::Backup {
            from: catalog_path(s.dir),
            to: backup_path(s.dir),
        }),
        report == ReportView::Status(0) || report == ReportView::Missing,
{
}

/// Once the backup step is over, nothing that the synchronizer asks for
/// changes the backup: not the fetch, not the reading, and not the end,
/// whether the new catalog proves sound or not.
pub proof fn lemma_backup_kept(s: SyncView)
    requires
        s.state.rank() >= 2,
    ensures
        sync_pending(s).written() != Some(backup_path(s.dir)),
{
    reveal_strlit(".old");
}

/// A synchronization of the catalog in progress.
pub struct Synchronizer {
    dir: String,
    link: String,
    state: SyncState,
    fault: Option<EngineError>,
}

impl View for Synchronizer {
    type V = SyncView;

    closed spec fn view(&self) -> SyncView {
        SyncView {
            dir: self.dir@,
            link: self.link@,
            state: self.state,
            fault: match self.fault {
                Some(e) => Some(e@),
                None => None,
            },
        }
    }
}

/// What a reading of the catalog gave, without the catalog's exec form.
pub open spec fn loaded_view(loaded: Result<Catalog, EngineError>) -> Result<
    Seq<PackageView>,
    ErrorView,
> {
    match loaded {
        Ok(catalog) => Ok(catalog@),
        Err(e) => Err(e@),
    }
}

/// Begins a synchronization of the catalog in a configuration directory.
pub fn update_repo(dir: &str) -> (r: Synchronizer)
    ensures
        r@ == sync_start(dir@),
{
    Synchronizer {
        dir: copy_text(dir),
        link: copy_text(
            "https://raw.githubusercontent.com/blueOkiris/one-pkg/blueOkiris/install/pkg-ls.json",
        ),
        state: SyncState::Absent,
        fault: None,
    }
}

impl Synchronizer {
    #[verifier::type_invariant]
    spec fn sound(self) -> bool {
        self@.inv()
    }

    /// Does nothing when run; to a verified caller it shows what holds of
    /// every synchronization: see [`SyncView::inv`].
    pub fn reached(&self)
        ensures
            self@.inv(),
    {
        proof {
            use_type_invariant(self);
        }
    }

    /// How far the synchronization has come.
    pub fn state(&self) -> (r: SyncState)
        ensures
            r == self@.state,
    {
        self.state
    }

    /// Whether the synchronization has ended.
    pub fn finished(&self) -> (r: bool)
        ensures
            r == self@.finished(),
    {
        match self.state {
            SyncState::Verified => true,
            SyncState::Invalid => true,
            SyncState::Aborted => true,
            _ => false,
        }
    }

    /// What the synchronizer asks its caller to do next.
    pub fn pending(&self) -> (r: SyncAction)
        ensures
            r@ == sync_pending(self@),
    {
        match self.state {
            SyncState::Absent => SyncAction::EnsureDirectory { path: self.dir.clone() },
            SyncState::Ready => SyncAction::Backup {
                from: catalog_in(self.dir.as_str()),
                to: backup_in(self.dir.as_str()),
            },
            SyncState::BackedUp => SyncAction::Fetch {
                link: self.link.clone(),
                target: catalog_in(self.dir.as_str()),
            },
            SyncState::Fetched => SyncAction::Verify { path: catalog_in(self.dir.as_str()) },
            _ => SyncAction::Finish {
                outcome: match &self.fault {
                    Some(e) => Err(e.clone()),
                    None => Ok(()),
                },
            },
        }
    }

    fn at(self, state: SyncState) -> (r: Synchronizer)
        requires
            !(state is Invalid),
            !(state is Aborted),
            self.fault is None,
        ensures
            r@ == self@.at(state),
    {
        Synchronizer { dir: self.dir, link: self.link, state, fault: None }
    }

    fn aborted(self, error: EngineError) -> (r: Synchronizer)
        ensures
            r@ == self@.aborted(error@),
    {
        Synchronizer {
            dir: self.dir,
            link: self.link,
            state: SyncState::Aborted,
            fault: Some(error),
        }
    }

    /// The synchronization after the fetched catalog has been read, given
    /// what the reading gave.
    pub fn settled(self, loaded: Result<Catalog, EngineError>) -> (r: Synchronizer)
        ensures
            r@ == self@.settled(loaded_view(loaded)),
    {
        proof {
            use_type_invariant(&self);
        }
        match self.state {
            SyncState::Fetched => match loaded {
                Ok(_) => self.at(SyncState::Verified),
                Err(e) => Synchronizer {
                    dir: self.dir,
                    link: self.link,
                    state: SyncState::Invalid,
                    fault: Some(e),
                },
            },
            _ => self,
        }
    }

    /// The synchronization after the caller has reported how the pending
    /// action went.
    pub fn advance(self, report: Report) -> (r: Synchronizer)
        ensures
            r@ == sync_step(self@, report@),
    {
        proof {
            use_type_invariant(&self);
        }
        match (self.state, report) {
            (SyncState::Absent, Report::Status(status)) => if status == 0 {
                self.at(SyncState::Ready)
            } else {
                self.aborted(EngineError::IoFailure { status })
            },
            (SyncState::Ready, Report::Status(status)) => if status == 0 {
                self.at(SyncState::BackedUp)
            } else {
                self.aborted(EngineError::IoFailure { status })
            },
            (SyncState::Ready, Report::Missing) => self.at(SyncState::BackedUp),
            (SyncState::BackedUp, Report::Status(status)) => if status == 0 {
                self.at(SyncState::Fetched)
            } else {
                self.aborted(EngineError::NetworkFailure { status })
            },
            (SyncState::Fetched, Report::Status(status)) => if status == 0 {
                self
            } else {
                self.aborted(EngineError::IoFailure { status })
            },
            (SyncState::Fetched, Report::Document(text)) => {
                let loaded = load_catalog(text.as_str());
                self.settled(loaded)
            },
            _ => self,
        }
    }
}

} // verus!
