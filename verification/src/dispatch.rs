//! The backend dispatcher: sessions that install or uninstall a package,
//! one step at a time.
//!
//! A [`Session`] asks for one thing at a time ([`Session::pending`]) and is
//! told how that went ([`Session::advance`]). Its caller does the work: it
//! asks for a selection, runs the package manager, fetches, clones and
//! deletes. The engine decides, and keeps the ledger.

use crate::catalog::{lemma_lookup, Catalog};
use crate::error::{copy_result, outcome_view, EngineError};
use crate::format::Format;
use crate::ledger::Ledger;
use crate::package::Package;
use crate::protocol::{
    bounded, first_missing, install_spec, pending, step, uninstall_spec, ActionView, Event,
    Frame, Phase, SessionView,
};
use crate::reach::{lemma_install_starts, lemma_step, lemma_uninstall_starts};
use crate::text::{copy_text, join, same_text, texts};
use vstd::prelude::*;

verus! {

/// What the engine asks its caller to do.
#[derive(Debug, PartialEq, Eq)]
pub enum Action {
    /// Select one of the backends that offer the package, and report its
    /// position in the list.
    Choose { package: String, options: Vec<Format> },
    /// Have a system package manager install the package that the token
    /// names, or remove it, and report the status with which it ended.
    Backend { method: Format, removal: bool, token: String },
    /// Download what the link points to into the target file, and report the
    /// status.
    Fetch { link: String, target: String },
    /// Make the target file executable, and report the status.
    MarkExecutable { target: String },
    /// Delete the target file, and report the status, or that the file was
    /// not there.
    Delete { target: String },
    /// Clone the repository into the target directory, and report the
    /// status.
    CloneRepository { repo: String, target: String },
    /// Run the command in the directory, and report the status.
    Step { command: String, directory: String },
    /// Nothing is left to do: the session has ended in this way.
    Finish { outcome: Result<(), EngineError> },
}

impl View for Action {
    type V = ActionView;

    open spec fn view(&self) -> ActionView {
        match *self {
            Action::Choose { package, options } => ActionView::Choose {
                package: package@,
                options: options@,
            },
            Action::Backend { method, removal, token } => ActionView::Backend {
                method,
                removal,
                token: token@,
            },
            Action::Fetch { link, target } => ActionView::Fetch { link: link@, target: target@ },
            Action::MarkExecutable { target } => ActionView::MarkExecutable { target: target@ },
            Action::Delete { target } => ActionView::Delete { target: target@ },
            Action::CloneRepository { repo, target } => ActionView::CloneRepository {
                repo: repo@,
                target: target@,
            },
            Action::Step { command, directory } => ActionView::Step {
                command: command@,
                directory: directory@,
            },
            Action::Finish { outcome } => ActionView::Finish {
                outcome: crate::error::result_view(outcome),
            },
        }
    }
}

/// The lists of a catalog in memory can be counted by a machine word.
pub proof fn lemma_bounded(catalog: &Catalog)
    ensures
        bounded(catalog@),
{
    assert forall|i: int| 0 <= i < catalog@.len() implies {
        &&& (#[trigger] catalog@[i]).install.github.steps.len() <= usize::MAX
        &&& catalog@[i].install.github.uninstall_steps.len() <= usize::MAX
        &&& catalog@[i].install.github.deps.len() <= usize::MAX
    } by {
        let github = catalog.entries[i].install.github;
        assert(github@.steps.len() == github.steps.len());
        assert(github@.uninstall_steps.len() == github.uninstall_steps.len());
        assert(github@.deps.len() == github.deps.len());
    }
    assert(catalog@.len() == catalog.entries.len());
}

/// Whether the frame below the topmost one, where it waits for a
/// dependency, waits for one that its package has.
spec fn resumable(s: SessionView) -> bool {
    s.stack.len() > 1 ==> (s.stack[s.stack.len() - 2].phase matches Phase::Depending { next }
        ==> next <= s.catalog[s.stack[s.stack.len() - 2].entry as int].install.github.deps.len())
}

struct Core {
    catalog: Catalog,
    ledger: Ledger,
    apps: String,
    sources: String,
    stack: Vec<Frame>,
    outcome: Option<Result<(), EngineError>>,
}

impl View for Core {
    type V = SessionView;

    closed spec fn view(&self) -> SessionView {
        SessionView {
            catalog: self.catalog@,
            ledger: self.ledger@,
            apps: self.apps@,
            sources: self.sources@,
            stack: self.stack@,
            outcome: outcome_view(self.outcome),
        }
    }
}

impl Core {
    fn entry(&self) -> (r: &Package)
        requires
            self@.in_range(),
            self.stack.len() > 0,
        ensures
            r@ == self@.entry(),
    {
        let top = self.stack.len() - 1;
        &self.catalog.entries[self.stack[top].entry]
    }

    fn with_phase(self, phase: Phase) -> (r: Core)
        requires
            self.stack.len() > 0,
        ensures
            r@ == self@.with_phase(phase),
    {
        let mut core = self;
        let top = core.stack.len() - 1;
        let entry = core.stack[top].entry;
        core.stack.set(top, Frame { entry, phase });
        core
    }

    fn failed(self, error: EngineError) -> (r: Core)
        requires
            self@.in_range(),
        ensures
            r@ == self@.failed(error@),
    {
        let mut core = self;
        let reported = if core.stack.len() > 1 {
            EngineError::DependencyFailure {
                dependency: core.catalog.entries[core.stack[1].entry].name.clone(),
            }
        } else {
            error
        };
        core.stack = Vec::new();
        core.outcome = Some(Err(reported));
        core
    }

    fn on_stack(&self, name: &str) -> (r: bool)
        requires
            self@.in_range(),
        ensures
            r == self@.on_stack(name@),
    {
        let mut i: usize = 0;
        while i < self.stack.len()
            invariant
                i <= self.stack.len(),
                self@.in_range(),
                forall|k: int| 0 <= k < i ==> self@.frame_name(k) != name@,
            decreases self.stack.len() - i,
        {
            if same_text(self.catalog.entries[self.stack[i].entry].name.as_str(), name) {
                assert(self@.frame_name(i as int) == name@);
                return true;
            }
            i = i + 1;
        }
        false
    }

    fn depend_from(self, from: usize) -> (r: Core)
        requires
            self@.in_range(),
            self.stack.len() > 0,
            from <= self@.entry().install.github.deps.len(),
        ensures
            r@ == self@.depend_from(from as int),
    {
        let top = self.stack.len() - 1;
        let deps = &self.catalog.entries[self.stack[top].entry].install.github.deps;
        let ghost names = texts(deps@);
        let mut at: usize = from;
        while at < deps.len() && self.ledger.is_installed(deps[at].as_str()).is_some()
            invariant
                from <= at <= deps.len(),
                names == texts(deps@),
                first_missing(names, self.ledger@, from as int) == first_missing(
                    names,
                    self.ledger@,
                    at as int,
                ),
            decreases deps.len() - at,
        {
            at = at + 1;
        }
        assert(first_missing(names, self.ledger@, at as int) == at);
        if at >= deps.len() {
            self.with_phase(Phase::Cloning)
        } else {
            let dependency = deps[at].clone();
            let found = self.catalog.find(dependency.as_str());
            let waiting = self.on_stack(dependency.as_str());
            match found {
                Some(i) => {
                    proof {
                        lemma_lookup(self@.catalog, dependency@);
                    }
                    let offered = self.catalog.entries[i].formats();
                    if !waiting && offered.len() > 0 {
                        let mut core = self.with_phase(Phase::Depending { next: at });
                        core.stack.push(Frame { entry: i, phase: Phase::Choosing });
                        core
                    } else {
                        self.failed(EngineError::DependencyFailure { dependency })
                    }
                },
                None => self.failed(EngineError::DependencyFailure { dependency }),
            }
        }
    }

    fn completed(self, method: Format) -> (r: Core)
        requires
            self@.in_range(),
            self.stack.len() > 0,
            resumable(self@),
            !self@.ledger.contains_key(self@.entry().name),
        ensures
            r@ == self@.completed(method),
    {
        let mut core = self;
        let name = core.entry().name.clone();
        core.ledger.record_install(name, method);
        core.stack.pop();
        if core.stack.len() == 0 {
            core.outcome = Some(Ok(()));
            core
        } else {
            let parent = core.stack[core.stack.len() - 1];
            assert(core@.in_range());
            match parent.phase {
                Phase::Depending { next } => core.depend_from(next),
                _ => core,
            }
        }
    }

    fn dropped(self) -> (r: Core)
        requires
            self@.in_range(),
            self.stack.len() > 0,
        ensures
            r@ == self@.dropped(),
    {
        let mut core = self;
        let name = core.entry().name.clone();
        core.ledger.record_uninstall(name.as_str());
        core.stack = Vec::new();
        core.outcome = Some(Ok(()));
        core
    }

    fn build_from(self, at: usize) -> (r: Core)
        requires
            self@.in_range(),
            self.stack.len() > 0,
            resumable(self@),
            !self@.ledger.contains_key(self@.entry().name),
        ensures
            r@ == self@.build_from(at as int),
    {
        let steps = self.entry().install.github.steps.len();
        if at < steps {
            self.with_phase(Phase::Building { step: at })
        } else {
            self.completed(Format::GitHub)
        }
    }

    fn dismantle_from(self, at: usize) -> (r: Core)
        requires
            self@.in_range(),
            self.stack.len() > 0,
        ensures
            r@ == self@.dismantle_from(at as int),
    {
        let steps = self.entry().install.github.uninstall_steps.len();
        if at < steps {
            self.with_phase(Phase::Dismantling { step: at })
        } else {
            self.dropped()
        }
    }

    fn started(self, method: Format) -> (r: Core)
        requires
            self@.in_range(),
            self.stack.len() > 0,
        ensures
            r@ == self@.started(method),
    {
        match method {
            Format::AppImage => self.with_phase(Phase::Fetching),
            Format::GitHub => self.depend_from(0),
            _ => self.with_phase(Phase::Invoking { method }),
        }
    }

    fn advance(self, event: Event) -> (r: Core)
        requires
            self@.inv(),
        ensures
            r@ == step(self@, event),
    {
        if self.outcome.is_some() || self.stack.len() == 0 {
            return self;
        }
        let top = self.stack.len() - 1;
        proof {
            assert(self@.frame_ok(top as int));
            assert forall|i: int| 0 <= i < self@.stack.len() implies (#[trigger] self@.stack[i]).entry
                < self@.catalog.len() by {
                assert(self@.frame_ok(i));
            }
            if top > 0 {
                assert(self@.frame_ok(top - 1));
            }
        }
        let phase = self.stack[top].phase;
        match (phase, event) {
            (Phase::Choosing, Event::Selected(choice)) => {
                let offered = self.entry().formats();
                if choice < offered.len() {
                    let method = offered[choice];
                    self.started(method)
                } else {
                    self.failed(EngineError::AmbiguousOrInvalidSelection)
                }
            },
            (Phase::Invoking { method }, Event::Status(status)) => {
                if status == 0 {
                    self.completed(method)
                } else {
                    self.failed(
                        EngineError::BackendExecutionFailure {
                            tool: copy_text(method.tool()),
                            status,
                        },
                    )
                }
            },
            (Phase::Fetching, Event::Status(status)) => {
                if status == 0 {
                    self.with_phase(Phase::Marking)
                } else {
                    self.failed(EngineError::NetworkFailure { status })
                }
            },
            (Phase::Marking, Event::Status(status)) => {
                if status == 0 {
                    self.completed(Format::AppImage)
                } else {
                    self.failed(EngineError::IoFailure { status })
                }
            },
            (Phase::Cloning, Event::Status(status)) => {
                if status == 0 {
                    self.build_from(0)
                } else {
                    self.failed(EngineError::NetworkFailure { status })
                }
            },
            (Phase::Building { step }, Event::Status(status)) => {
                if status == 0 {
                    self.build_from(step + 1)
                } else {
                    self.failed(EngineError::BuildStepFailure { step: step + 1, status })
                }
            },
            (Phase::Removing { method }, Event::Status(status)) => {
                if status == 0 {
                    self.dropped()
                } else {
                    self.failed(
                        EngineError::BackendExecutionFailure {
                            tool: copy_text(method.tool()),
                            status,
                        },
                    )
                }
            },
            (Phase::Deleting, Event::Status(status)) => {
                if status == 0 {
                    self.dropped()
                } else {
                    self.failed(EngineError::IoFailure { status })
                }
            },
            (Phase::Deleting, Event::Absent) => self.dropped(),
            (Phase::Dismantling { step }, Event::Status(status)) => {
                if status == 0 {
                    self.dismantle_from(step + 1)
                } else {
                    self.failed(EngineError::BuildStepFailure { step: step + 1, status })
                }
            },
            _ => self,
        }
    }

    fn pending(&self) -> (r: Action)
        requires
            self@.inv(),
        ensures
            r@ == pending(self@),
    {
        match &self.outcome {
            Some(outcome) => Action::Finish { outcome: copy_result(outcome) },
            None => {
                let top = self.stack.len() - 1;
                proof {
                    assert(self@.frame_ok(top as int));
                    assert forall|i: int| 0 <= i < self@.stack.len() implies (
                    #[trigger] self@.stack[i]).entry < self@.catalog.len() by {
                        assert(self@.frame_ok(i));
                    }
                }
                let entry = self.entry();
                match self.stack[top].phase {
                    Phase::Choosing => Action::Choose {
                        package: entry.name.clone(),
                        options: entry.formats(),
                    },
                    Phase::Invoking { method } => Action::Backend {
                        method,
                        removal: false,
                        token: entry.token(method).clone(),
                    },
                    Phase::Fetching => Action::Fetch {
                        link: entry.install.appimage.link.clone(),
                        target: join(self.apps.as_str(), entry.install.appimage.name.as_str()),
                    },
                    Phase::Marking => Action::MarkExecutable {
                        target: join(self.apps.as_str(), entry.install.appimage.name.as_str()),
                    },
                    Phase::Depending { next } => Action::Choose {
                        package: entry.name.clone(),
                        options: entry.formats(),
                    },
                    Phase::Cloning => Action::CloneRepository {
                        repo: entry.install.github.repo.clone(),
                        target: join(self.sources.as_str(), entry.name.as_str()),
                    },
                    Phase::Building { step } => Action::Step {
                        command: entry.install.github.steps[step].clone(),
                        directory: join(self.sources.as_str(), entry.name.as_str()),
                    },
                    Phase::Removing { method } => Action::Backend {
                        method,
                        removal: true,
                        token: entry.token(method).clone(),
                    },
                    Phase::Deleting => Action::Delete {
                        target: join(self.apps.as_str(), entry.install.appimage.name.as_str()),
                    },
                    Phase::Dismantling { step } => Action::Step {
                        command: entry.install.github.uninstall_steps[step].clone(),
                        directory: join(self.sources.as_str(), entry.name.as_str()),
                    },
                }
            },
        }
    }
}

/// An installation or an uninstallation in progress. Every session is
/// one that the protocol can reach: see [`SessionView::inv`].
pub struct Session {
    core: Core,
}

impl View for Session {
    type V = SessionView;

    closed spec fn view(&self) -> SessionView {
        self.core@
    }
}

impl Session {
    #[verifier::type_invariant]
    spec fn sound(self) -> bool {
        self.core@.inv()
    }

    /// Does nothing when run; to a verified caller it shows what holds of
    /// every session: see [`SessionView::inv`].
    pub fn reached(&self)
        ensures
            self@.inv(),
    {
        proof {
            use_type_invariant(self);
        }
    }

    /// What the engine asks its caller to do next.
    pub fn pending(&self) -> (r: Action)
        ensures
            r@ == pending(self@),
    {
        proof {
            use_type_invariant(self);
        }
        self.core.pending()
    }

    /// The session after the caller has reported how the pending action
    /// went. A session that has ended stays as it is, and so does one to
    /// which the event is no answer to what it asked for.
    pub fn advance(self, event: Event) -> (r: Session)
        ensures
            r@ == step(self@, event),
    {
        proof {
            use_type_invariant(&self);
            lemma_step(self@, event);
        }
        Session { core: self.core.advance(event) }
    }

    /// Whether the session has ended.
    pub fn finished(&self) -> (r: bool)
        ensures
            r == self@.finished(),
    {
        self.core.outcome.is_some()
    }

    /// The ledger as the session has left it so far.
    pub fn ledger(&self) -> (r: &Ledger)
        ensures
            r@ == self@.ledger,
    {
        &self.core.ledger
    }

    /// The catalog that the session works on.
    pub fn catalog(&self) -> (r: &Catalog)
        ensures
            r@ == self@.catalog,
    {
        &self.core.catalog
    }

    /// Gives up the session for its ledger.
    pub fn into_ledger(self) -> (r: Ledger)
        ensures
            r@ == self@.ledger,
    {
        self.core.ledger
    }
}

impl Package {
    /// Begins the installation of the package of a given name. AppImages
    /// are kept in the directory `apps`, cloned repositories in `sources`.
    /// Where the ledger holds the package already, the session has ended in
    /// success and asks for nothing.
    pub fn install(name: &str, catalog: Catalog, ledger: Ledger, apps: &str, sources: &str) -> (r:
        Session)
        ensures
            r@ == install_spec(catalog@, ledger@, apps@, sources@, name@),
    {
        let mut core = Core {
            catalog,
            ledger,
            apps: copy_text(apps),
            sources: copy_text(sources),
            stack: Vec::new(),
            outcome: None,
        };
        if core.ledger.is_installed(name).is_some() {
            core.outcome = Some(Ok(()));
        } else {
            match core.catalog.find(name) {
                None => {
                    core.outcome = Some(Err(EngineError::PackageNotFound { name: copy_text(name) }));
                },
                Some(i) => {
                    proof {
                        lemma_lookup(core@.catalog, name@);
                    }
                    if core.catalog.entries[i].formats().len() > 0 {
                        core.stack.push(Frame { entry: i, phase: Phase::Choosing });
                    } else {
                        core.outcome = Some(
                            Err(EngineError::NoInstallCandidate { name: copy_text(name) }),
                        );
                    }
                },
            }
        }
        proof {
            lemma_bounded(&core.catalog);
            lemma_install_starts(catalog@, ledger@, apps@, sources@, name@);
        }
        Session { core }
    }

    /// Begins the uninstallation of the package of a given name. Where the
    /// ledger does not hold the package, the session has ended in success and
    /// asks for nothing.
    pub fn uninstall(name: &str, catalog: Catalog, ledger: Ledger, apps: &str, sources: &str) -> (r:
        Session)
        ensures
            r@ == uninstall_spec(catalog@, ledger@, apps@, sources@, name@),
    {
        let mut core = Core {
            catalog,
            ledger,
            apps: copy_text(apps),
            sources: copy_text(sources),
            stack: Vec::new(),
            outcome: None,
        };
        proof {
            lemma_bounded(&core.catalog);
            lemma_uninstall_starts(catalog@, ledger@, apps@, sources@, name@);
        }
        let core = match core.ledger.is_installed(name) {
            None => {
                core.outcome = Some(Ok(()));
                core
            },
            Some(method) => match core.catalog.find(name) {
                None => {
                    core.outcome = Some(Err(EngineError::PackageNotFound { name: copy_text(name) }));
                    core
                },
                Some(i) => {
                    proof {
                        lemma_lookup(core@.catalog, name@);
                    }
                    let offered = core.catalog.entries[i].offers(method);
                    core.stack.push(Frame { entry: i, phase: Phase::Deleting });
                    match method {
                        Format::AppImage => core,
                        Format::GitHub => core.dismantle_from(0),
                        _ => if offered {
                            core.with_phase(Phase::Removing { method })
                        } else {
                            core.stack = Vec::new();
                            core.outcome = Some(
                                Err(EngineError::NoInstallCandidate { name: copy_text(name) }),
                            );
                            core
                        },
                    }
                },
            },
        };
        Session { core }
    }
}

} // verus!
