//! The install and uninstall protocol as a state machine.
//!
//! A session holds the catalog, the ledger and a stack of frames, one for
//! each package that is being worked on: the package that was asked for at
//! the bottom, above it the dependencies that have to be installed first.
//! What the engine wants done next is a function of the session alone
//! ([`pending`]); what happens when the outcome is reported is a function of
//! the session and the report ([`step`]). This file defines both, and proves
//! what holds of every session that these functions can reach.

use crate::catalog::lookup;
use crate::error::ErrorView;
use crate::format::Format;
use crate::package::PackageView;
use crate::text::join_spec;
use vstd::prelude::*;

verus! {

/// What a frame is waiting for.
#[derive(Clone, Copy, Debug, PartialEq, Eq, Structural)]
pub enum Phase {
    /// A backend has to be chosen among those on offer.
    Choosing,
    /// A system package manager installs the package.
    Invoking { method: Format },
    /// The AppImage is downloaded.
    Fetching,
    /// The downloaded AppImage is made executable.
    Marking,
    /// The dependency at position `next` is installed, in the frame above.
    Depending { next: usize },
    /// The repository is cloned.
    Cloning,
    /// The build step at position `step`, counted from zero, runs.
    Building { step: usize },
    /// A system package manager removes the package.
    Removing { method: Format },
    /// The AppImage is deleted.
    Deleting,
    /// The uninstall step at position `step`, counted from zero, runs.
    Dismantling { step: usize },
}

/// One package that a session works on: its position in the catalog, and
/// what is awaited for it.
#[derive(Clone, Copy, Debug, PartialEq, Eq, Structural)]
pub struct Frame {
    pub entry: usize,
    pub phase: Phase,
}

/// What the caller reports back to the engine.
#[derive(Clone, Copy, Debug, PartialEq, Eq, Structural)]
pub enum Event {
    /// The position, counted from zero, that was selected among the
    /// backends on offer.
    Selected(usize),
    /// The status with which the requested work ended; zero is success.
    Status(i32),
    /// The file that was to be deleted is not there.
    Absent,
}

/// What the engine asks its caller to do, with texts as sequences of
/// characters.
pub enum ActionView {
    Choose { package: Seq<char>, options: Seq<Format> },
    Backend { method: Format, removal: bool, token: Seq<char> },
    Fetch { link: Seq<char>, target: Seq<char> },
    MarkExecutable { target: Seq<char> },
    Delete { target: Seq<char> },
    CloneRepository { repo: Seq<char>, target: Seq<char> },
    Step { command: Seq<char>, directory: Seq<char> },
    Finish { outcome: Result<(), ErrorView> },
}

/// A session, with texts as sequences of characters and the ledger as a map
/// from names to backends.
pub struct SessionView {
    pub catalog: Seq<PackageView>,
    pub ledger: Map<Seq<char>, Format>,
    /// The directory that holds the AppImages.
    pub apps: Seq<char>,
    /// The directory that holds the cloned repositories.
    pub sources: Seq<char>,
    pub stack: Seq<Frame>,
    /// How the session ended, once it has.
    pub outcome: Option<Result<(), ErrorView>>,
}

/// The first position, from `from` on, of a dependency that the ledger does
/// not hold; the length of the list where it holds them all.
pub open spec fn first_missing(
    deps: Seq<Seq<char>>,
    ledger: Map<Seq<char>, Format>,
    from: int,
) -> int
    decreases deps.len() - from,
{
    if from < 0 || from >= deps.len() {
        deps.len() as int
    } else if !ledger.contains_key(deps[from]) {
        from
    } else {
        first_missing(deps, ledger, from + 1)
    }
}

/// What [`first_missing`] finds: every dependency between the start and the
/// position found is held, and the one at the position found is not.
pub proof fn lemma_first_missing(deps: Seq<Seq<char>>, ledger: Map<Seq<char>, Format>, from: int)
    requires
        0 <= from <= deps.len(),
    ensures
        from <= first_missing(deps, ledger, from) <= deps.len(),
        forall|d: int|
            from <= d < first_missing(deps, ledger, from) ==> ledger.contains_key(
                #[trigger] deps[d],
            ),
        first_missing(deps, ledger, from) < deps.len() ==> !ledger.contains_key(
            deps[first_missing(deps, ledger, from)],
        ),
    decreases deps.len() - from,
{
    if from < deps.len() && ledger.contains_key(deps[from]) {
        lemma_first_missing(deps, ledger, from + 1);
    }
}

/// Whether the lists of a catalog can be counted by a machine word.
pub open spec fn bounded(catalog: Seq<PackageView>) -> bool {
    &&& catalog.len() <= usize::MAX
    &&& forall|i: int|
        0 <= i < catalog.len() ==> {
            &&& (#[trigger] catalog[i]).install.github.steps.len() <= usize::MAX
            &&& catalog[i].install.github.uninstall_steps.len() <= usize::MAX
            &&& catalog[i].install.github.deps.len() <= usize::MAX
        }
}

impl SessionView {
    /// Whether every frame stands for an entry of the catalog.
    pub open spec fn in_range(self) -> bool {
        forall|i: int| 0 <= i < self.stack.len() ==> (#[trigger] self.stack[i]).entry < self.catalog.len()
    }

    /// The frame that is worked on.
    pub open spec fn top(self) -> Frame {
        self.stack.last()
    }

    /// The catalog entry of the frame that is worked on.
    pub open spec fn entry(self) -> PackageView {
        self.catalog[self.top().entry as int]
    }

    /// The name of the package of a frame.
    pub open spec fn frame_name(self, i: int) -> Seq<char> {
        self.catalog[self.stack[i].entry as int].name
    }

    /// Whether a package of this name is being worked on.
    pub open spec fn on_stack(self, name: Seq<char>) -> bool {
        exists|i: int| 0 <= i < self.stack.len() && self.frame_name(i) == name
    }

    /// Where the AppImage of the current package is kept.
    pub open spec fn image_path(self) -> Seq<char> {
        join_spec(self.apps, self.entry().install.appimage.name)
    }

    /// Where the repository of the current package is cloned to.
    pub open spec fn source_path(self) -> Seq<char> {
        join_spec(self.sources, self.entry().name)
    }

    /// The session with the current frame in another phase.
    pub open spec fn with_phase(self, phase: Phase) -> SessionView {
        SessionView {
            stack: self.stack.update(
                self.stack.len() - 1,
                Frame { entry: self.top().entry, phase },
            ),
            ..self
        }
    }

    /// The session ended by a failure. The failure of a dependency is
    /// reported as such, under the name of the dependency that the package
    /// asked for names itself.
    pub open spec fn failed(self, error: ErrorView) -> SessionView {
        SessionView {
            stack: Seq::empty(),
            outcome: Some(
                Err(
                    if self.stack.len() > 1 {
                        ErrorView::DependencyFailure { dependency: self.frame_name(1) }
                    } else {
                        error
                    },
                ),
            ),
            ..self
        }
    }

    /// The session after the dependencies of the current package have been
    /// seen to from position `from` on: the first one that is not installed
    /// gets a frame of its own; where all are installed, the repository is
    /// cloned. A dependency that the catalog does not know, that offers no
    /// backend, or that is itself waiting for this package, ends the
    /// session.
    pub open spec fn depend_from(self, from: int) -> SessionView {
        let deps = self.entry().install.github.deps;
        let at = first_missing(deps, self.ledger, from);
        if at >= deps.len() {
            self.with_phase(Phase::Cloning)
        } else {
            match lookup(self.catalog, deps[at]) {
                Some(i) => if !self.on_stack(deps[at]) && self.catalog[i].resolvable() {
                    SessionView {
                        stack: self.with_phase(Phase::Depending { next: at as usize }).stack.push(
                            Frame { entry: i as usize, phase: Phase::Choosing },
                        ),
                        ..self
                    }
                } else {
                    self.failed(ErrorView::DependencyFailure { dependency: deps[at] })
                },
                None => self.failed(ErrorView::DependencyFailure { dependency: deps[at] }),
            }
        }
    }

    /// The session after the current package has been installed by a
    /// backend: the ledger records it, its frame is gone, and the package
    /// that waited for it goes on with its dependencies.
    pub open spec fn completed(self, method: Format) -> SessionView {
        let ledger = self.ledger.insert(self.entry().name, method);
        let rest = self.stack.drop_last();
        if rest.len() == 0 {
            SessionView { ledger, stack: rest, outcome: Some(Ok(())), ..self }
        } else {
            let parent = SessionView { ledger, stack: rest, ..self };
            match rest.last().phase {
                Phase::Depending { next } => parent.depend_from(next as int),
                _ => parent,
            }
        }
    }

    /// The session after the current package has been uninstalled: the
    /// ledger no longer records it.
    pub open spec fn dropped(self) -> SessionView {
        SessionView {
            ledger: self.ledger.remove(self.entry().name),
            stack: Seq::empty(),
            outcome: Some(Ok(())),
            ..self
        }
    }

    /// The session about to run the build step at position `at`, or, past
    /// the last step, with the package installed.
    pub open spec fn build_from(self, at: int) -> SessionView {
        if at < self.entry().install.github.steps.len() {
            self.with_phase(Phase::Building { step: at as usize })
        } else {
            self.completed(Format::GitHub)
        }
    }

    /// The session about to run the uninstall step at position `at`, or,
    /// past the last step, with the package uninstalled.
    pub open spec fn dismantle_from(self, at: int) -> SessionView {
        if at < self.entry().install.github.uninstall_steps.len() {
            self.with_phase(Phase::Dismantling { step: at as usize })
        } else {
            self.dropped()
        }
    }

    /// The session after a backend has been selected for the current
    /// package.
    pub open spec fn started(self, method: Format) -> SessionView {
        match method {
            Format::AppImage => self.with_phase(Phase::Fetching),
            Format::GitHub => self.depend_from(0),
            _ => self.with_phase(Phase::Invoking { method }),
        }
    }

    /// Whether the session has ended.
    pub open spec fn finished(self) -> bool {
        self.outcome is Some
    }
}

/// The session in which a package is to be installed. A package that the
/// ledger holds already is installed: the session has ended at once, in
/// success. A name that the catalog does not know, and an entry that offers
/// no backend, end it in failure.
pub open spec fn install_spec(
    catalog: Seq<PackageView>,
    ledger: Map<Seq<char>, Format>,
    apps: Seq<char>,
    sources: Seq<char>,
    name: Seq<char>,
) -> SessionView {
    let idle = SessionView { catalog, ledger, apps, sources, stack: Seq::empty(), outcome: None };
    if ledger.contains_key(name) {
        SessionView { outcome: Some(Ok(())), ..idle }
    } else {
        match lookup(catalog, name) {
            None => SessionView {
                outcome: Some(Err(ErrorView::PackageNotFound { name })),
                ..idle
            },
            Some(i) => if catalog[i].resolvable() {
                SessionView {
                    stack: seq![Frame { entry: i as usize, phase: Phase::Choosing }],
                    ..idle
                }
            } else {
                SessionView {
                    outcome: Some(Err(ErrorView::NoInstallCandidate { name })),
                    ..idle
                }
            },
        }
    }
}

/// The session in which a package is to be uninstalled. A package that the
/// ledger does not hold is not installed: the session has ended at once, in
/// success. A source build without uninstall steps is dropped from the
/// ledger at once, too.
pub open spec fn uninstall_spec(
    catalog: Seq<PackageView>,
    ledger: Map<Seq<char>, Format>,
    apps: Seq<char>,
    sources: Seq<char>,
    name: Seq<char>,
) -> SessionView {
    let idle = SessionView { catalog, ledger, apps, sources, stack: Seq::empty(), outcome: None };
    if !ledger.contains_key(name) {
        SessionView { outcome: Some(Ok(())), ..idle }
    } else {
        match lookup(catalog, name) {
            None => SessionView {
                outcome: Some(Err(ErrorView::PackageNotFound { name })),
                ..idle
            },
            Some(i) => {
                let method = ledger[name];
                let begun = SessionView {
                    stack: seq![Frame { entry: i as usize, phase: Phase::Deleting }],
                    ..idle
                };
                match method {
                    Format::AppImage => begun,
                    Format::GitHub => begun.dismantle_from(0),
                    _ => if catalog[i].offers(method) {
                        begun.with_phase(Phase::Removing { method })
                    } else {
                        SessionView {
                            outcome: Some(Err(ErrorView::NoInstallCandidate { name })),
                            ..idle
                        }
                    },
                }
            },
        }
    }
}

/// What the engine asks its caller to do next. It is decided by the phase
/// of the topmost frame. A frame that waits for a dependency is never the
/// topmost one in a session that the protocol can reach; were it so, the
/// selection for its package would be asked for again.
pub open spec fn pending(s: SessionView) -> ActionView {
    match s.outcome {
        Some(outcome) => ActionView::Finish { outcome },
        None => match s.top().phase {
            Phase::Choosing => ActionView::Choose {
                package: s.entry().name,
                options: s.entry().formats(),
            },
            Phase::Invoking { method } => ActionView::Backend {
                method,
                removal: false,
                token: s.entry().token(method),
            },
            Phase::Fetching => ActionView::Fetch {
                link: s.entry().install.appimage.link,
                target: s.image_path(),
            },
            Phase::Marking => ActionView::MarkExecutable { target: s.image_path() },
            Phase::Depending { next } => ActionView::Choose {
                package: s.entry().name,
                options: s.entry().formats(),
            },
            Phase::Cloning => ActionView::CloneRepository {
                repo: s.entry().install.github.repo,
                target: s.source_path(),
            },
            Phase::Building { step } => ActionView::Step {
                command: s.entry().install.github.steps[step as int],
                directory: s.source_path(),
            },
            Phase::Removing { method } => ActionView::Backend {
                method,
                removal: true,
                token: s.entry().token(method),
            },
            Phase::Deleting => ActionView::Delete { target: s.image_path() },
            Phase::Dismantling { step } => ActionView::Step {
                command: s.entry().install.github.uninstall_steps[step as int],
                directory: s.source_path(),
            },
        },
    }
}

/// The session after the caller has reported an event. A session that has
/// ended stays as it is, and so does one to which the event is no answer to
/// what it asked for.
pub open spec fn step(s: SessionView, event: Event) -> SessionView {
    if s.outcome is Some || s.stack.len() == 0 {
        s
    } else {
        match (s.top().phase, event) {
            (Phase::Choosing, Event::Selected(choice)) => if choice < s.entry().formats().len() {
                s.started(s.entry().formats()[choice as int])
            } else {
                s.failed(ErrorView::AmbiguousOrInvalidSelection)
            },
            (Phase::Invoking { method }, Event::Status(status)) => if status == 0 {
                s.completed(method)
            } else {
                s.failed(
                    ErrorView::BackendExecutionFailure { tool: method.tool_spec(), status },
                )
            },
            (Phase::Fetching, Event::Status(status)) => if status == 0 {
                s.with_phase(Phase::Marking)
            } else {
                s.failed(ErrorView::NetworkFailure { status })
            },
            (Phase::Marking, Event::Status(status)) => if status == 0 {
                s.completed(Format::AppImage)
            } else {
                s.failed(ErrorView::IoFailure { status })
            },
            (Phase::Cloning, Event::Status(status)) => if status == 0 {
                s.build_from(0)
            } else {
                s.failed(ErrorView::NetworkFailure { status })
            },
            (Phase::Building { step }, Event::Status(status)) => if status == 0 {
                s.build_from(step + 1)
            } else {
                s.failed(ErrorView::BuildStepFailure { step: (step + 1) as usize, status })
            },
            (Phase::Removing { method }, Event::Status(status)) => if status == 0 {
                s.dropped()
            } else {
                s.failed(
                    ErrorView::BackendExecutionFailure { tool: method.tool_spec(), status },
                )
            },
            (Phase::Deleting, Event::Status(status)) => if status == 0 {
                s.dropped()
            } else {
                s.failed(ErrorView::IoFailure { status })
            },
            (Phase::Deleting, Event::Absent) => s.dropped(),
            (Phase::Dismantling { step }, Event::Status(status)) => if status == 0 {
                s.dismantle_from(step + 1)
            } else {
                s.failed(ErrorView::BuildStepFailure { step: (step + 1) as usize, status })
            },
            _ => s,
        }
    }
}

} // verus!
