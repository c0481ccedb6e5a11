//! What holds of every session that the protocol can reach, and what
//! follows from it for the ledger.

use crate::catalog::lemma_lookup;
use crate::error::ErrorView;
use crate::format::Format;
use crate::package::{lemma_formats, PackageView};
use crate::protocol::{
    bounded, first_missing, install_spec, lemma_first_missing, pending, step, uninstall_spec,
    ActionView, Event, Phase, SessionView,
};
use vstd::prelude::*;

verus! {

impl SessionView {
    /// Whether the ledger holds the first `below` dependencies of the
    /// package of a frame.
    pub open spec fn deps_held(self, i: int, below: int) -> bool {
        let deps = self.catalog[self.stack[i].entry as int].install.github.deps;
        forall|d: int| 0 <= d < below && d < deps.len() ==> self.ledger.contains_key(#[trigger] deps[d])
    }

    /// Whether a frame installs its package, and the ledger does not hold
    /// that package yet.
    pub open spec fn frame_open(self, i: int) -> bool {
        &&& self.stack[i].entry < self.catalog.len()
        &&& !self.ledger.contains_key(self.frame_name(i))
    }

    /// What holds of a frame, by its phase.
    pub open spec fn frame_ok(self, i: int) -> bool {
        let frame = self.stack[i];
        let github = self.catalog[frame.entry as int].install.github;
        &&& frame.entry < self.catalog.len()
        &&& (frame.phase is Depending <==> i < self.stack.len() - 1)
        &&& match frame.phase {
            Phase::Choosing => self.frame_open(i) && self.catalog[frame.entry as int].resolvable(),
            Phase::Invoking { method } => self.frame_open(i),
            Phase::Fetching => self.frame_open(i),
            Phase::Marking => self.frame_open(i),
            Phase::Depending { next } => {
                &&& self.frame_open(i)
                &&& next < github.deps.len()
                &&& self.deps_held(i, next as int)
            },
            Phase::Cloning => self.frame_open(i) && self.deps_held(i, github.deps.len() as int),
            Phase::Building { step } => {
                &&& self.frame_open(i)
                &&& self.deps_held(i, github.deps.len() as int)
                &&& step < github.steps.len()
            },
            Phase::Removing { method } => self.stack.len() == 1,
            Phase::Deleting => self.stack.len() == 1,
            Phase::Dismantling { step } => {
                &&& self.stack.len() == 1
                &&& step < github.uninstall_steps.len()
            },
        }
    }

    /// Whether no two frames work on a package of the same name.
    pub open spec fn distinct_frames(self) -> bool {
        forall|i: int, j: int|
            0 <= i < j < self.stack.len() ==> self.frame_name(i) != self.frame_name(j)
    }

    /// What holds of every session that the protocol can reach: it has
    /// ended exactly when no frame is left; only the topmost frame is not
    /// waiting for a dependency; no package that is being installed is in
    /// the ledger, and no two frames install the same package; a package
    /// that is cloned or built has all its dependencies in the ledger.
    pub open spec fn inv(self) -> bool {
        &&& bounded(self.catalog)
        &&& (self.outcome is Some <==> self.stack.len() == 0)
        &&& forall|i: int| 0 <= i < self.stack.len() ==> self.frame_ok(i)
        &&& self.distinct_frames()
    }

    /// What holds while the topmost frame is between two phases: the
    /// frames below are in order, and the topmost installs a package that
    /// the ledger does not hold.
    pub open spec fn inv_below(self) -> bool {
        &&& bounded(self.catalog)
        &&& self.outcome is None
        &&& self.stack.len() > 0
        &&& forall|i: int| 0 <= i < self.stack.len() - 1 ==> self.frame_ok(i)
        &&& self.distinct_frames()
        &&& self.frame_open(self.stack.len() - 1)
    }

    /// Whether the topmost frame installs its package.
    pub open spec fn installs(self) -> bool {
        match self.top().phase {
            Phase::Removing { method } => false,
            Phase::Deleting => false,
            Phase::Dismantling { step } => false,
            _ => true,
        }
    }
}

proof fn lemma_with_phase(s: SessionView, phase: Phase)
    requires
        s.inv_below(),
        !(phase is Depending),
        ({
            let t = s.with_phase(phase);
            t.frame_ok(t.stack.len() - 1)
        }),
    ensures
        s.with_phase(phase).inv(),
{
    let t = s.with_phase(phase);
    assert forall|i: int| 0 <= i < t.stack.len() implies t.frame_ok(i) by {
        if i < t.stack.len() - 1 {
            assert(s.frame_ok(i));
        }
    }
    assert forall|i: int, j: int| 0 <= i < j < t.stack.len() implies t.frame_name(i)
        != t.frame_name(j) by {
        assert(s.frame_name(i) != s.frame_name(j));
    }
}

proof fn lemma_depend_from(s: SessionView, from: int)
    requires
        s.inv_below(),
        0 <= from <= s.entry().install.github.deps.len(),
        s.deps_held(s.stack.len() - 1, from),
    ensures
        s.depend_from(from).inv(),
        s.depend_from(from).ledger == s.ledger,
{
    let top = s.stack.len() - 1;
    let deps = s.entry().install.github.deps;
    let at = first_missing(deps, s.ledger, from);
    lemma_first_missing(deps, s.ledger, from);
    assert forall|d: int| 0 <= d < at implies s.ledger.contains_key(#[trigger] deps[d]) by {}
    if at >= deps.len() {
        lemma_with_phase(s, Phase::Cloning);
    } else {
        lemma_lookup(s.catalog, deps[at]);
        let t = s.depend_from(from);
        if t.outcome is None {
            assert forall|k: int| 0 <= k < t.stack.len() implies t.frame_ok(k) by {
                if k < top {
                    assert(s.frame_ok(k));
                }
            }
            assert forall|a: int, b: int| 0 <= a < b < t.stack.len() implies t.frame_name(a)
                != t.frame_name(b) by {
                assert(t.frame_name(a) == s.frame_name(a));
                if b <= top {
                    assert(t.frame_name(b) == s.frame_name(b));
                }
            }
        }
    }
}

proof fn lemma_completed(s: SessionView, method: Format)
    requires
        s.inv(),
        s.outcome is None,
        s.installs(),
    ensures
        s.completed(method).inv(),
        s.completed(method).ledger == s.ledger.insert(s.entry().name, method),
{
    let top = s.stack.len() - 1;
    assert(s.frame_ok(top));
    let ledger = s.ledger.insert(s.entry().name, method);
    let rest = s.stack.drop_last();
    if rest.len() > 0 {
        let parent = SessionView { ledger, stack: rest, ..s };
        assert(s.frame_ok(top - 1));
        assert forall|i: int| 0 <= i < parent.stack.len() implies parent.frame_open(i)
            && parent.frame_name(i) == s.frame_name(i) by {
            assert(s.frame_ok(i));
        }
        assert forall|i: int| 0 <= i < parent.stack.len() - 1 implies parent.frame_ok(i) by {
            assert(s.frame_ok(i));
        }
        assert forall|i: int, j: int| 0 <= i < j < parent.stack.len() implies parent.frame_name(i)
            != parent.frame_name(j) by {}
        if let Phase::Depending { next } = rest.last().phase {
            lemma_depend_from(parent, next as int);
        }
    }
}

proof fn lemma_build_from(s: SessionView, at: int)
    requires
        s.inv(),
        s.outcome is None,
        s.top().phase is Cloning || s.top().phase is Building,
        0 <= at,
    ensures
        s.build_from(at).inv(),
        s.build_from(at).ledger == s.ledger || s.build_from(at).ledger == s.ledger.insert(
            s.entry().name,
            Format::GitHub,
        ),
{
    let top = s.stack.len() - 1;
    assert(s.frame_ok(top));
    if at < s.entry().install.github.steps.len() {
        assert forall|i: int| 0 <= i < s.stack.len() - 1 implies s.frame_ok(i) by {}
        lemma_with_phase(s, Phase::Building { step: at as usize });
    } else {
        lemma_completed(s, Format::GitHub);
    }
}

/// Every step of the protocol keeps what holds of a session, and changes
/// the ledger in one of three ways at most: not at all, by recording the
/// package of the topmost frame, or by dropping it.
pub proof fn lemma_step(s: SessionView, event: Event)
    requires
        s.inv(),
    ensures
        step(s, event).inv(),
        step(s, event).catalog == s.catalog,
        ({
            ||| step(s, event).ledger == s.ledger
            ||| exists|method: Format|
                step(s, event).ledger == s.ledger.insert(s.entry().name, method)
            ||| step(s, event).ledger == s.ledger.remove(s.entry().name)
        }),
{
    if s.outcome is None && s.stack.len() > 0 {
        let top = s.stack.len() - 1;
        assert(s.frame_ok(top));
        assert forall|i: int| 0 <= i < s.stack.len() - 1 implies s.frame_ok(i) by {}
        match (s.top().phase, event) {
            (Phase::Choosing, Event::Selected(choice)) => {
                if choice < s.entry().formats().len() {
                    let method = s.entry().formats()[choice as int];
                    match method {
                        Format::AppImage => {
                            lemma_with_phase(s, Phase::Fetching);
                        },
                        Format::GitHub => {
                            lemma_depend_from(s, 0);
                        },
                        _ => {
                            lemma_with_phase(s, Phase::Invoking { method });
                        },
                    }
                }
            },
            (Phase::Invoking { method }, Event::Status(status)) => {
                if status == 0 {
                    lemma_completed(s, method);
                }
            },
            (Phase::Fetching, Event::Status(status)) => {
                if status == 0 {
                    lemma_with_phase(s, Phase::Marking);
                }
            },
            (Phase::Marking, Event::Status(status)) => {
                if status == 0 {
                    lemma_completed(s, Format::AppImage);
                }
            },
            (Phase::Cloning, Event::Status(status)) => {
                if status == 0 {
                    lemma_build_from(s, 0);
                }
            },
            (Phase::Building { step }, Event::Status(status)) => {
                if status == 0 {
                    lemma_build_from(s, step + 1);
                }
            },
            _ => {},
        }
    }
}

/// A session that installs starts in order. Where the ledger holds the
/// package already, it has ended in success at once: the ledger is as it
/// was, and nothing is asked of any backend.
pub proof fn lemma_install_starts(
    catalog: Seq<PackageView>,
    ledger: Map<Seq<char>, Format>,
    apps: Seq<char>,
    sources: Seq<char>,
    name: Seq<char>,
)
    requires
        bounded(catalog),
    ensures
        install_spec(catalog, ledger, apps, sources, name).inv(),
        install_spec(catalog, ledger, apps, sources, name).ledger == ledger,
        ledger.contains_key(name) ==> pending(install_spec(catalog, ledger, apps, sources, name))
            == (ActionView::Finish { outcome: Ok(()) }),
{
    lemma_lookup(catalog, name);
}

/// A session that uninstalls starts in order. Where the ledger does not
/// hold the package, it has ended in success at once: the ledger is as it
/// was, and nothing is asked of any backend.
pub proof fn lemma_uninstall_starts(
    catalog: Seq<PackageView>,
    ledger: Map<Seq<char>, Format>,
    apps: Seq<char>,
    sources: Seq<char>,
    name: Seq<char>,
)
    requires
        bounded(catalog),
    ensures
        uninstall_spec(catalog, ledger, apps, sources, name).inv(),
        !ledger.contains_key(name) ==> {
            &&& uninstall_spec(catalog, ledger, apps, sources, name).ledger == ledger
            &&& pending(uninstall_spec(catalog, ledger, apps, sources, name)) == (
            ActionView::Finish { outcome: Ok(()) })
        },
{
    lemma_lookup(catalog, name);
}

/// Work that ends with a status other than zero ends the session in
/// failure and leaves the ledger as it was. For a build step of the package
/// that was asked for, the failure names the step, counted from one, and
/// the status.
pub proof fn lemma_refusal(s: SessionView, status: i32)
    requires
        s.inv(),
        !s.finished(),
        status != 0,
        !(s.top().phase is Choosing),
    ensures
        step(s, Event::Status(status)).ledger == s.ledger,
        step(s, Event::Status(status)).outcome matches Some(Err(_)),
        s.stack.len() == 1 ==> (s.top().phase matches Phase::Building { step: at } ==> step(
            s,
            Event::Status(status),
        ).outcome == Some(
            Err::<(), ErrorView>(
                ErrorView::BuildStepFailure { step: (at + 1) as usize, status },
            ),
        )),
{
    assert(s.frame_ok(s.stack.len() - 1));
}

/// A step that ends a session that installs ends it in success exactly
/// when it records the package that was asked for: after a failure the
/// ledger does not hold that package, whatever it holds of its
/// dependencies.
pub proof fn lemma_target(s: SessionView, event: Event)
    requires
        s.inv(),
        !s.finished(),
        s.installs(),
    ensures
        step(s, event).outcome matches Some(Err(_)) ==> !step(s, event).ledger.contains_key(
            s.frame_name(0),
        ),
        step(s, event).outcome == Some(Ok::<(), ErrorView>(())) ==> step(
            s,
            event,
        ).ledger.contains_key(s.frame_name(0)),
{
    let top = s.stack.len() - 1;
    assert(s.frame_ok(top));
    assert(s.frame_ok(0));
    lemma_step(s, event);
}

/// A source build whose dependencies are all installed installs none of
/// them again: once it is selected, the repository is cloned.
pub proof fn lemma_held_dependencies(s: SessionView, choice: usize)
    requires
        s.inv(),
        !s.finished(),
        s.top().phase is Choosing,
        choice < s.entry().formats().len(),
        s.entry().formats()[choice as int] == Format::GitHub,
        forall|d: int|
            0 <= d < s.entry().install.github.deps.len() ==> s.ledger.contains_key(
                #[trigger] s.entry().install.github.deps[d],
            ),
    ensures
        pending(step(s, Event::Selected(choice))) == (ActionView::CloneRepository {
            repo: s.entry().install.github.repo,
            target: s.source_path(),
        }),
        step(s, Event::Selected(choice)).ledger == s.ledger,
{
    lemma_first_missing(s.entry().install.github.deps, s.ledger, 0);
}

/// A repository is cloned, and a build step runs, only when every
/// dependency of the package is in the ledger.
pub proof fn lemma_dependencies_first(s: SessionView)
    requires
        s.inv(),
        !s.finished(),
        s.top().phase is Cloning || s.top().phase is Building,
    ensures
        forall|d: int|
            0 <= d < s.entry().install.github.deps.len() ==> s.ledger.contains_key(
                #[trigger] s.entry().install.github.deps[d],
            ),
{
    let top = s.stack.len() - 1;
    assert(s.frame_ok(top));
}

/// What is offered for selection is what the entry offers: no backend whose
/// primary field is empty, and the backends in their fixed order.
pub proof fn lemma_options(s: SessionView)
    requires
        s.inv(),
        !s.finished(),
        s.top().phase is Choosing,
    ensures
        pending(s) matches ActionView::Choose { package, options } && {
            &&& options.len() > 0
            &&& forall|i: int| 0 <= i < options.len() ==> s.entry().offers(#[trigger] options[i])
            &&& forall|i: int, j: int|
                0 <= i < j < options.len() ==> options[i].rank() < options[j].rank()
        },
{
    assert(s.frame_ok(s.stack.len() - 1));
    lemma_formats(s.entry());
}

} // verus!
