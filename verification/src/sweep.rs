//! The sweeper: it finds what is left of packages that the ledger does not
//! hold, and has it removed. An AppImage is left over when no package that
//! the ledger holds as an AppImage keeps its image under that name; a
//! cloned repository is left over when the ledger does not hold its package
//! as a source build.

use crate::catalog::{lemma_lookup, lookup, Catalog};
use crate::dispatch::Action;
use crate::format::Format;
use crate::ledger::{lemma_record_map, record_map, record_names, record_views, Ledger};
use crate::package::PackageView;
use crate::protocol::{ActionView, Event};
use crate::text::{distinct, join, join_spec, same_text, texts};
use vstd::prelude::*;

verus! {

/// Whether a package that the ledger holds as an AppImage keeps its image
/// under this name.
pub open spec fn image_tracked(
    catalog: Seq<PackageView>,
    ledger: Map<Seq<char>, Format>,
    file: Seq<char>,
) -> bool {
    exists|name: Seq<char>|
        {
            &&& #[trigger] ledger.contains_key(name)
            &&& ledger[name] == Format::AppImage
            &&& lookup(catalog, name) matches Some(i)
            &&& catalog[i].install.appimage.name == file
        }
}

/// Whether the ledger holds the package of this name as a source build.
pub open spec fn source_tracked(ledger: Map<Seq<char>, Format>, name: Seq<char>) -> bool {
    ledger.contains_key(name) && ledger[name] == Format::GitHub
}

/// The paths of the AppImages that are left over, among the files of the
/// directory of AppImages, in their order.
pub open spec fn leftover_images(
    catalog: Seq<PackageView>,
    ledger: Map<Seq<char>, Format>,
    apps: Seq<char>,
    files: Seq<Seq<char>>,
) -> Seq<Seq<char>>
    decreases files.len(),
{
    if files.len() == 0 {
        Seq::empty()
    } else if image_tracked(catalog, ledger, files.last()) {
        leftover_images(catalog, ledger, apps, files.drop_last())
    } else {
        leftover_images(catalog, ledger, apps, files.drop_last()).push(
            join_spec(apps, files.last()),
        )
    }
}

/// The paths of the cloned repositories that are left over, among the
/// entries of the directory of repositories, in their order.
pub open spec fn leftover_sources(
    ledger: Map<Seq<char>, Format>,
    sources: Seq<char>,
    entries: Seq<Seq<char>>,
) -> Seq<Seq<char>>
    decreases entries.len(),
{
    if entries.len() == 0 {
        Seq::empty()
    } else if source_tracked(ledger, entries.last()) {
        leftover_sources(ledger, sources, entries.drop_last())
    } else {
        leftover_sources(ledger, sources, entries.drop_last()).push(
            join_spec(sources, entries.last()),
        )
    }
}

/// A sweep, with its texts as sequences of characters.
pub struct SweepView {
    /// What is to be removed.
    pub targets: Seq<Seq<char>>,
    /// How many of the targets have been dealt with.
    pub done: nat,
    /// The targets that could not be removed, each with the status.
    pub failures: Seq<(Seq<char>, i32)>,
}

/// The sweep that removes what is left over in the two directories.
pub open spec fn sweep_start(
    catalog: Seq<PackageView>,
    ledger: Map<Seq<char>, Format>,
    apps: Seq<char>,
    files: Seq<Seq<char>>,
    sources: Seq<char>,
    entries: Seq<Seq<char>>,
) -> SweepView {
    SweepView {
        targets: leftover_images(catalog, ledger, apps, files) + leftover_sources(
            ledger,
            sources,
            entries,
        ),
        done: 0,
        failures: Seq::empty(),
    }
}

/// What the sweeper asks its caller to do next: to delete the next target,
/// until none is left.
pub open spec fn sweep_pending(s: SweepView) -> ActionView {
    if s.done < s.targets.len() {
        ActionView::Delete { target: s.targets[s.done as int] }
    } else {
        ActionView::Finish { outcome: Ok(()) }
    }
}

/// The sweep after the caller has reported how the removal went. A target
/// that could not be removed is noted, and the sweep goes on to the next
/// one all the same.
pub open spec fn sweep_step(s: SweepView, event: Event) -> SweepView {
    if s.done >= s.targets.len() {
        s
    } else {
        match event {
            Event::Selected(_) => s,
            Event::Absent => SweepView { done: s.done + 1, ..s },
            Event::Status(status) => if status == 0 {
                SweepView { done: s.done + 1, ..s }
            } else {
                SweepView {
                    done: s.done + 1,
                    failures: s.failures.push((s.targets[s.done as int], status)),
                    ..s
                }
            },
        }
    }
}

/// No failure ends a sweep: whatever status a removal is reported with,
/// the sweep goes on to the next target, and the targets stay the same.
pub proof fn lemma_sweep_goes_on(s: SweepView, status: i32)
    requires
        s.done < s.targets.len(),
    ensures
        sweep_step(s, Event::Status(status)).done == s.done + 1,
        sweep_step(s, Event::Status(status)).targets == s.targets,
        status != 0 ==> sweep_step(s, Event::Status(status)).failures.last() == (
            s.targets[s.done as int],
            status,
        ),
{
}

/// What is left over is what is not tracked: a path is among the leftover
/// repositories exactly when it is that of an entry of the directory whose
/// package the ledger does not hold as a source build.
pub proof fn lemma_leftover_sources(
    ledger: Map<Seq<char>, Format>,
    sources: Seq<char>,
    entries: Seq<Seq<char>>,
    path: Seq<char>,
)
    ensures
        leftover_sources(ledger, sources, entries).contains(path) <==> exists|k: int|
            0 <= k < entries.len() && !source_tracked(ledger, #[trigger] entries[k]) && path
                == join_spec(sources, entries[k]),
    decreases entries.len(),
{
    if entries.len() > 0 {
        let front = entries.drop_last();
        let all = leftover_sources(ledger, sources, entries);
        let rest = leftover_sources(ledger, sources, front);
        lemma_leftover_sources(ledger, sources, front, path);
        if all.contains(path) {
            let at = choose|at: int| 0 <= at < all.len() && all[at] == path;
            if at < rest.len() {
                assert(rest[at] == path);
                assert(rest.contains(path));
                let k = choose|k: int|
                    0 <= k < front.len() && !source_tracked(ledger, #[trigger] front[k]) && path
                        == join_spec(sources, front[k]);
                assert(entries[k] == front[k]);
            } else {
                assert(!source_tracked(ledger, entries[entries.len() - 1]));
            }
        }
        if exists|k: int|
            0 <= k < entries.len() && !source_tracked(ledger, #[trigger] entries[k]) && path
                == join_spec(sources, entries[k]) {
            let k = choose|k: int|
                0 <= k < entries.len() && !source_tracked(ledger, #[trigger] entries[k]) && path
                    == join_spec(sources, entries[k]);
            if k < front.len() {
                assert(front[k] == entries[k]);
                assert(rest.contains(path));
                let at = choose|at: int| 0 <= at < rest.len() && rest[at] == path;
                assert(all[at] == path);
            } else {
                assert(all[all.len() - 1] == path);
            }
        }
    }
}

/// What is left over is what is not tracked: a path is among the leftover
/// AppImages exactly when it is that of a file of the directory under whose
/// name no installed AppImage is kept.
pub proof fn lemma_leftover_images(
    catalog: Seq<PackageView>,
    ledger: Map<Seq<char>, Format>,
    apps: Seq<char>,
    files: Seq<Seq<char>>,
    path: Seq<char>,
)
    ensures
        leftover_images(catalog, ledger, apps, files).contains(path) <==> exists|k: int|
            0 <= k < files.len() && !image_tracked(catalog, ledger, #[trigger] files[k]) && path
                == join_spec(apps, files[k]),
    decreases files.len(),
{
    if files.len() > 0 {
        let front = files.drop_last();
        let all = leftover_images(catalog, ledger, apps, files);
        let rest = leftover_images(catalog, ledger, apps, front);
        lemma_leftover_images(catalog, ledger, apps, front, path);
        if all.contains(path) {
            let at = choose|at: int| 0 <= at < all.len() && all[at] == path;
            if at < rest.len() {
                assert(rest[at] == path);
                assert(rest.contains(path));
                let k = choose|k: int|
                    0 <= k < front.len() && !image_tracked(catalog, ledger, #[trigger] front[k])
                        && path == join_spec(apps, front[k]);
                assert(files[k] == front[k]);
            } else {
                assert(!image_tracked(catalog, ledger, files[files.len() - 1]));
            }
        }
        if exists|k: int|
            0 <= k < files.len() && !image_tracked(catalog, ledger, #[trigger] files[k]) && path
                == join_spec(apps, files[k]) {
            let k = choose|k: int|
                0 <= k < files.len() && !image_tracked(catalog, ledger, #[trigger] files[k])
                    && path == join_spec(apps, files[k]);
            if k < front.len() {
                assert(front[k] == files[k]);
                assert(rest.contains(path));
                let at = choose|at: int| 0 <= at < rest.len() && rest[at] == path;
                assert(all[at] == path);
            } else {
                assert(all[all.len() - 1] == path);
            }
        }
    }
}

/// Whether a package that the ledger holds as an AppImage keeps its image
/// under this name.
pub fn is_image_tracked(catalog: &Catalog, ledger: &Ledger, file: &str) -> (r: bool)
    ensures
        r == image_tracked(catalog@, ledger@, file@),
{
    let records = ledger.records();
    let ghost list = record_views(records@);
    proof {
        lemma_record_map(list);
    }
    let mut i: usize = 0;
    while i < records.len()
        invariant
            i <= records.len(),
            list == record_views(records@),
            record_map(list) == ledger@,
            distinct(record_names(list)),
            forall|k: int|
                0 <= k < i ==> !({
                    &&& (#[trigger] list[k]).method == Format::AppImage
                    &&& lookup(catalog@, list[k].name) matches Some(j)
                    &&& catalog@[j].install.appimage.name == file@
                }),
        decreases records.len() - i,
    {
        let record = &records[i];
        assert(list[i as int] == record@);
        if record.method == Format::AppImage {
            match catalog.find(record.name.as_str()) {
                Some(j) => {
                    proof {
                        lemma_lookup(catalog@, record.name@);
                    }
                    if same_text(catalog.entries[j].install.appimage.name.as_str(), file) {
                        proof {
                            lemma_record_map(list);
                            assert(list[i as int].name == record.name@);
                            assert(ledger@.contains_key(record.name@));
                        }
                        return true;
                    }
                },
                None => {},
            }
        }
        i = i + 1;
    }
    proof {
        if image_tracked(catalog@, ledger@, file@) {
            let name = choose|name: Seq<char>|
                {
                    &&& #[trigger] ledger@.contains_key(name)
                    &&& ledger@[name] == Format::AppImage
                    &&& lookup(catalog@, name) matches Some(i)
                    &&& catalog@[i].install.appimage.name == file@
                };
            let k = choose|k: int| 0 <= k < list.len() && #[trigger] list[k].name == name;
            assert(list[k].method == Format::AppImage);
        }
    }
    false
}

/// A sweep in progress.
pub struct Sweep {
    targets: Vec<String>,
    done: usize,
    failures: Vec<(String, i32)>,
}

/// The targets that could not be removed, with texts as sequences of
/// characters.
pub open spec fn failure_views(list: Seq<(String, i32)>) -> Seq<(Seq<char>, i32)> {
    Seq::new(list.len(), |i: int| (list[i].0@, list[i].1))
}

impl View for Sweep {
    type V = SweepView;

    closed spec fn view(&self) -> SweepView {
        SweepView {
            targets: texts(self.targets@),
            done: self.done as nat,
            failures: failure_views(self.failures@),
        }
    }
}

/// Begins a sweep, given the names of the files in the directory of
/// AppImages and of the entries in the directory of repositories.
pub fn auto_uninstall(
    catalog: &Catalog,
    ledger: &Ledger,
    apps: &str,
    files: &Vec<String>,
    sources: &str,
    entries: &Vec<String>,
) -> (r: Sweep)
    ensures
        r@ == sweep_start(
            catalog@,
            ledger@,
            apps@,
            texts(files@),
            sources@,
            texts(entries@),
        ),
{
    let mut targets: Vec<String> = Vec::new();
    let ghost names = texts(files@);
    let mut i: usize = 0;
    while i < files.len()
        invariant
            i <= files.len(),
            names == texts(files@),
            texts(targets@) == leftover_images(catalog@, ledger@, apps@, names.take(i as int)),
        decreases files.len() - i,
    {
        assert(names.take(i + 1).drop_last() =~= names.take(i as int));
        assert(names.take(i + 1).last() == files[i as int]@);
        if !is_image_tracked(catalog, ledger, files[i].as_str()) {
            let ghost before = texts(targets@);
            targets.push(join(apps, files[i].as_str()));
            assert(texts(targets@) =~= before.push(join_spec(apps@, files[i as int]@)));
        }
        i = i + 1;
    }
    assert(names.take(files.len() as int) =~= names);
    let ghost images = texts(targets@);
    let ghost dirs = texts(entries@);
    let mut k: usize = 0;
    while k < entries.len()
        invariant
            k <= entries.len(),
            dirs == texts(entries@),
            texts(targets@) == images + leftover_sources(ledger@, sources@, dirs.take(k as int)),
        decreases entries.len() - k,
    {
        assert(dirs.take(k + 1).drop_last() =~= dirs.take(k as int));
        assert(dirs.take(k + 1).last() == entries[k as int]@);
        let held = ledger.is_installed(entries[k].as_str());
        let kept = match held {
            Some(method) => method == Format::GitHub,
            None => false,
        };
        if !kept {
            let ghost before = texts(targets@);
            targets.push(join(sources, entries[k].as_str()));
            assert(texts(targets@) =~= before.push(join_spec(sources@, entries[k as int]@)));
            assert(texts(targets@) =~= images + leftover_sources(
                ledger@,
                sources@,
                dirs.take(k + 1),
            ));
        }
        k = k + 1;
    }
    assert(dirs.take(entries.len() as int) =~= dirs);
    let sweep = Sweep { targets, done: 0, failures: Vec::new() };
    assert(sweep@.failures =~= Seq::empty());
    sweep
}

impl Sweep {
    #[verifier::type_invariant]
    spec fn sound(self) -> bool {
        self.done <= self.targets.len()
    }

    /// Whether nothing is left to remove.
    pub fn finished(&self) -> (r: bool)
        ensures
            r == (self@.done >= self@.targets.len()),
    {
        self.done >= self.targets.len()
    }

    /// What the sweeper asks its caller to do next.
    pub fn pending(&self) -> (r: Action)
        ensures
            r@ == sweep_pending(self@),
    {
        if self.done < self.targets.len() {
            Action::Delete { target: self.targets[self.done].clone() }
        } else {
            Action::Finish { outcome: Ok(()) }
        }
    }

    /// The sweep after the caller has reported how the removal went.
    pub fn advance(self, event: Event) -> (r: Sweep)
        ensures
            r@ == sweep_step(self@, event),
    {
        proof {
            use_type_invariant(&self);
        }
        if self.done >= self.targets.len() {
            return self;
        }
        match event {
            Event::Selected(_) => self,
            Event::Absent => Sweep {
                targets: self.targets,
                done: self.done + 1,
                failures: self.failures,
            },
            Event::Status(status) => {
                if status == 0 {
                    Sweep { targets: self.targets, done: self.done + 1, failures: self.failures }
                } else {
                    let mut failures = self.failures;
                    let ghost before = failure_views(failures@);
                    failures.push((self.targets[self.done].clone(), status));
                    assert(failure_views(failures@) =~= before.push(
                        (self.targets[self.done as int]@, status),
                    ));
                    Sweep { targets: self.targets, done: self.done + 1, failures }
                }
            },
        }
    }

    /// The targets that could not be removed so far, each with the status.
    pub fn failures(&self) -> (r: &Vec<(String, i32)>)
        ensures
            failure_views(r@) == self@.failures,
    {
        &self.failures
    }
}

} // verus!
