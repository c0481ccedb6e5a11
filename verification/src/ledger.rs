//! The ledger: the record of which packages are installed, and by which
//! backend. It holds at most one record for a name.

use crate::format::Format;
use crate::text::{distinct, same_text};
use vstd::prelude::*;

verus! {

/// One record of the ledger: a package and the backend that installed it.
#[derive(Debug, PartialEq, Eq)]
pub struct InstallInfo {
    pub name: String,
    pub method: Format,
}

/// An [`InstallInfo`] with its name as a sequence of characters.
pub struct InstallView {
    pub name: Seq<char>,
    pub method: Format,
}

impl View for InstallInfo {
    type V = InstallView;

    open spec fn view(&self) -> InstallView {
        InstallView { name: self.name@, method: self.method }
    }
}

impl Clone for InstallInfo {
    fn clone(&self) -> (r: Self)
        ensures
            r@ == self@,
    {
        InstallInfo { name: self.name.clone(), method: self.method }
    }
}

/// The records of a list, each by its view.
pub open spec fn record_views(list: Seq<InstallInfo>) -> Seq<InstallView> {
    Seq::new(list.len(), |i: int| list[i]@)
}

/// The names of the records of a list, in order.
pub open spec fn record_names(list: Seq<InstallView>) -> Seq<Seq<char>> {
    Seq::new(list.len(), |i: int| list[i].name)
}

/// The backend recorded for each name, where a later record of a name
/// stands for it.
pub open spec fn record_map(list: Seq<InstallView>) -> Map<Seq<char>, Format>
    decreases list.len(),
{
    if list.len() == 0 {
        Map::empty()
    } else {
        record_map(list.drop_last()).insert(list.last().name, list.last().method)
    }
}

/// The names that [`record_map`] knows are those of the records, and where
/// no name is recorded twice each record gives its name's backend.
pub proof fn lemma_record_map(list: Seq<InstallView>)
    ensures
        forall|name: Seq<char>|
            record_map(list).contains_key(name) <==> exists|i: int|
                0 <= i < list.len() && #[trigger] list[i].name == name,
        distinct(record_names(list)) ==> forall|i: int|
            0 <= i < list.len() ==> record_map(list)[#[trigger] list[i].name] == list[i].method,
        record_map(list).dom().finite(),
    decreases list.len(),
{
    if list.len() > 0 {
        let front = list.drop_last();
        lemma_record_map(front);
        assert forall|name: Seq<char>|
            record_map(list).contains_key(name) <==> exists|i: int|
                0 <= i < list.len() && #[trigger] list[i].name == name by {
            if record_map(list).contains_key(name) {
                if name == list.last().name {
                    assert(list[list.len() - 1].name == name);
                } else {
                    let i = choose|i: int| 0 <= i < front.len() && #[trigger] front[i].name == name;
                    assert(list[i].name == name);
                }
            }
            if exists|i: int| 0 <= i < list.len() && #[trigger] list[i].name == name {
                let i = choose|i: int| 0 <= i < list.len() && #[trigger] list[i].name == name;
                if i < front.len() {
                    assert(front[i].name == name);
                }
            }
        }
        if distinct(record_names(list)) {
            assert forall|a: int, b: int| 0 <= a < b < front.len() implies record_names(front)[a]
                != record_names(front)[b] by {
                assert(record_names(list)[a] != record_names(list)[b]);
            }
            assert forall|i: int| 0 <= i < list.len() implies record_map(list)[#[trigger] list[i].name]
                == list[i].method by {
                if i < front.len() {
                    assert(record_names(list)[i] != record_names(list)[list.len() - 1]);
                    assert(front[i].name == list[i].name);
                }
            }
        }
    }
}

/// A record more adds its name and backend to what [`record_map`] gives.
pub proof fn lemma_record_map_push(list: Seq<InstallView>, record: InstallView)
    ensures
        record_map(list.push(record)) == record_map(list).insert(record.name, record.method),
{
    assert(list.push(record).drop_last() =~= list);
}

/// Where no name is recorded twice, taking one record out takes its name
/// out of what [`record_map`] gives, and nothing else.
pub proof fn lemma_record_map_remove(list: Seq<InstallView>, at: int)
    requires
        0 <= at < list.len(),
        distinct(record_names(list)),
    ensures
        record_map(list.remove(at)) == record_map(list).remove(list[at].name),
        distinct(record_names(list.remove(at))),
    decreases list.len(),
{
    let rest = list.remove(at);
    assert forall|a: int, b: int| 0 <= a < b < rest.len() implies record_names(rest)[a]
        != record_names(rest)[b] by {
        let a0 = if a < at { a } else { a + 1 };
        let b0 = if b < at { b } else { b + 1 };
        assert(record_names(list)[a0] != record_names(list)[b0]);
    }
    let front = list.drop_last();
    lemma_record_map(front);
    assert forall|a: int, b: int| 0 <= a < b < front.len() implies record_names(front)[a]
        != record_names(front)[b] by {
        assert(record_names(list)[a] != record_names(list)[b]);
    }
    if at == list.len() - 1 {
        assert(rest =~= front);
        if record_map(front).contains_key(list[at].name) {
            let i = choose|i: int| 0 <= i < front.len() && #[trigger] front[i].name == list[at].name;
            assert(record_names(list)[i] != record_names(list)[at]);
        }
        assert(record_map(rest) =~= record_map(list).remove(list[at].name));
    } else {
        lemma_record_map_remove(front, at);
        assert(rest =~= front.remove(at).push(list.last()));
        lemma_record_map_push(front.remove(at), list.last());
        assert(record_names(list)[at] != record_names(list)[list.len() - 1]);
        assert(record_map(rest) =~= record_map(list).remove(list[at].name));
    }
}

/// The record of the installed packages. No name is recorded twice.
#[derive(Debug)]
pub struct Ledger {
    records: Vec<InstallInfo>,
}

impl View for Ledger {
    type V = Map<Seq<char>, Format>;

    closed spec fn view(&self) -> Map<Seq<char>, Format> {
        record_map(record_views(self.records@))
    }
}

impl Ledger {
    #[verifier::type_invariant]
    spec fn unique(self) -> bool {
        distinct(record_names(record_views(self.records@)))
    }

    /// The ledger that records nothing.
    pub fn new() -> (r: Ledger)
        ensures
            r@ == Map::<Seq<char>, Format>::empty(),
    {
        Ledger { records: Vec::new() }
    }

    /// The ledger of a list of records, unless the list records a name twice.
    pub fn from_records(records: Vec<InstallInfo>) -> (r: Option<Ledger>)
        ensures
            r is Some <==> distinct(record_names(record_views(records@))),
            r matches Some(ledger) ==> ledger@ == record_map(record_views(records@)),
    {
        let ghost all = record_names(record_views(records@));
        let n = records.len();
        let mut j: usize = 0;
        while j < n
            invariant
                j <= n,
                n == records.len(),
                all == record_names(record_views(records@)),
                forall|a: int, b: int| 0 <= a < b < j ==> all[a] != all[b],
            decreases n - j,
        {
            let mut i: usize = 0;
            while i < j
                invariant
                    i <= j < n,
                    n == records.len(),
                    all == record_names(record_views(records@)),
                    forall|a: int| 0 <= a < i ==> all[a] != all[j as int],
                decreases j - i,
            {
                if same_text(records[i].name.as_str(), records[j].name.as_str()) {
                    assert(all[i as int] == all[j as int]);
                    return None;
                }
                i = i + 1;
            }
            j = j + 1;
        }
        Some(Ledger { records })
    }

    /// The records of the ledger, in the order in which they were made.
    pub fn records(&self) -> (r: &Vec<InstallInfo>)
        ensures
            record_map(record_views(r@)) == self@,
            distinct(record_names(record_views(r@))),
    {
        proof {
            use_type_invariant(self);
        }
        &self.records
    }

    /// How many packages are recorded.
    pub fn len(&self) -> (r: usize)
        ensures
            r == self@.len(),
    {
        proof {
            use_type_invariant(self);
            lemma_record_count(record_views(self.records@));
        }
        self.records.len()
    }

    /// The backend by which a package was installed, if it is installed.
    pub fn is_installed(&self, name: &str) -> (r: Option<Format>)
        ensures
            r == (if self@.contains_key(name@) {
                Some(self@[name@])
            } else {
                None
            }),
    {
        proof {
            use_type_invariant(self);
            lemma_record_map(record_views(self.records@));
        }
        let ghost list = record_views(self.records@);
        let mut i: usize = 0;
        while i < self.records.len()
            invariant
                i <= self.records.len(),
                list == record_views(self.records@),
                distinct(record_names(list)),
                self@ == record_map(list),
                forall|k: int| 0 <= k < i ==> (#[trigger] list[k]).name != name@,
            decreases self.records.len() - i,
        {
            if same_text(self.records[i].name.as_str(), name) {
                proof {
                    lemma_record_map(list);
                    assert(list[i as int].name == name@);
                }
                return Some(self.records[i].method);
            }
            i = i + 1;
        }
        None
    }

    /// Records that a package was installed by a backend. The package must
    /// not be recorded yet: test with [`Ledger::is_installed`] first.
    pub fn record_install(&mut self, name: String, method: Format)
        requires
            !old(self)@.contains_key(name@),
        ensures
            final(self)@ == old(self)@.insert(name@, method),
    {
        proof {
            use_type_invariant(&*self);
            lemma_record_map(record_views(self.records@));
            lemma_record_map_push(record_views(self.records@), InstallView { name: name@, method });
        }
        let ghost before = record_views(self.records@);
        let mut held = Ledger::new();
        core::mem::swap(self, &mut held);
        let mut records = held.records;
        records.push(InstallInfo { name, method });
        proof {
            let after = record_views(records@);
            assert(after =~= before.push(InstallView { name: name@, method }));
            assert forall|a: int, b: int| 0 <= a < b < after.len() implies record_names(after)[a]
                != record_names(after)[b] by {
                if b < before.len() {
                    assert(record_names(before)[a] != record_names(before)[b]);
                } else {
                    assert(before[a].name == record_names(after)[a]);
                }
            }
        }
        *self = Ledger { records };
    }

    /// Takes the record of a package out of the ledger. Where the package is
    /// not recorded, nothing changes.
    pub fn record_uninstall(&mut self, name: &str)
        ensures
            final(self)@ == old(self)@.remove(name@),
            !old(self)@.contains_key(name@) ==> final(self)@ == old(self)@,
    {
        proof {
            use_type_invariant(&*self);
            lemma_record_map(record_views(self.records@));
        }
        let ghost list = record_views(self.records@);
        let mut i: usize = 0;
        while i < self.records.len()
            invariant
                i <= self.records.len(),
                list == record_views(self.records@),
                distinct(record_names(list)),
                *self == *old(self),
                forall|k: int| 0 <= k < i ==> (#[trigger] list[k]).name != name@,
            decreases self.records.len() - i,
        {
            if same_text(self.records[i].name.as_str(), name) {
                proof {
                    lemma_record_map_remove(list, i as int);
                }
                let mut held = Ledger::new();
                core::mem::swap(self, &mut held);
                let mut records = held.records;
                records.remove(i);
                assert(record_views(records@) =~= list.remove(i as int));
                *self = Ledger { records };
                return ;
            }
            i = i + 1;
        }
        assert(self@ =~= old(self)@.remove(name@));
        assert(old(self)@.remove(name@) =~= old(self)@);
    }
}

/// Where no name is recorded twice, [`record_map`] knows as many names as
/// there are records.
pub proof fn lemma_record_count(list: Seq<InstallView>)
    requires
        distinct(record_names(list)),
    ensures
        record_map(list).len() == list.len(),
    decreases list.len(),
{
    if list.len() > 0 {
        let front = list.drop_last();
        assert forall|a: int, b: int| 0 <= a < b < front.len() implies record_names(front)[a]
            != record_names(front)[b] by {
            assert(record_names(list)[a] != record_names(list)[b]);
        }
        lemma_record_count(front);
        lemma_record_map(front);
        if record_map(front).contains_key(list.last().name) {
            let i = choose|i: int| 0 <= i < front.len() && #[trigger] front[i].name == list.last().name;
            assert(record_names(list)[i] != record_names(list)[list.len() - 1]);
        }
    }
}

} // verus!
