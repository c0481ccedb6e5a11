//! The catalog: the ordered list of the packages that can be installed, and
//! the resolution of a package's name to the backends that offer it.

use crate::error::{EngineError, ErrorView};
use crate::package::{candidate_views, Candidate, CandidateView, Package, PackageView};
use crate::text::{copy_text, distinct, last_index, lemma_last_index, same_text};
use vstd::prelude::*;

verus! {

/// The packages that can be installed, in the order of the catalog
/// document. No two of them bear the same name.
#[derive(Debug, PartialEq, Eq)]
pub struct Catalog {
    pub(crate) entries: Vec<Package>,
}

/// The packages of a list, each by its view.
pub open spec fn package_views(list: Seq<Package>) -> Seq<PackageView> {
    Seq::new(list.len(), |i: int| list[i]@)
}

/// The names of the entries of a catalog, in order.
pub open spec fn names(entries: Seq<PackageView>) -> Seq<Seq<char>> {
    Seq::new(entries.len(), |i: int| entries[i].name)
}

/// The position of the entry that a name stands for. In a list that holds
/// a name twice, which no catalog does, it is the last entry of that name.
pub open spec fn lookup(entries: Seq<PackageView>, name: Seq<char>) -> Option<int> {
    last_index(names(entries), name)
}

/// Whether no two entries of a catalog bear the same name.
pub open spec fn unique_names(entries: Seq<PackageView>) -> bool {
    distinct(names(entries))
}

/// The backends that offer the package of a given name, each with its
/// descriptor, or the reason why there are none.
pub open spec fn resolve_spec(entries: Seq<PackageView>, name: Seq<char>) -> Result<
    Seq<CandidateView>,
    ErrorView,
> {
    match lookup(entries, name) {
        None => Err(ErrorView::PackageNotFound { name }),
        Some(i) => if entries[i].resolvable() {
            Ok(entries[i].candidates())
        } else {
            Err(ErrorView::NoInstallCandidate { name })
        },
    }
}

/// What [`lookup`] finds: an entry of that name, after which no entry
/// bears the name; and where it finds nothing, no entry bears the name.
pub proof fn lemma_lookup(entries: Seq<PackageView>, name: Seq<char>)
    ensures
        match lookup(entries, name) {
            Some(i) => {
                &&& 0 <= i < entries.len()
                &&& entries[i].name == name
                &&& forall|j: int| i < j < entries.len() ==> entries[j].name != name
            },
            None => forall|j: int| 0 <= j < entries.len() ==> entries[j].name != name,
        },
{
    lemma_last_index(names(entries), name);
    match lookup(entries, name) {
        Some(i) => {
            assert forall|j: int| i < j < entries.len() implies entries[j].name != name by {
                assert(names(entries)[j] != name);
            }
        },
        None => {
            assert forall|j: int| 0 <= j < entries.len() implies entries[j].name != name by {
                assert(names(entries)[j] != name);
            }
        },
    }
}

/// Where no two entries bear the same name, each entry is the one that
/// its name stands for.
pub proof fn lemma_unique_lookup(entries: Seq<PackageView>, i: int)
    requires
        unique_names(entries),
        0 <= i < entries.len(),
    ensures
        lookup(entries, entries[i].name) == Some(i),
{
    lemma_lookup(entries, entries[i].name);
    let found = lookup(entries, entries[i].name);
    let j = found->0;
    if j != i {
        assert(names(entries)[i] == names(entries)[j]);
    }
}

impl View for Catalog {
    type V = Seq<PackageView>;

    open(crate) spec fn view(&self) -> Seq<PackageView> {
        package_views(self.entries@)
    }
}

impl Catalog {
    #[verifier::type_invariant]
    spec fn unique(self) -> bool {
        unique_names(package_views(self.entries@))
    }

    /// The catalog of a list of entries, unless two of them bear the same
    /// name.
    pub fn new(entries: Vec<Package>) -> (r: Option<Catalog>)
        ensures
            r is Some <==> unique_names(package_views(entries@)),
            r matches Some(catalog) ==> catalog@ == package_views(entries@),
    {
        let ghost all = names(package_views(entries@));
        let n = entries.len();
        let mut j: usize = 0;
        while j < n
            invariant
                j <= n,
                n == entries.len(),
                all == names(package_views(entries@)),
                forall|a: int, b: int| 0 <= a < b < j ==> all[a] != all[b],
            decreases n - j,
        {
            let mut i: usize = 0;
            while i < j
                invariant
                    i <= j < n,
                    n == entries.len(),
                    all == names(package_views(entries@)),
                    forall|a: int| 0 <= a < i ==> all[a] != all[j as int],
                decreases j - i,
            {
                if same_text(entries[i].name.as_str(), entries[j].name.as_str()) {
                    assert(all[i as int] == all[j as int]);
                    return None;
                }
                i = i + 1;
            }
            j = j + 1;
        }
        Some(Catalog { entries })
    }

    /// The entries of the catalog, in order. No two bear the same name.
    pub fn entries(&self) -> (r: &Vec<Package>)
        ensures
            package_views(r@) == self@,
            unique_names(self@),
    {
        proof {
            use_type_invariant(self);
        }
        &self.entries
    }

    /// The position of the entry that a name stands for.
    pub fn find(&self, name: &str) -> (r: Option<usize>)
        ensures
            match r {
                Some(i) => lookup(self@, name@) == Some(i as int),
                None => lookup(self@, name@) is None,
            },
    {
        let mut found: Option<usize> = None;
        let mut k: usize = 0;
        while k < self.entries.len()
            invariant
                k <= self.entries.len(),
                match found {
                    Some(i) => lookup(self@.take(k as int), name@) == Some(i as int),
                    None => lookup(self@.take(k as int), name@) is None,
                },
            decreases self.entries.len() - k,
        {
            proof {
                let before = names(self@.take(k as int));
                let after = names(self@.take(k + 1));
                assert(after.drop_last() =~= before);
            }
            if same_text(self.entries[k].name.as_str(), name) {
                found = Some(k);
            }
            k = k + 1;
        }
        assert(self@.take(k as int) =~= self@);
        found
    }

    /// The backends that offer the package of a given name, in the fixed
    /// order, each with its descriptor. A name that no entry bears, and an
    /// entry that offers no backend, are two different failures.
    pub fn resolve(&self, name: &str) -> (r: Result<Vec<Candidate>, EngineError>)
        ensures
            match r {
                Ok(list) => resolve_spec(self@, name@) == Ok::<Seq<CandidateView>, ErrorView>(
                    candidate_views(list@),
                ),
                Err(e) => resolve_spec(self@, name@) == Err::<Seq<CandidateView>, ErrorView>(e@),
            },
    {
        match self.find(name) {
            None => Err(EngineError::PackageNotFound { name: copy_text(name) }),
            Some(i) => {
                proof {
                    lemma_lookup(self@, name@);
                }
                let list = self.entries[i].candidates();
                assert(candidate_views(list@).len() == list.len());
                if list.len() == 0 {
                    Err(EngineError::NoInstallCandidate { name: copy_text(name) })
                } else {
                    Ok(list)
                }
            },
        }
    }
}

} // verus!
