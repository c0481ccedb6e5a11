//! Catalog entries: a package and the descriptors of the backends that
//! offer it.

use crate::format::Format;
use crate::text::{copy_texts, texts};
use vstd::prelude::*;

verus! {

/// How a package is had as an AppImage: where the image is downloaded from,
/// and the name under which it is kept.
#[derive(Debug, PartialEq, Eq)]
pub struct AppImageInfo {
    pub link: String,
    pub name: String,
}

/// An [`AppImageInfo`] with its texts as sequences of characters.
pub struct AppImageView {
    pub link: Seq<char>,
    pub name: Seq<char>,
}

impl View for AppImageInfo {
    type V = AppImageView;

    open spec fn view(&self) -> AppImageView {
        AppImageView { link: self.link@, name: self.name@ }
    }
}

impl Clone for AppImageInfo {
    fn clone(&self) -> (r: Self)
        ensures
            r@ == self@,
    {
        AppImageInfo { link: self.link.clone(), name: self.name.clone() }
    }
}

/// How a package is built from a hosted repository: the repository, the
/// commands that build it, the commands that take it away again, and the
/// packages that must be installed first.
#[derive(Debug, PartialEq, Eq)]
pub struct GitHubInfo {
    pub repo: String,
    pub steps: Vec<String>,
    pub uninstall_steps: Vec<String>,
    pub deps: Vec<String>,
}

/// A [`GitHubInfo`] with its texts as sequences of characters.
pub struct GitHubView {
    pub repo: Seq<char>,
    pub steps: Seq<Seq<char>>,
    pub uninstall_steps: Seq<Seq<char>>,
    pub deps: Seq<Seq<char>>,
}

impl View for GitHubInfo {
    type V = GitHubView;

    open spec fn view(&self) -> GitHubView {
        GitHubView {
            repo: self.repo@,
            steps: texts(self.steps@),
            uninstall_steps: texts(self.uninstall_steps@),
            deps: texts(self.deps@),
        }
    }
}

impl Clone for GitHubInfo {
    fn clone(&self) -> (r: Self)
        ensures
            r@ == self@,
    {
        GitHubInfo {
            repo: self.repo.clone(),
            steps: copy_texts(&self.steps),
            uninstall_steps: copy_texts(&self.uninstall_steps),
            deps: copy_texts(&self.deps),
        }
    }
}

/// The descriptors of a package, one for each backend. An empty text says
/// that the backend does not offer the package.
#[derive(Debug, PartialEq, Eq)]
pub struct FormatInfo {
    pub dnf: String,
    pub apt: String,
    pub pacman: String,
    pub aur: String,
    pub flathub: String,
    pub appimage: AppImageInfo,
    pub github: GitHubInfo,
}

/// A [`FormatInfo`] with its texts as sequences of characters.
pub struct FormatView {
    pub dnf: Seq<char>,
    pub apt: Seq<char>,
    pub pacman: Seq<char>,
    pub aur: Seq<char>,
    pub flathub: Seq<char>,
    pub appimage: AppImageView,
    pub github: GitHubView,
}

impl View for FormatInfo {
    type V = FormatView;

    open spec fn view(&self) -> FormatView {
        FormatView {
            dnf: self.dnf@,
            apt: self.apt@,
            pacman: self.pacman@,
            aur: self.aur@,
            flathub: self.flathub@,
            appimage: self.appimage@,
            github: self.github@,
        }
    }
}

impl Clone for FormatInfo {
    fn clone(&self) -> (r: Self)
        ensures
            r@ == self@,
    {
        FormatInfo {
            dnf: self.dnf.clone(),
            apt: self.apt.clone(),
            pacman: self.pacman.clone(),
            aur: self.aur.clone(),
            flathub: self.flathub.clone(),
            appimage: self.appimage.clone(),
            github: self.github.clone(),
        }
    }
}

/// One entry of the catalog.
#[derive(Debug, PartialEq, Eq)]
pub struct Package {
    pub name: String,
    pub install: FormatInfo,
}

/// A [`Package`] with its texts as sequences of characters.
pub struct PackageView {
    pub name: Seq<char>,
    pub install: FormatView,
}

impl View for Package {
    type V = PackageView;

    open spec fn view(&self) -> PackageView {
        PackageView { name: self.name@, install: self.install@ }
    }
}

impl Clone for Package {
    fn clone(&self) -> (r: Self)
        ensures
            r@ == self@,
    {
        Package { name: self.name.clone(), install: self.install.clone() }
    }
}

/// What a backend needs to know of a package.
#[derive(Debug, PartialEq, Eq)]
pub enum Descriptor {
    /// The identifier handed to a system package manager.
    Token(String),
    AppImage(AppImageInfo),
    GitHub(GitHubInfo),
}

/// A [`Descriptor`] with its texts as sequences of characters.
pub enum DescriptorView {
    Token(Seq<char>),
    AppImage(AppImageView),
    GitHub(GitHubView),
}

impl View for Descriptor {
    type V = DescriptorView;

    open spec fn view(&self) -> DescriptorView {
        match *self {
            Descriptor::Token(token) => DescriptorView::Token(token@),
            Descriptor::AppImage(info) => DescriptorView::AppImage(info@),
            Descriptor::GitHub(info) => DescriptorView::GitHub(info@),
        }
    }
}

/// A backend that offers a package, with its descriptor.
#[derive(Debug, PartialEq, Eq)]
pub struct Candidate {
    pub method: Format,
    pub descriptor: Descriptor,
}

/// A [`Candidate`] with its texts as sequences of characters.
pub struct CandidateView {
    pub method: Format,
    pub descriptor: DescriptorView,
}

impl View for Candidate {
    type V = CandidateView;

    open spec fn view(&self) -> CandidateView {
        CandidateView { method: self.method, descriptor: self.descriptor@ }
    }
}

/// The candidates of a list, each by its view.
pub open spec fn candidate_views(list: Seq<Candidate>) -> Seq<CandidateView> {
    Seq::new(list.len(), |i: int| list[i]@)
}

impl PackageView {
    /// The identifier that the entry gives for a system package manager; for
    /// the other backends, their primary field: the download link, or the
    /// repository.
    pub open spec fn token(self, method: Format) -> Seq<char> {
        match method {
            Format::Dnf => self.install.dnf,
            Format::Apt => self.install.apt,
            Format::Pacman => self.install.pacman,
            Format::Aur => self.install.aur,
            Format::Flathub => self.install.flathub,
            Format::AppImage => self.install.appimage.link,
            Format::GitHub => self.install.github.repo,
        }
    }

    /// Whether the entry offers the backend: its primary field is not empty.
    pub open spec fn offers(self, method: Format) -> bool {
        self.token(method).len() > 0
    }

    /// The backends on offer among the first `bound` of the fixed order.
    pub open spec fn formats_below(self, bound: int) -> Seq<Format>
        decreases bound,
    {
        if bound <= 0 {
            Seq::empty()
        } else if self.offers(Format::at_rank(bound - 1)) {
            self.formats_below(bound - 1).push(Format::at_rank(bound - 1))
        } else {
            self.formats_below(bound - 1)
        }
    }

    /// The backends that offer the package, in the fixed order.
    pub open spec fn formats(self) -> Seq<Format> {
        self.formats_below(7)
    }

    /// What the entry holds for a backend.
    pub open spec fn descriptor(self, method: Format) -> DescriptorView {
        match method {
            Format::AppImage => DescriptorView::AppImage(self.install.appimage),
            Format::GitHub => DescriptorView::GitHub(self.install.github),
            _ => DescriptorView::Token(self.token(method)),
        }
    }

    /// The backends that offer the package, each with its descriptor.
    pub open spec fn candidates(self) -> Seq<CandidateView> {
        Seq::new(
            self.formats().len(),
            |i: int|
                CandidateView {
                    method: self.formats()[i],
                    descriptor: self.descriptor(self.formats()[i]),
                },
        )
    }

    /// Whether some backend offers the package.
    pub open spec fn resolvable(self) -> bool {
        self.formats().len() > 0
    }
}

/// The offers among the first `bound` backends are all made by the entry,
/// come in strictly rising rank, and leave out no backend that the entry
/// offers.
pub proof fn lemma_formats_below(entry: PackageView, bound: int)
    requires
        0 <= bound <= 7,
    ensures
        forall|i: int|
            0 <= i < entry.formats_below(bound).len() ==> {
                &&& entry.offers(#[trigger] entry.formats_below(bound)[i])
                &&& entry.formats_below(bound)[i].rank() < bound
            },
        forall|i: int, j: int|
            0 <= i < j < entry.formats_below(bound).len() ==> entry.formats_below(bound)[i].rank()
                < entry.formats_below(bound)[j].rank(),
        forall|method: Format|
            entry.offers(method) && method.rank() < bound ==> entry.formats_below(
                bound,
            ).contains(method),
        entry.formats_below(bound).len() <= bound,
    decreases bound,
{
    if bound > 0 {
        lemma_formats_below(entry, bound - 1);
        let rest = entry.formats_below(bound - 1);
        let here = Format::at_rank(bound - 1);
        let all = entry.formats_below(bound);
        assert forall|method: Format| entry.offers(method) && method.rank() < bound implies all.contains(
            method,
        ) by {
            if method.rank() < bound - 1 {
                assert(rest.contains(method));
                let k = choose|k: int| 0 <= k < rest.len() && rest[k] == method;
                assert(all[k] == method);
            } else {
                assert(method == here);
                assert(all[all.len() - 1] == method);
            }
        }
    }
}

/// The list of backends on offer never holds a backend whose primary field
/// is empty, holds every backend whose primary field is not, and is ordered
/// Dnf, Apt, Pacman, Aur, Flathub, AppImage, GitHub.
pub proof fn lemma_formats(entry: PackageView)
    ensures
        forall|i: int|
            0 <= i < entry.formats().len() ==> entry.offers(#[trigger] entry.formats()[i]),
        forall|i: int, j: int|
            0 <= i < j < entry.formats().len() ==> entry.formats()[i].rank()
                < entry.formats()[j].rank(),
        forall|method: Format| entry.offers(method) <==> entry.formats().contains(method),
        entry.formats().len() <= 7,
{
    lemma_formats_below(entry, 7);
    assert forall|method: Format| entry.formats().contains(method) implies entry.offers(
        method,
    ) by {
        let k = choose|k: int| 0 <= k < entry.formats().len() && entry.formats()[k] == method;
        assert(entry.offers(entry.formats()[k]));
    }
}

impl Package {
    /// The identifier that the entry gives for a system package manager; for
    /// the other backends, their primary field.
    pub fn token(&self, method: Format) -> (r: &String)
        ensures
            r@ == self@.token(method),
    {
        match method {
            Format::Dnf => &self.install.dnf,
            Format::Apt => &self.install.apt,
            Format::Pacman => &self.install.pacman,
            Format::Aur => &self.install.aur,
            Format::Flathub => &self.install.flathub,
            Format::AppImage => &self.install.appimage.link,
            Format::GitHub => &self.install.github.repo,
        }
    }

    /// Whether the entry offers the backend.
    pub fn offers(&self, method: Format) -> (r: bool)
        ensures
            r == self@.offers(method),
    {
        !self.token(method).as_str().is_empty()
    }

    /// The backends that offer the package, in the fixed order.
    pub fn formats(&self) -> (r: Vec<Format>)
        ensures
            r@ == self@.formats(),
    {
        let order: [Format; 7] = [
            Format::Dnf,
            Format::Apt,
            Format::Pacman,
            Format::Aur,
            Format::Flathub,
            Format::AppImage,
            Format::GitHub,
        ];
        let mut out: Vec<Format> = Vec::new();
        let mut k: usize = 0;
        while k < 7
            invariant
                k <= 7,
                order.len() == 7,
                forall|i: int| 0 <= i < 7 ==> order[i] == Format::at_rank(i),
                out@ == self@.formats_below(k as int),
            decreases 7 - k,
        {
            if self.offers(order[k]) {
                out.push(order[k]);
            }
            k = k + 1;
        }
        out
    }

    /// What the entry holds for a backend.
    pub fn descriptor(&self, method: Format) -> (r: Descriptor)
        ensures
            r@ == self@.descriptor(method),
    {
        match method {
            Format::AppImage => Descriptor::AppImage(self.install.appimage.clone()),
            Format::GitHub => Descriptor::GitHub(self.install.github.clone()),
            _ => Descriptor::Token(self.token(method).clone()),
        }
    }

    /// The backends that offer the package, in the fixed order, each with
    /// its descriptor.
    pub fn candidates(&self) -> (r: Vec<Candidate>)
        ensures
            candidate_views(r@) == self@.candidates(),
    {
        let methods = self.formats();
        let mut out: Vec<Candidate> = Vec::new();
        let mut i: usize = 0;
        while i < methods.len()
            invariant
                i <= methods.len(),
                methods@ == self@.formats(),
                out.len() == i,
                forall|k: int|
                    0 <= k < i ==> out[k]@ == (CandidateView {
                        method: methods[k],
                        descriptor: self@.descriptor(methods[k]),
                    }),
            decreases methods.len() - i,
        {
            let method = methods[i];
            out.push(Candidate { method, descriptor: self.descriptor(method) });
            i = i + 1;
        }
        assert(candidate_views(out@) =~= self@.candidates());
        out
    }
}

} // verus!
