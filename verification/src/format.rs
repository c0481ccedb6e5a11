//! The closed set of installation backends.

use crate::text::same_text;
use vstd::prelude::*;

verus! {

/// One of the supported installation backends.
#[derive(Clone, Copy, Debug, PartialEq, Eq, Structural)]
pub enum Format {
    Dnf,
    Apt,
    Pacman,
    Aur,
    Flathub,
    AppImage,
    GitHub,
}

impl Format {
    /// Position of the backend in the fixed order in which backends are offered.
    pub open spec fn rank(self) -> int {
        match self {
            Format::Dnf => 0,
            Format::Apt => 1,
            Format::Pacman => 2,
            Format::Aur => 3,
            Format::Flathub => 4,
            Format::AppImage => 5,
            Format::GitHub => 6,
        }
    }

    /// The backend at a given position of the fixed order.
    pub open spec fn at_rank(rank: int) -> Format {
        if rank == 0 {
            Format::Dnf
        } else if rank == 1 {
            Format::Apt
        } else if rank == 2 {
            Format::Pacman
        } else if rank == 3 {
            Format::Aur
        } else if rank == 4 {
            Format::Flathub
        } else if rank == 5 {
            Format::AppImage
        } else {
            Format::GitHub
        }
    }

    /// Whether the backend is a system package manager, driven by a single
    /// identifier token.
    pub open spec fn is_system(self) -> bool {
        self.rank() <= 4
    }

    /// Executable form of [`Format::is_system`].
    pub fn uses_token(self) -> (r: bool)
        ensures
            r == self.is_system(),
    {
        match self {
            Format::AppImage => false,
            Format::GitHub => false,
            _ => true,
        }
    }

    /// The word that names the backend in the installed-package document.
    pub open spec fn token_spec(self) -> Seq<char> {
        match self {
            Format::Dnf => "Dnf"@,
            Format::Apt => "Apt"@,
            Format::Pacman => "Pacman"@,
            Format::Aur => "Aur"@,
            Format::Flathub => "Flathub"@,
            Format::AppImage => "AppImage"@,
            Format::GitHub => "GitHub"@,
        }
    }

    /// The word that names the backend in the installed-package document.
    pub fn token(self) -> (r: &'static str)
        ensures
            r@ == self.token_spec(),
    {
        match self {
            Format::Dnf => "Dnf",
            Format::Apt => "Apt",
            Format::Pacman => "Pacman",
            Format::Aur => "Aur",
            Format::Flathub => "Flathub",
            Format::AppImage => "AppImage",
            Format::GitHub => "GitHub",
        }
    }

    /// The backend that a word of the installed-package document names.
    pub open spec fn from_token_spec(text: Seq<char>) -> Option<Format> {
        if text == "Dnf"@ {
            Some(Format::Dnf)
        } else if text == "Apt"@ {
            Some(Format::Apt)
        } else if text == "Pacman"@ {
            Some(Format::Pacman)
        } else if text == "Aur"@ {
            Some(Format::Aur)
        } else if text == "Flathub"@ {
            Some(Format::Flathub)
        } else if text == "AppImage"@ {
            Some(Format::AppImage)
        } else if text == "GitHub"@ {
            Some(Format::GitHub)
        } else {
            None
        }
    }

    /// The backend that a word of the installed-package document names.
    pub fn from_token(text: &str) -> (r: Option<Format>)
        ensures
            r == Format::from_token_spec(text@),
    {
        if same_text(text, "Dnf") {
            Some(Format::Dnf)
        } else if same_text(text, "Apt") {
            Some(Format::Apt)
        } else if same_text(text, "Pacman") {
            Some(Format::Pacman)
        } else if same_text(text, "Aur") {
            Some(Format::Aur)
        } else if same_text(text, "Flathub") {
            Some(Format::Flathub)
        } else if same_text(text, "AppImage") {
            Some(Format::AppImage)
        } else if same_text(text, "GitHub") {
            Some(Format::GitHub)
        } else {
            None
        }
    }
}

/// The word that names a backend names that backend and no other.
pub proof fn lemma_token_round_trip(method: Format)
    ensures
        Format::from_token_spec(method.token_spec()) == Some(method),
{
    reveal_strlit("Dnf");
    reveal_strlit("Apt");
    reveal_strlit("Pacman");
    reveal_strlit("Aur");
    reveal_strlit("Flathub");
    reveal_strlit("AppImage");
    reveal_strlit("GitHub");
    assert("Dnf"@[0] == 'D' && "Dnf"@.len() == 3);
    assert("Apt"@[0] == 'A' && "Apt"@[1] == 'p' && "Apt"@.len() == 3);
    assert("Pacman"@[0] == 'P' && "Pacman"@.len() == 6);
    assert("Aur"@[0] == 'A' && "Aur"@[1] == 'u' && "Aur"@.len() == 3);
    assert("Flathub"@[0] == 'F' && "Flathub"@.len() == 7);
    assert("AppImage"@[0] == 'A' && "AppImage"@.len() == 8);
    assert("GitHub"@[0] == 'G' && "GitHub"@.len() == 6);
}

} // verus!
