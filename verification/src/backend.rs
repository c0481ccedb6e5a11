//! How a system package manager is called: the name of its program, and
//! the words that follow it.

use crate::format::Format;
use crate::text::{copy_text, texts};
use vstd::prelude::*;

verus! {

impl Format {
    /// The name of the program that serves a backend.
    pub open spec fn tool_spec(self) -> Seq<char> {
        match self {
            Format::Dnf => "dnf"@,
            Format::Apt => "apt"@,
            Format::Pacman => "pacman"@,
            Format::Aur => "yay"@,
            Format::Flathub => "flatpak"@,
            Format::AppImage => "appimage"@,
            Format::GitHub => "git"@,
        }
    }

    /// The name of the program that serves a backend.
    pub fn tool(self) -> (r: &'static str)
        ensures
            r@ == self.tool_spec(),
    {
        match self {
            Format::Dnf => "dnf",
            Format::Apt => "apt",
            Format::Pacman => "pacman",
            Format::Aur => "yay",
            Format::Flathub => "flatpak",
            Format::AppImage => "appimage",
            Format::GitHub => "git",
        }
    }
}

/// The word by which a package manager is told to install, or to remove.
pub open spec fn verb_spec(method: Format, removal: bool) -> Seq<char> {
    match method {
        Format::Pacman | Format::Aur => if removal {
            "-R"@
        } else {
            "-S"@
        },
        Format::Flathub => if removal {
            "uninstall"@
        } else {
            "install"@
        },
        _ => if removal {
            "remove"@
        } else {
            "install"@
        },
    }
}

/// The arguments with which the program of a system package manager is
/// called for a package: the verb, then the token. An installation from
/// Flathub names its remote between the two.
pub open spec fn arguments_spec(method: Format, removal: bool, token: Seq<char>) -> Seq<Seq<char>> {
    if method == Format::Flathub && !removal {
        seq![verb_spec(method, removal), "flathub"@, token]
    } else {
        seq![verb_spec(method, removal), token]
    }
}

/// The word by which a package manager is told to install, or to remove.
pub fn verb(method: Format, removal: bool) -> (r: &'static str)
    ensures
        r@ == verb_spec(method, removal),
{
    match method {
        Format::Pacman | Format::Aur => if removal {
            "-R"
        } else {
            "-S"
        },
        Format::Flathub => if removal {
            "uninstall"
        } else {
            "install"
        },
        _ => if removal {
            "remove"
        } else {
            "install"
        },
    }
}

/// The arguments with which the program of a system package manager is
/// called for a package.
pub fn arguments(method: Format, removal: bool, token: &str) -> (r: Vec<String>)
    ensures
        texts(r@) == arguments_spec(method, removal, token@),
{
    let mut out: Vec<String> = Vec::new();
    out.push(copy_text(verb(method, removal)));
    if method == Format::Flathub && !removal {
        out.push(copy_text("flathub"));
    }
    out.push(copy_text(token));
    out
}

} // verus!
