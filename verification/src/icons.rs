//! Icons of the Phosphor set that the launcher shows.
use vstd::prelude::*;

use crate::text::{chars_eq, chars_of};

verus! {

/// A Phosphor icon.
#[derive(Clone, Copy, Debug, PartialEq, Eq, Structural)]
pub enum PhosphorIcon {
    MagnifyingGlass,
    GoogleLogo,
    YoutubeLogo,
    BookOpen,
    Globe,
    File,
    FileImage,
    FileText,
    ClipboardText,
    Clipboard,
    Image,
    Smiley,
    Palette,
}

/// The icon that a kebab-case name designates.
pub open spec fn icon_named(name: Seq<char>) -> Option<PhosphorIcon> {
    if name == "magnifying-glass"@ {
        Some(PhosphorIcon::MagnifyingGlass)
    } else if name == "google-logo"@ {
        Some(PhosphorIcon::GoogleLogo)
    } else if name == "youtube-logo"@ {
        Some(PhosphorIcon::YoutubeLogo)
    } else if name == "book-open"@ {
        Some(PhosphorIcon::BookOpen)
    } else if name == "globe"@ {
        Some(PhosphorIcon::Globe)
    } else if name == "file"@ {
        Some(PhosphorIcon::File)
    } else if name == "file-image"@ {
        Some(PhosphorIcon::FileImage)
    } else if name == "file-text"@ {
        Some(PhosphorIcon::FileText)
    } else if name == "clipboard-text"@ {
        Some(PhosphorIcon::ClipboardText)
    } else if name == "clipboard"@ {
        Some(PhosphorIcon::Clipboard)
    } else if name == "image"@ {
        Some(PhosphorIcon::Image)
    } else if name == "smiley"@ {
        Some(PhosphorIcon::Smiley)
    } else if name == "palette"@ {
        Some(PhosphorIcon::Palette)
    } else {
        None
    }
}

fn is_named(name: &Vec<char>, lit: &str) -> (b: bool)
    ensures
        b == (name@ == lit@),
{
    chars_eq(name, &chars_of(lit))
}

impl PhosphorIcon {
    /// The icon with the given kebab-case name, if there is one.
    pub fn from_name(name: &Vec<char>) -> (r: Option<PhosphorIcon>)
        ensures
            r == icon_named(name@),
    {
        if is_named(name, "magnifying-glass") {
            Some(PhosphorIcon::MagnifyingGlass)
        } else if is_named(name, "google-logo") {
            Some(PhosphorIcon::GoogleLogo)
        } else if is_named(name, "youtube-logo") {
            Some(PhosphorIcon::YoutubeLogo)
        } else if is_named(name, "book-open") {
            Some(PhosphorIcon::BookOpen)
        } else if is_named(name, "globe") {
            Some(PhosphorIcon::Globe)
        } else if is_named(name, "file") {
            Some(PhosphorIcon::File)
        } else if is_named(name, "file-image") {
            Some(PhosphorIcon::FileImage)
        } else if is_named(name, "file-text") {
            Some(PhosphorIcon::FileText)
        } else if is_named(name, "clipboard-text") {
            Some(PhosphorIcon::ClipboardText)
        } else if is_named(name, "clipboard") {
            Some(PhosphorIcon::Clipboard)
        } else if is_named(name, "image") {
            Some(PhosphorIcon::Image)
        } else if is_named(name, "smiley") {
            Some(PhosphorIcon::Smiley)
        } else if is_named(name, "palette") {
            Some(PhosphorIcon::Palette)
        } else {
            None
        }
    }
}

} // verus!
