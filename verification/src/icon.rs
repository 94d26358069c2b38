//! Icon theme selection from the desktop's settings files, and the order in which
//! icon lookups are tried.
use vstd::prelude::*;

use crate::text::{
    chars_eq, chars_of, has_prefix, split_on, split_trimmed, starts_with, string_from, sub_vec, trim,
};

verus! {

/// Icon size, in pixels, that lookups ask for (larger than shown, scaled down).
pub const ICON_SIZE: u16 = 64;

/// `s` with every leading repetition of `p` removed (`str::trim_start_matches`).
pub open spec fn strip_all_prefixes(s: Seq<char>, p: Seq<char>) -> Seq<char>
    decreases s.len(),
{
    if p.len() > 0 && has_prefix(s, p) {
        strip_all_prefixes(s.subrange(p.len() as int, s.len() as int), p)
    } else {
        s
    }
}

/// The theme of the `[Icons]` section of KDE's settings, scanning the trimmed lines
/// from the `i`-th on; `in_icons` tells whether that line lies in the section.
pub open spec fn kde_scan(lines: Seq<Seq<char>>, i: int, in_icons: bool) -> Option<Seq<char>>
    decreases lines.len() - i,
{
    if i < 0 || i >= lines.len() {
        None
    } else {
        let l = trim(lines[i]);
        if l.len() > 0 && l[0] == '[' {
            kde_scan(lines, i + 1, l == "[Icons]"@)
        } else if in_icons && has_prefix(l, "Theme="@) {
            Some(strip_all_prefixes(l, "Theme="@))
        } else {
            kde_scan(lines, i + 1, in_icons)
        }
    }
}

/// The value of the first `key` line among the trimmed lines from the `i`-th on.
pub open spec fn key_scan(lines: Seq<Seq<char>>, i: int, key: Seq<char>) -> Option<Seq<char>>
    decreases lines.len() - i,
{
    if i < 0 || i >= lines.len() {
        None
    } else {
        let l = trim(lines[i]);
        if has_prefix(l, key) {
            Some(strip_all_prefixes(l, key))
        } else {
            key_scan(lines, i + 1, key)
        }
    }
}

/// The icon theme that KDE's `kdeglobals` names.
pub open spec fn kde_theme(content: Seq<char>) -> Option<Seq<char>> {
    kde_scan(split_on(content, '\n'), 0, false)
}

/// The icon theme that a GTK `settings.ini` names.
pub open spec fn gtk_theme(content: Seq<char>) -> Option<Seq<char>> {
    key_scan(split_on(content, '\n'), 0, "gtk-icon-theme-name="@)
}

fn strip_all(s: &Vec<char>, p: &Vec<char>) -> (r: Vec<char>)
    requires
        p.len() > 0,
    ensures
        r@ == strip_all_prefixes(s@, p@),
{
    let mut cur = sub_vec(s, 0, s.len());
    assert(s@.subrange(0, s.len() as int) == s@);
    while starts_with(&cur, p)
        invariant
            p.len() > 0,
            strip_all_prefixes(cur@, p@) == strip_all_prefixes(s@, p@),
        decreases cur.len(),
    {
        cur = sub_vec(&cur, p.len(), cur.len());
    }
    cur
}

/// The icon theme named in the `[Icons]` section of KDE's `kdeglobals` content.
pub fn kde_icon_theme(content: &str) -> (t: Option<String>)
    ensures
        match kde_theme(content@) {
            Some(x) => t matches Some(v) && v@ == x,
            None => t is None,
        },
{
    let lines = split_trimmed(&chars_of(content), '\n');
    let icons = chars_of("[Icons]");
    let key = chars_of("Theme=");
    proof {
        reveal_strlit("Theme=");
    }
    let ghost all = split_on(content@, '\n');
    let mut in_icons = false;
    let mut i: usize = 0;
    while i < lines.len()
        invariant
            i <= lines.len() == all.len(),
            all == split_on(content@, '\n'),
            forall|k: int| 0 <= k < lines.len() ==> (#[trigger] lines[k])@ == trim(all[k]),
            icons@ == "[Icons]"@,
            key@ == "Theme="@,
            key.len() > 0,
            kde_scan(all, 0, false) == kde_scan(all, i as int, in_icons),
        decreases lines.len() - i,
    {
        let line = &lines[i];
        assert(line@ == trim(all[i as int]));
        if line.len() > 0 && line[0] == '[' {
            in_icons = chars_eq(line, &icons);
        } else if in_icons && starts_with(line, &key) {
            return Some(string_from(&strip_all(line, &key)));
        }
        i = i + 1;
    }
    None
}

/// The icon theme named by the `gtk-icon-theme-name=` line of a GTK `settings.ini`.
pub fn gtk_icon_theme(content: &str) -> (t: Option<String>)
    ensures
        match gtk_theme(content@) {
            Some(x) => t matches Some(v) && v@ == x,
            None => t is None,
        },
{
    let lines = split_trimmed(&chars_of(content), '\n');
    let key = chars_of("gtk-icon-theme-name=");
    proof {
        reveal_strlit("gtk-icon-theme-name=");
    }
    let ghost all = split_on(content@, '\n');
    let mut i: usize = 0;
    while i < lines.len()
        invariant
            i <= lines.len() == all.len(),
            all == split_on(content@, '\n'),
            forall|k: int| 0 <= k < lines.len() ==> (#[trigger] lines[k])@ == trim(all[k]),
            key@ == "gtk-icon-theme-name="@,
            key.len() > 0,
            key_scan(all, 0, key@) == key_scan(all, i as int, key@),
        decreases lines.len() - i,
    {
        let line = &lines[i];
        assert(line@ == trim(all[i as int]));
        if starts_with(line, &key) {
            return Some(string_from(&strip_all(line, &key)));
        }
        i = i + 1;
    }
    None
}

/// The configured icon theme: KDE's, else GTK 3's, else GTK 4's, from the contents of
/// their settings files (none where a file could not be read).
pub fn get_icon_theme(kde: Option<&str>, gtk3: Option<&str>, gtk4: Option<&str>) -> (t: Option<String>)
    ensures
        match (
            match kde {
                Some(c) => kde_theme(c@),
                None => None,
            },
            match gtk3 {
                Some(c) => gtk_theme(c@),
                None => None,
            },
            match gtk4 {
                Some(c) => gtk_theme(c@),
                None => None,
            },
        ) {
            (Some(x), _, _) => t matches Some(v) && v@ == x,
            (None, Some(x), _) => t matches Some(v) && v@ == x,
            (None, None, Some(x)) => t matches Some(v) && v@ == x,
            (None, None, None) => t is None,
        },
{
    if let Some(content) = kde {
        if let Some(theme) = kde_icon_theme(content) {
            return Some(theme);
        }
    }
    if let Some(content) = gtk3 {
        if let Some(theme) = gtk_icon_theme(content) {
            return Some(theme);
        }
    }
    if let Some(content) = gtk4 {
        if let Some(theme) = gtk_icon_theme(content) {
            return Some(theme);
        }
    }
    None
}

/// How an icon name is resolved.
#[derive(Debug)]
pub enum IconLookup {
    /// An absolute path, used when the file exists.
    Absolute,
    /// Theme lookups in this order, the first hit winning; `None` asks for no theme.
    Themes(Vec<Option<String>>),
}

/// The themes tried, in order: the configured one (if any), `hicolor`, then none.
pub open spec fn lookup_order(v: Seq<Option<String>>, theme: Option<String>) -> bool {
    let k: int = if theme is Some {
        1
    } else {
        0
    };
    &&& v.len() == k + 2
    &&& theme matches Some(t) ==> v[0] == Some(t)
    &&& v[k] matches Some(h) && h@ == "hicolor"@
    &&& v[k + 1] is None
}

/// How to resolve `icon_name`: an absolute path stands for itself; otherwise the
/// configured theme (if any), then `hicolor`, then no theme at all.
pub fn resolve_icon_internal(icon_name: &str, theme: Option<String>) -> (l: IconLookup)
    ensures
        (icon_name@.len() > 0 && icon_name@[0] == '/') <==> l is Absolute,
        l matches IconLookup::Themes(v) ==> lookup_order(v@, theme),
{
    let name = chars_of(icon_name);
    if name.len() > 0 && name[0] == '/' {
        return IconLookup::Absolute;
    }
    let mut order: Vec<Option<String>> = Vec::new();
    if let Some(t) = theme {
        order.push(Some(t));
    }
    order.push(Some(string_from(&chars_of("hicolor"))));
    order.push(None);
    IconLookup::Themes(order)
}

} // verus!
