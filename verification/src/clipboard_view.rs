//! Text shown by the clipboard history: file URLs of copied files and the age of an
//! entry.
use vstd::prelude::*;
use vstd::utf8::{decode_utf8, encode_utf8, valid_utf8};

use crate::color::{
    color_parse_result, dec_string, dec_usize, hex_cuts_character, hex_digit_value, parse_color,
    Color,
};
use crate::file_type::{extension_opt, path_extension_opt};
use crate::icons::PhosphorIcon;
use crate::text::{
    chars_eq, chars_of, concat_chars, has_prefix, lowercase, starts_with, string_from, sub_vec,
    to_lowercase, trim, trim_str,
};

verus! {

/// Percent-decoding of bytes as `urlencoding::decode_binary` does it: `%` and two
/// hexadecimal digits give one byte; a `%` without them stays as it is.
pub open spec fn percent_decode(bs: Seq<u8>) -> Seq<u8>
    decreases bs.len(),
{
    if bs.len() == 0 {
        bs
    } else if bs[0] == 0x25 {
        if bs.len() < 3 {
            bs
        } else if hex_digit_value(bs[1]) >= 0 && hex_digit_value(bs[2]) >= 0 {
            seq![(16 * hex_digit_value(bs[1]) + hex_digit_value(bs[2])) as u8] + percent_decode(
                bs.subrange(3, bs.len() as int),
            )
        } else if hex_digit_value(bs[1]) >= 0 {
            seq![0x25u8, bs[1]] + percent_decode(bs.subrange(2, bs.len() as int))
        } else {
            seq![0x25u8] + percent_decode(bs.subrange(1, bs.len() as int))
        }
    } else {
        seq![bs[0]] + percent_decode(bs.drop_first())
    }
}

/// `urlencoding::decode`: the percent-decoded bytes of `data`'s UTF-8 encoding, as a
/// string when they are valid UTF-8 (its `FromUtf8Error` otherwise, here `None`).
#[verifier::external_body]
fn url_decode(data: &str) -> (r: Option<String>)
    ensures
        match r {
            Some(s) => valid_utf8(percent_decode(encode_utf8(data@))) && encode_utf8(s@)
                == percent_decode(encode_utf8(data@)),
            None => !valid_utf8(percent_decode(encode_utf8(data@))),
        },
{
    match urlencoding::decode(data) {
        Ok(s) => Some(s.into_owned()),
        Err(_) => None,
    }
}

/// The path that a `file://` URL names: what follows the prefix of the trimmed text,
/// percent-decoded when that gives valid UTF-8, else as it is.
pub open spec fn file_url_path(text: Seq<char>) -> Option<Seq<char>> {
    let t = trim(text);
    if has_prefix(t, "file://"@) {
        let rest = t.subrange(7, t.len() as int);
        let decoded = percent_decode(encode_utf8(rest));
        if valid_utf8(decoded) {
            Some(decode_utf8(decoded))
        } else {
            Some(rest)
        }
    } else {
        None
    }
}

/// The path that a `file://` URL names: what follows the prefix of the trimmed text,
/// percent-decoded when that gives valid UTF-8, else as it is.
pub fn parse_file_url(text: &str) -> (r: Option<String>)
    ensures
        match file_url_path(text@) {
            Some(p) => r matches Some(s) && s@ == p,
            None => r is None,
        },
{
    let t = trim_str(text);
    let prefix = chars_of("file://");
    proof {
        reveal_strlit("file://");
    }
    if starts_with(&t, &prefix) {
        let rest = sub_vec(&t, 7, t.len());
        let path = string_from(&rest);
        match url_decode(path.as_str()) {
            Some(decoded) => {
                proof {
                    vstd::utf8::encode_utf8_decode_utf8(decoded@);
                }
                Some(decoded)
            },
            None => Some(path),
        }
    } else {
        None
    }
}

/// `s` when `n` is more than one, else nothing.
pub open spec fn plural(n: nat) -> Seq<char> {
    if n > 1 {
        "s"@
    } else {
        Seq::empty()
    }
}

/// How old an entry looks: "Just now" under a minute, then minutes, then hours, and
/// "Earlier" from a day on or when its time lies in the future.
pub open spec fn age_text(elapsed_secs: Option<u64>) -> Seq<char> {
    match elapsed_secs {
        Some(s) => if s < 60 {
            "Just now"@
        } else if s < 3600 {
            dec_string((s / 60) as nat) + " min"@ + plural((s / 60) as nat) + " ago"@
        } else if s < 86400 {
            dec_string((s / 3600) as nat) + " hour"@ + plural((s / 3600) as nat) + " ago"@
        } else {
            "Earlier"@
        },
        None => "Earlier"@,
    }
}

fn small_dec(x: u64) -> (v: Vec<char>)
    requires
        x < 100,
    ensures
        v@ == dec_string(x as nat),
{
    let mut v: Vec<char> = Vec::new();
    if x >= 10 {
        v.push(((0x30 + x / 10) as u8) as char);
    }
    v.push(((0x30 + x % 10) as u8) as char);
    proof {
        let n = x as nat;
        if n >= 10 {
            assert(dec_string(n / 10) == seq![((0x30 + n / 10) as u8) as char]);
        }
    }
    v
}

/// The age text of an entry, from the seconds elapsed since it was copied (none when
/// that time lies in the future).
pub fn format_timestamp(elapsed_secs: Option<u64>) -> (s: String)
    ensures
        s@ == age_text(elapsed_secs),
{
    match elapsed_secs {
        Some(secs) => {
            if secs < 60 {
                return string_from(&chars_of("Just now"));
            } else if secs < 3600 {
                let mins = secs / 60;
                let mut v = concat_chars(&small_dec(mins), &chars_of(" min"));
                if mins > 1 {
                    v = concat_chars(&v, &chars_of("s"));
                } else {
                    proof {
                        assert(v@ + Seq::<char>::empty() == v@);
                    }
                }
                v = concat_chars(&v, &chars_of(" ago"));
                return string_from(&v);
            } else if secs < 86400 {
                let hours = secs / 3600;
                let mut v = concat_chars(&small_dec(hours), &chars_of(" hour"));
                if hours > 1 {
                    v = concat_chars(&v, &chars_of("s"));
                } else {
                    proof {
                        assert(v@ + Seq::<char>::empty() == v@);
                    }
                }
                v = concat_chars(&v, &chars_of(" ago"));
                return string_from(&v);
            }
            string_from(&chars_of("Earlier"))
        },
        None => string_from(&chars_of("Earlier")),
    }
}


/// What the clipboard holds.
#[derive(Debug)]
pub enum ClipboardContent {
    /// Plain text.
    Text(String),
    /// An image as RGBA pixels.
    Image { width: usize, height: usize, rgba_bytes: Vec<u8> },
    /// Copied files.
    FilePaths(Vec<String>),
    /// Rich text, with its plain-text version.
    RichText { plain: String },
}

/// The lower-case extensions that the clipboard view shows as images.
pub open spec fn clip_image_ext(e: Seq<char>) -> bool {
    ||| e == "png"@
    ||| e == "jpg"@
    ||| e == "jpeg"@
    ||| e == "gif"@
    ||| e == "webp"@
    ||| e == "svg"@
}

/// The lower-case extensions that the clipboard view shows as text.
pub open spec fn clip_text_ext(e: Seq<char>) -> bool {
    ||| e == "txt"@
    ||| e == "md"@
    ||| e == "rs"@
    ||| e == "py"@
    ||| e == "js"@
    ||| e == "ts"@
    ||| e == "json"@
    ||| e == "yaml"@
    ||| e == "yml"@
    ||| e == "toml"@
    ||| e == "html"@
    ||| e == "css"@
    ||| e == "sh"@
}

/// How the clipboard view treats a file.
#[derive(Clone, Copy, Debug, PartialEq, Eq, Structural)]
pub enum ClipFileKind {
    Image,
    Text,
    Other,
}

/// The kind of a file by the lower case of its extension.
pub open spec fn clip_file_kind(path: Seq<char>) -> ClipFileKind {
    match path_extension_opt(path) {
        Some(e) => if clip_image_ext(lowercase(e)) {
            ClipFileKind::Image
        } else if clip_text_ext(lowercase(e)) {
            ClipFileKind::Text
        } else {
            ClipFileKind::Other
        },
        None => ClipFileKind::Other,
    }
}

fn is_lit(v: &Vec<char>, s: &str) -> (b: bool)
    ensures
        b == (v@ == s@),
{
    chars_eq(v, &chars_of(s))
}

/// The kind of a file by the lower case of its extension.
pub fn file_kind(path: &str) -> (k: ClipFileKind)
    ensures
        k == clip_file_kind(path@),
{
    match extension_opt(path) {
        Some(e) => {
            let lower = chars_of(to_lowercase(string_from(&e).as_str()).as_str());
            if is_lit(&lower, "png") || is_lit(&lower, "jpg") || is_lit(&lower, "jpeg") || is_lit(
                &lower,
                "gif",
            ) || is_lit(&lower, "webp") || is_lit(&lower, "svg") {
                ClipFileKind::Image
            } else if is_lit(&lower, "txt") || is_lit(&lower, "md") || is_lit(&lower, "rs")
                || is_lit(&lower, "py") || is_lit(&lower, "js") || is_lit(&lower, "ts") || is_lit(
                &lower,
                "json",
            ) || is_lit(&lower, "yaml") || is_lit(&lower, "yml") || is_lit(&lower, "toml")
                || is_lit(&lower, "html") || is_lit(&lower, "css") || is_lit(&lower, "sh") {
                ClipFileKind::Text
            } else {
                ClipFileKind::Other
            }
        },
        None => ClipFileKind::Other,
    }
}

/// The icon of a file.
pub open spec fn file_icon(path: Seq<char>) -> PhosphorIcon {
    match clip_file_kind(path) {
        ClipFileKind::Image => PhosphorIcon::FileImage,
        ClipFileKind::Text => PhosphorIcon::FileText,
        ClipFileKind::Other => PhosphorIcon::File,
    }
}

/// The icon of a text that is no color: a file icon for a `file://` URL, else the
/// clipboard-text icon.
pub open spec fn text_icon(text: Seq<char>) -> PhosphorIcon {
    match file_url_path(text) {
        Some(p) => file_icon(p),
        None => PhosphorIcon::ClipboardText,
    }
}

/// What a clipboard entry shows as its icon.
#[derive(Debug, PartialEq, Eq)]
pub enum ClipIcon {
    /// A swatch of the color that the text names.
    Swatch(Color),
    /// An icon.
    Icon(PhosphorIcon),
}

/// The icon of a clipboard entry that holds no text.
pub open spec fn non_text_icon(content: ClipboardContent) -> PhosphorIcon {
    match content {
        ClipboardContent::Image { .. } => PhosphorIcon::Image,
        ClipboardContent::FilePaths(ps) => if ps@.len() == 1 {
            file_icon(ps@[0]@)
        } else {
            PhosphorIcon::File
        },
        _ => PhosphorIcon::ClipboardText,
    }
}

/// The color texts among the clipboard's text can be parsed without slicing inside a
/// character.
pub open spec fn content_parsable(content: ClipboardContent) -> bool {
    content matches ClipboardContent::Text(t) ==> !hex_cuts_character(t@)
}

fn icon_of_file(path: &str) -> (i: PhosphorIcon)
    ensures
        i == file_icon(path@),
{
    match file_kind(path) {
        ClipFileKind::Image => PhosphorIcon::FileImage,
        ClipFileKind::Text => PhosphorIcon::FileText,
        ClipFileKind::Other => PhosphorIcon::File,
    }
}

/// The icon of a clipboard entry: a color swatch for a color text, a file icon for a
/// `file://` URL or a single copied file, otherwise by the kind of content.
pub fn clipboard_icon<F: Fn(String) -> Option<u8>>(
    content: &ClipboardContent,
    parse_alpha: F,
) -> (r: ClipIcon)
    requires
        content_parsable(*content),
        forall|s: String| call_requires(parse_alpha, (s,)),
    ensures
        match *content {
            ClipboardContent::Text(t) => exists|o: Option<Color>|
                #[trigger] color_parse_result(t@, parse_alpha, o) && r == match o {
                    Some(c) => ClipIcon::Swatch(c),
                    None => ClipIcon::Icon(text_icon(t@)),
                },
            _ => r == ClipIcon::Icon(non_text_icon(*content)),
        },
{
    match content {
        ClipboardContent::Text(text) => {
            let color = parse_color(text.as_str(), parse_alpha);
            if let Some(c) = color {
                return ClipIcon::Swatch(c);
            }
            match parse_file_url(text.as_str()) {
                Some(path) => ClipIcon::Icon(icon_of_file(path.as_str())),
                None => ClipIcon::Icon(PhosphorIcon::ClipboardText),
            }
        },
        ClipboardContent::Image { .. } => ClipIcon::Icon(PhosphorIcon::Image),
        ClipboardContent::FilePaths(paths) => {
            if paths.len() == 1 {
                ClipIcon::Icon(icon_of_file(paths[0].as_str()))
            } else {
                ClipIcon::Icon(PhosphorIcon::File)
            }
        },
        ClipboardContent::RichText { .. } => ClipIcon::Icon(PhosphorIcon::ClipboardText),
    }
}

/// What the preview panel shows.
#[derive(Debug, PartialEq, Eq)]
pub enum Preview {
    /// Nothing is selected.
    Empty,
    /// A color with its codes.
    Swatch(Color),
    /// The image file at this path.
    ImageFile(String),
    /// The content of the text file at `path`, or `fallback` when it cannot be read.
    TextFile { path: String, fallback: String },
    /// This text.
    Text(String),
    /// The clipboard's image.
    RawImage,
    /// This path.
    Path(String),
    /// These paths, one per line.
    PathList(String),
}

/// `parts` joined by `sep`.
pub open spec fn join(parts: Seq<Seq<char>>, sep: Seq<char>) -> Seq<char>
    decreases parts.len(),
{
    if parts.len() == 0 {
        Seq::empty()
    } else if parts.len() == 1 {
        parts[0]
    } else {
        join(parts.drop_last(), sep) + sep + parts.last()
    }
}

/// The preview of a text that is no color.
pub open spec fn text_preview_ok(text: Seq<char>, p: Preview) -> bool {
    match file_url_path(text) {
        Some(path) => match clip_file_kind(path) {
            ClipFileKind::Image => p matches Preview::ImageFile(x) && x@ == path,
            ClipFileKind::Text => p matches Preview::TextFile { path: x, fallback: f } && x@ == path
                && f@ == text,
            ClipFileKind::Other => p matches Preview::Text(x) && x@ == text,
        },
        None => p matches Preview::Text(x) && x@ == text,
    }
}

/// The preview of a clipboard entry that holds no text.
pub open spec fn non_text_preview_ok(content: ClipboardContent, p: Preview) -> bool {
    match content {
        ClipboardContent::Image { .. } => p == Preview::RawImage,
        ClipboardContent::FilePaths(ps) => if ps@.len() == 1 {
            let path = ps@[0]@;
            match clip_file_kind(path) {
                ClipFileKind::Image => p matches Preview::ImageFile(x) && x@ == path,
                ClipFileKind::Text => p matches Preview::TextFile { path: x, fallback: f } && x@
                    == path && f@ == path,
                ClipFileKind::Other => p matches Preview::Path(x) && x@ == path,
            }
        } else {
            p matches Preview::PathList(x) && x@ == join(ps@.map_values(|s: String| s@), "\n"@)
        },
        ClipboardContent::RichText { plain } => p matches Preview::Text(x) && x@ == plain@,
        ClipboardContent::Text(_) => false,
    }
}

fn join_lines(paths: &Vec<String>) -> (s: String)
    ensures
        s@ == join(paths@.map_values(|p: String| p@), "\n"@),
{
    let ghost views = paths@.map_values(|p: String| p@);
    let mut v: Vec<char> = Vec::new();
    let mut i: usize = 0;
    while i < paths.len()
        invariant
            i <= paths.len(),
            views == paths@.map_values(|p: String| p@),
            v@ == join(views.take(i as int), "\n"@),
        decreases paths.len() - i,
    {
        let ghost before = views.take(i as int);
        assert(views.take(i + 1).drop_last() == before);
        assert(views.take(i + 1).last() == paths@[i as int]@);
        if i > 0 {
            v = concat_chars(&v, &chars_of("\n"));
        } else {
            assert(before.len() == 0);
            assert(v@ == Seq::<char>::empty());
            assert(Seq::<char>::empty() + paths@[i as int]@ == paths@[i as int]@);
        }
        v = concat_chars(&v, &chars_of(paths[i].as_str()));
        i = i + 1;
    }
    assert(views.take(paths.len() as int) == views);
    string_from(&v)
}

/// The preview of the selected clipboard entry: a color with its codes, an image or
/// text file named by a `file://` URL or a single copied file, the text itself, the
/// image, or the list of copied files.
pub fn preview_for<F: Fn(String) -> Option<u8>>(
    content: Option<&ClipboardContent>,
    parse_alpha: F,
) -> (p: Preview)
    requires
        content matches Some(c) ==> content_parsable(*c),
        forall|s: String| call_requires(parse_alpha, (s,)),
    ensures
        match content {
            None => p == Preview::Empty,
            Some(ClipboardContent::Text(t)) => exists|o: Option<Color>|
                #[trigger] color_parse_result(t@, parse_alpha, o) && match o {
                    Some(c) => p == Preview::Swatch(c),
                    None => text_preview_ok(t@, p),
                },
            Some(c) => non_text_preview_ok(*c, p),
        },
{
    let content = match content {
        Some(c) => c,
        None => return Preview::Empty,
    };
    match content {
        ClipboardContent::Text(text) => {
            if let Some(c) = parse_color(text.as_str(), parse_alpha) {
                return Preview::Swatch(c);
            }
            if let Some(path) = parse_file_url(text.as_str()) {
                match file_kind(path.as_str()) {
                    ClipFileKind::Image => {
                        return Preview::ImageFile(path);
                    },
                    ClipFileKind::Text => {
                        return Preview::TextFile { path, fallback: text.clone() };
                    },
                    ClipFileKind::Other => {},
                }
            }
            Preview::Text(text.clone())
        },
        ClipboardContent::Image { .. } => Preview::RawImage,
        ClipboardContent::FilePaths(paths) => {
            if paths.len() == 1 {
                let path = &paths[0];
                match file_kind(path.as_str()) {
                    ClipFileKind::Image => Preview::ImageFile(path.clone()),
                    ClipFileKind::Text => Preview::TextFile {
                        path: path.clone(),
                        fallback: path.clone(),
                    },
                    ClipFileKind::Other => Preview::Path(path.clone()),
                }
            } else {
                Preview::PathList(join_lines(paths))
            }
        },
        ClipboardContent::RichText { plain } => Preview::Text(plain.clone()),
    }
}


/// Number of bytes of a file's content that the preview shows.
pub const PREVIEW_LIMIT: usize = 10000;

/// The UTF-8 encoding of a concatenation is the concatenation of the encodings.
proof fn lemma_encode_concat(a: Seq<char>, b: Seq<char>)
    ensures
        encode_utf8(a + b) == encode_utf8(a) + encode_utf8(b),
    decreases a.len(),
{
    if a.len() > 0 {
        assert((a + b).drop_first() == a.drop_first() + b);
        assert((a + b)[0] == a[0]);
        lemma_encode_concat(a.drop_first(), b);
    } else {
        assert(a + b == b);
    }
}

/// Number of bytes of a character's UTF-8 encoding.
spec fn char_width(c: char) -> int {
    if (c as u32) < 0x80 {
        1
    } else if (c as u32) < 0x800 {
        2
    } else if (c as u32) < 0x10000 {
        3
    } else {
        4
    }
}

proof fn lemma_encode_take(s: Seq<char>, i: int)
    requires
        0 <= i < s.len(),
    ensures
        encode_utf8(s.take(i + 1)).len() == encode_utf8(s.take(i)).len() + char_width(s[i]),
{
    let c = s[i];
    assert(s.take(i + 1) == s.take(i) + seq![c]);
    lemma_encode_concat(s.take(i), seq![c]);
    assert(seq![c].drop_first() =~= Seq::<char>::empty());
    assert(encode_utf8(seq![c]) == vstd::utf8::encode_scalar(c as u32) + encode_utf8(
        seq![c].drop_first(),
    ));
    assert(encode_utf8(Seq::<char>::empty()) =~= Seq::<u8>::empty());
    vstd::utf8::char_is_scalar(c);
    assert(encode_utf8(seq![c]).len() == char_width(c));
}

proof fn lemma_encode_take_mono(s: Seq<char>, i: int, j: int)
    requires
        0 <= i <= j <= s.len(),
    ensures
        encode_utf8(s.take(i)).len() + (j - i) <= encode_utf8(s.take(j)).len(),
    decreases j - i,
{
    if i < j {
        lemma_encode_take(s, j - 1);
        lemma_encode_take_mono(s, i, j - 1);
    }
}

fn char_width_exec(c: char) -> (w: usize)
    ensures
        w == char_width(c),
{
    let v = c as u32;
    if v < 0x80 {
        1
    } else if v < 0x800 {
        2
    } else if v < 0x10000 {
        3
    } else {
        4
    }
}

/// The content that the preview shows: the first `PREVIEW_LIMIT` bytes and a note of
/// the size when the content is longer, else all of it.
pub open spec fn preview_text_ok(content: Seq<char>, r: Seq<char>) -> bool {
    let b = encode_utf8(content);
    if b.len() <= PREVIEW_LIMIT {
        r == content
    } else {
        exists|k: int|
            0 <= k <= content.len() && #[trigger] encode_utf8(content.take(k)) == b.take(
                PREVIEW_LIMIT as int,
            ) && r == content.take(k) + "...\n\n[Content truncated - "@ + dec_string(b.len())
                + " bytes total]"@
    }
}

/// The cut after `PREVIEW_LIMIT` bytes falls between two characters (where slicing
/// there does not panic).
pub open spec fn preview_cut_ok(content: Seq<char>) -> bool {
    encode_utf8(content).len() > PREVIEW_LIMIT ==> exists|k: int|
        0 <= k <= content.len() && #[trigger] encode_utf8(content.take(k)).len() == PREVIEW_LIMIT
}

/// The text that the preview shows of a file's content.
pub fn truncate_preview(content: &str) -> (r: String)
    requires
        preview_cut_ok(content@),
    ensures
        preview_text_ok(content@, r@),
{
    let total = content.as_bytes().len();
    if total <= PREVIEW_LIMIT {
        return string_from(&chars_of(content));
    }
    let chars = chars_of(content);
    let ghost s = content@;
    let ghost k = choose|k: int|
        0 <= k <= s.len() && #[trigger] encode_utf8(s.take(k)).len() == PREVIEW_LIMIT;
    let mut bytes: usize = 0;
    let mut i: usize = 0;
    proof {
        assert(s.take(0) =~= Seq::<char>::empty());
    }
    while bytes < PREVIEW_LIMIT
        invariant
            chars@ == s,
            0 <= k <= s.len(),
            encode_utf8(s.take(k)).len() == PREVIEW_LIMIT,
            i <= k,
            bytes == encode_utf8(s.take(i as int)).len(),
            bytes <= PREVIEW_LIMIT,
        decreases k - i,
    {
        assert(i < k) by {
            if i == k {
                assert(bytes == PREVIEW_LIMIT);
            }
        }
        proof {
            lemma_encode_take(s, i as int);
            lemma_encode_take_mono(s, i + 1, k);
        }
        bytes = bytes + char_width_exec(chars[i]);
        i = i + 1;
    }
    proof {
        if i < k {
            lemma_encode_take_mono(s, i as int, k);
        }
        assert(i == k);
        assert(s == s.take(k) + s.skip(k));
        lemma_encode_concat(s.take(k), s.skip(k));
        assert(encode_utf8(s).take(PREVIEW_LIMIT as int) == encode_utf8(s.take(k)));
    }
    let mut v = sub_vec(&chars, 0, i);
    assert(v@ == s.take(k));
    v = concat_chars(&v, &chars_of("...\n\n[Content truncated - "));
    v = concat_chars(&v, &dec_usize(total));
    v = concat_chars(&v, &chars_of(" bytes total]"));
    string_from(&v)
}


/// Whether the cut after `PREVIEW_LIMIT` bytes falls between two characters (always
/// so for shorter content); `truncate_preview` may be called exactly then.
pub fn preview_cut_is_clean(content: &str) -> (b: bool)
    ensures
        b == preview_cut_ok(content@),
{
    let total = content.as_bytes().len();
    if total <= PREVIEW_LIMIT {
        return true;
    }
    let chars = chars_of(content);
    let ghost s = content@;
    let mut bytes: usize = 0;
    let mut i: usize = 0;
    proof {
        assert(s.take(0) =~= Seq::<char>::empty());
    }
    while bytes < PREVIEW_LIMIT && i < chars.len()
        invariant
            chars@ == s,
            i <= s.len(),
            bytes == encode_utf8(s.take(i as int)).len(),
            bytes < PREVIEW_LIMIT + 4,
            i > 0 ==> encode_utf8(s.take(i - 1)).len() < PREVIEW_LIMIT,
            total == encode_utf8(s).len(),
            total > PREVIEW_LIMIT,
        decreases s.len() - i,
    {
        proof {
            lemma_encode_take(s, i as int);
        }
        bytes = bytes + char_width_exec(chars[i]);
        i = i + 1;
    }
    proof {
        if bytes < PREVIEW_LIMIT {
            assert(i == s.len());
            assert(s.take(s.len() as int) == s);
        }
        if bytes == PREVIEW_LIMIT {
            assert(encode_utf8(s.take(i as int)).len() == PREVIEW_LIMIT);
        } else {
            assert forall|k: int| 0 <= k <= s.len() implies #[trigger] encode_utf8(s.take(k)).len()
                != PREVIEW_LIMIT by {
                if k < i {
                    lemma_encode_take(s, i - 1);
                    lemma_encode_take_mono(s, k, i - 1);
                } else if k > i {
                    lemma_encode_take_mono(s, i as int, k);
                }
            }
        }
    }
    bytes == PREVIEW_LIMIT
}

/// The text that confirming a clipboard entry puts back on the clipboard: the text, the
/// plain version of rich text, the copied paths one per line; none for an image.
pub open spec fn paste_text_spec(content: ClipboardContent) -> Option<Seq<char>> {
    match content {
        ClipboardContent::Text(t) => Some(t@),
        ClipboardContent::Image { .. } => None,
        ClipboardContent::FilePaths(ps) => Some(join(ps@.map_values(|p: String| p@), "\n"@)),
        ClipboardContent::RichText { plain } => Some(plain@),
    }
}

/// The text that confirming a clipboard entry copies, if any.
pub fn paste_text(content: &ClipboardContent) -> (r: Option<String>)
    ensures
        match r {
            Some(t) => paste_text_spec(*content) == Some(t@),
            None => paste_text_spec(*content) is None,
        },
{
    match content {
        ClipboardContent::Text(t) => Some(t.clone()),
        ClipboardContent::Image { .. } => None,
        ClipboardContent::FilePaths(paths) => Some(join_lines(paths)),
        ClipboardContent::RichText { plain } => Some(plain.clone()),
    }
}

/// The clipboard view treats a file as an image exactly when it has an extension whose
/// lower case is png, jpg, jpeg, gif, webp or svg; as text exactly when it has another
/// extension whose lower case is txt, md, rs, py, js, ts, json, yaml, yml, toml, html,
/// css or sh; a file without an extension is neither.
pub proof fn law_clip_file_kinds(path: Seq<char>)
    ensures
        path_extension_opt(path) is None ==> clip_file_kind(path) == ClipFileKind::Other,
        path_extension_opt(path) matches Some(e) ==> ({
            let l = lowercase(e);
            &&& (clip_file_kind(path) == ClipFileKind::Image) <==> (l == "png"@ || l == "jpg"@ || l == "jpeg"@ || l == "gif"@ || l == "webp"@ || l == "svg"@)
            &&& (clip_file_kind(path) == ClipFileKind::Text) <==> (!(l == "png"@ || l == "jpg"@ || l == "jpeg"@ || l == "gif"@ || l == "webp"@ || l == "svg"@) && (l == "txt"@ || l == "md"@ || l == "rs"@ || l == "py"@ || l == "js"@ || l == "ts"@ || l == "json"@ || l == "yaml"@ || l == "yml"@ || l == "toml"@ || l == "html"@ || l == "css"@ || l == "sh"@))
        }),
{
}

} // verus!
