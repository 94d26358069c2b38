//! Kinds of files for previews, by file extension.
use vstd::prelude::*;

use crate::text::{
    chars_eq, chars_of, last_index, last_index_of, lemma_last_index_range, lowercase, sub_vec,
    to_lowercase,
};

verus! {

/// Represents the type of file for preview/display purposes.
#[derive(Debug, Clone, Copy, PartialEq, Eq, Structural)]
pub enum FileType {
    /// Image files (png, jpg, gif, etc.)
    Image,
    /// Text files (txt, md, rs, json, etc.)
    Text,
    /// Other/unknown file types
    Other,
}

/// The file name of a `/`-separated path: its last component, skipping empty and `.`
/// components; none when there is no such component or it is `..`.
pub open spec fn file_name(p: Seq<char>) -> Option<Seq<char>>
    decreases p.len(),
{
    if p.len() == 0 {
        None
    } else {
        let k = last_index_of(p, '/', p.len() as int);
        let comp = p.subrange(k + 1, p.len() as int);
        if comp.len() == 0 || comp == seq!['.'] {
            if k < 0 {
                None
            } else {
                proof {
                    lemma_last_index_range(p, '/', p.len() as int);
                }
                file_name(p.subrange(0, k))
            }
        } else if comp == seq!['.', '.'] {
            None
        } else {
            Some(comp)
        }
    }
}

/// The extension of a file name: what follows its last `.`, unless there is none or
/// the only one starts the name.
pub open spec fn extension_of_name(name: Seq<char>) -> Option<Seq<char>> {
    let d = last_index_of(name, '.', name.len() as int);
    if d <= 0 {
        None
    } else {
        Some(name.subrange(d + 1, name.len() as int))
    }
}

/// The extension of a path, as `Path::extension` gives it.
pub open spec fn path_extension_opt(p: Seq<char>) -> Option<Seq<char>> {
    match file_name(p) {
        Some(n) => extension_of_name(n),
        None => None,
    }
}

/// The extension of a path (empty when it has none).
pub open spec fn path_extension(p: Seq<char>) -> Seq<char> {
    match path_extension_opt(p) {
        Some(e) => e,
        None => Seq::empty(),
    }
}

/// The lower-case extensions of images.
pub open spec fn image_ext(e: Seq<char>) -> bool {
    ||| e == "png"@
    ||| e == "jpg"@
    ||| e == "jpeg"@
    ||| e == "gif"@
    ||| e == "webp"@
    ||| e == "svg"@
    ||| e == "bmp"@
    ||| e == "ico"@
}

/// The lower-case extensions of text files.
pub open spec fn text_ext(e: Seq<char>) -> bool {
    ||| e == "txt"@
    ||| e == "md"@
    ||| e == "rs"@
    ||| e == "py"@
    ||| e == "js"@
    ||| e == "ts"@
    ||| e == "tsx"@
    ||| e == "jsx"@
    ||| e == "json"@
    ||| e == "yaml"@
    ||| e == "yml"@
    ||| e == "toml"@
    ||| e == "html"@
    ||| e == "css"@
    ||| e == "sh"@
    ||| e == "bash"@
    ||| e == "c"@
    ||| e == "cpp"@
    ||| e == "h"@
    ||| e == "hpp"@
    ||| e == "go"@
    ||| e == "java"@
    ||| e == "kt"@
    ||| e == "swift"@
    ||| e == "xml"@
    ||| e == "ini"@
    ||| e == "conf"@
    ||| e == "log"@
}

/// The kind of a file with the given extension.
pub open spec fn classify_ext(ext: Seq<char>) -> FileType {
    if image_ext(lowercase(ext)) {
        FileType::Image
    } else if text_ext(lowercase(ext)) {
        FileType::Text
    } else {
        FileType::Other
    }
}

fn is_literal(v: &Vec<char>, s: &str) -> (b: bool)
    ensures
        b == (v@ == s@),
{
    chars_eq(v, &chars_of(s))
}

fn file_name_of(p: &Vec<char>) -> (r: Option<Vec<char>>)
    ensures
        match file_name(p@) {
            Some(n) => r matches Some(v) && v@ == n,
            None => r is None,
        },
    decreases p.len(),
{
    if p.len() == 0 {
        return None;
    }
    let k = last_index(p, '/', p.len());
    proof {
        lemma_last_index_range(p@, '/', p.len() as int);
    }
    let start: usize = match k {
        Some(i) => i + 1,
        None => 0,
    };
    let comp = sub_vec(p, start, p.len());
    proof {
        reveal_strlit(".");
        reveal_strlit("..");
        assert("."@ == seq!['.']);
        assert(".."@ == seq!['.', '.']);
    }
    if comp.len() == 0 || is_literal(&comp, ".") {
        match k {
            None => None,
            Some(i) => {
                let head = sub_vec(p, 0, i);
                file_name_of(&head)
            },
        }
    } else if is_literal(&comp, "..") {
        None
    } else {
        Some(comp)
    }
}

/// The extension of a path, as `Path::extension` gives it.
pub fn extension_opt(path: &str) -> (e: Option<Vec<char>>)
    ensures
        match path_extension_opt(path@) {
            Some(x) => e matches Some(v) && v@ == x,
            None => e is None,
        },
{
    let p = chars_of(path);
    match file_name_of(&p) {
        Some(name) => {
            let d = last_index(&name, '.', name.len());
            proof {
                lemma_last_index_range(name@, '.', name.len() as int);
            }
            match d {
                Some(i) => if i == 0 {
                    None
                } else {
                    Some(sub_vec(&name, i + 1, name.len()))
                },
                None => None,
            }
        },
        None => None,
    }
}

/// The extension of a path, or the empty string when it has none.
pub fn extension(path: &str) -> (e: Vec<char>)
    ensures
        e@ == path_extension(path@),
{
    match extension_opt(path) {
        Some(e) => e,
        None => Vec::new(),
    }
}

/// Determine the file type of a path from its extension.
pub fn classify_file(path: &str) -> (t: FileType)
    ensures
        t == classify_ext(path_extension(path@)),
{
    let ext = extension(path);
    let ext_str = crate::text::string_from(&ext);
    if is_image_ext(ext_str.as_str()) {
        FileType::Image
    } else if is_text_ext(ext_str.as_str()) {
        FileType::Text
    } else {
        FileType::Other
    }
}

/// Whether an extension, in any case, is an image format.
pub fn is_image_ext(ext: &str) -> (b: bool)
    ensures
        b == image_ext(lowercase(ext@)),
{
    let lower = to_lowercase(ext);
    let l = chars_of(lower.as_str());
    is_literal(&l, "png") || is_literal(&l, "jpg") || is_literal(&l, "jpeg") || is_literal(&l, "gif")
        || is_literal(&l, "webp") || is_literal(&l, "svg") || is_literal(&l, "bmp") || is_literal(
        &l,
        "ico",
    )
}

/// Whether an extension, in any case, is a text format.
pub fn is_text_ext(ext: &str) -> (b: bool)
    ensures
        b == text_ext(lowercase(ext@)),
{
    let lower = to_lowercase(ext);
    let l = chars_of(lower.as_str());
    is_literal(&l, "txt") || is_literal(&l, "md") || is_literal(&l, "rs") || is_literal(&l, "py")
        || is_literal(&l, "js") || is_literal(&l, "ts") || is_literal(&l, "tsx") || is_literal(
        &l,
        "jsx",
    ) || is_literal(&l, "json") || is_literal(&l, "yaml") || is_literal(&l, "yml") || is_literal(
        &l,
        "toml",
    ) || is_literal(&l, "html") || is_literal(&l, "css") || is_literal(&l, "sh") || is_literal(
        &l,
        "bash",
    ) || is_literal(&l, "c") || is_literal(&l, "cpp") || is_literal(&l, "h") || is_literal(
        &l,
        "hpp",
    ) || is_literal(&l, "go") || is_literal(&l, "java") || is_literal(&l, "kt") || is_literal(
        &l,
        "swift",
    ) || is_literal(&l, "xml") || is_literal(&l, "ini") || is_literal(&l, "conf") || is_literal(
        &l,
        "log",
    )
}

/// Whether a file should be previewed as an image.
pub fn should_preview_as_image(path: &str) -> (b: bool)
    ensures
        b == (classify_ext(path_extension(path@)) == FileType::Image),
{
    classify_file(path) == FileType::Image
}

/// Whether a file should be previewed as text.
pub fn should_preview_as_text(path: &str) -> (b: bool)
    ensures
        b == (classify_ext(path_extension(path@)) == FileType::Text),
{
    classify_file(path) == FileType::Text
}

/// No extension is both an image format and a text format.
pub proof fn law_image_and_text_disjoint(e: Seq<char>)
    ensures
        !(image_ext(e) && text_ext(e)),
{
    reveal_strlit("png");
    reveal_strlit("jpg");
    reveal_strlit("jpeg");
    reveal_strlit("gif");
    reveal_strlit("webp");
    reveal_strlit("svg");
    reveal_strlit("bmp");
    reveal_strlit("ico");
    reveal_strlit("txt");
    reveal_strlit("md");
    reveal_strlit("rs");
    reveal_strlit("py");
    reveal_strlit("js");
    reveal_strlit("ts");
    reveal_strlit("tsx");
    reveal_strlit("jsx");
    reveal_strlit("json");
    reveal_strlit("yaml");
    reveal_strlit("yml");
    reveal_strlit("toml");
    reveal_strlit("html");
    reveal_strlit("css");
    reveal_strlit("sh");
    reveal_strlit("bash");
    reveal_strlit("c");
    reveal_strlit("cpp");
    reveal_strlit("h");
    reveal_strlit("hpp");
    reveal_strlit("go");
    reveal_strlit("java");
    reveal_strlit("kt");
    reveal_strlit("swift");
    reveal_strlit("xml");
    reveal_strlit("ini");
    reveal_strlit("conf");
    reveal_strlit("log");
    if image_ext(e) && text_ext(e) {
        let first = e[0];
        let last = e[e.len() - 1];
        assert(e.len() == 3 || e.len() == 4);
        assert(false);
    }
}

/// A file is classified as an image exactly when its extension, lower-cased, is one of
/// png, jpg, jpeg, gif, webp, svg, bmp and ico.
pub proof fn law_image_extensions(path: Seq<char>)
    ensures
        ({
            let l = lowercase(path_extension(path));
            (classify_ext(path_extension(path)) == FileType::Image) <==> (l == "png"@ || l == "jpg"@
                || l == "jpeg"@ || l == "gif"@ || l == "webp"@ || l == "svg"@ || l == "bmp"@ || l
                == "ico"@)
        }),
{
}

/// A file is classified as text exactly when its lower-cased extension is one of the
/// text formats (txt, md, rs, py, js, ts, tsx, jsx, json, yaml, yml, toml, html, css,
/// sh, bash, c, cpp, h, hpp, go, java, kt, swift, xml, ini, conf, log).
pub proof fn law_text_extensions(path: Seq<char>)
    ensures
        ({
            let l = lowercase(path_extension(path));
            (classify_ext(path_extension(path)) == FileType::Text) <==> (l == "txt"@ || l == "md"@ || l == "rs"@ || l == "py"@ || l == "js"@ || l == "ts"@ || l == "tsx"@ || l == "jsx"@ || l == "json"@ || l == "yaml"@ || l == "yml"@ || l == "toml"@ || l == "html"@ || l == "css"@ || l == "sh"@ || l == "bash"@ || l == "c"@ || l == "cpp"@ || l == "h"@ || l == "hpp"@ || l == "go"@ || l == "java"@ || l == "kt"@ || l == "swift"@ || l == "xml"@ || l == "ini"@ || l == "conf"@ || l == "log"@)
        }),
{
    law_image_and_text_disjoint(lowercase(path_extension(path)));
}

} // verus!
