//! Fixed naming policy for project files: hidden and excluded entries,
//! file extensions, binary files and language tags.
use vstd::prelude::*;

verus! {

/// Whether a name begins with a dot.
pub open spec fn hidden(name: Seq<char>) -> bool {
    name.len() > 0 && name[0] == '.'
}

/// The index of the last dot among the first `n` characters of `s`, or -1.
pub open spec fn last_dot_before(s: Seq<char>, n: int) -> int
    decreases n,
{
    if n <= 0 {
        -1
    } else if s[n - 1] == '.' {
        n - 1
    } else {
        last_dot_before(s, n - 1)
    }
}

/// The extension of a file name: what follows its last dot, if it has a dot.
pub open spec fn extension_of(name: Seq<char>) -> Option<Seq<char>> {
    let k = last_dot_before(name, name.len() as int);
    if k < 0 {
        None
    } else {
        Some(name.subrange(k + 1, name.len() as int))
    }
}

/// Directory names that a file tree never shows nor walks into.
pub open spec fn excluded_dir(name: Seq<char>) -> bool {
    name == "node_modules"@ || name == ".git"@ || name == ".obsidian"@ || name == "dist"@
        || name == "build"@ || name == "target"@ || name == "__pycache__"@ || name == ".next"@
        || name == ".turbo"@ || name == ".cargo"@ || name == ".cache"@ || name == ".parcel-cache"@
        || name == "coverage"@ || name == ".svelte-kit"@ || name == ".nuxt"@ || name
        == ".output"@ || name == "vendor"@ || name == ".vercel"@
}

/// File names that a file tree never shows.
pub open spec fn excluded_file(name: Seq<char>) -> bool {
    name == ".DS_Store"@ || name == "Thumbs.db"@ || name == ".env"@ || name == ".env.local"@
}

pub open spec fn excluded(name: Seq<char>, is_dir: bool) -> bool {
    if is_dir {
        excluded_dir(name)
    } else {
        excluded_file(name)
    }
}

/// Extensions of files that hold binary data (images, fonts, archives,
/// executables, documents, media, databases, wasm and source maps).
pub open spec fn binary_ext(e: Seq<char>) -> bool {
    e == "png"@ || e == "jpg"@ || e == "jpeg"@ || e == "gif"@ || e == "ico"@ || e == "bmp"@
        || e == "webp"@ || e == "svg"@ || e == "woff"@ || e == "woff2"@ || e == "ttf"@ || e
        == "otf"@ || e == "eot"@ || e == "zip"@ || e == "tar"@ || e == "gz"@ || e == "bz2"@
        || e == "xz"@ || e == "7z"@ || e == "exe"@ || e == "dll"@ || e == "so"@ || e
        == "dylib"@ || e == "pdf"@ || e == "doc"@ || e == "docx"@ || e == "xls"@ || e
        == "xlsx"@ || e == "mp3"@ || e == "mp4"@ || e == "wav"@ || e == "avi"@ || e == "mkv"@
        || e == "flac"@ || e == "db"@ || e == "sqlite"@ || e == "sqlite3"@ || e == "wasm"@
        || e == "map"@
}

/// Whether a file name carries one of the binary extensions.
pub open spec fn binary_name(name: Seq<char>) -> bool {
    match extension_of(name) {
        Some(e) => binary_ext(e),
        None => false,
    }
}

/// The language tag of an extension; matching is case-sensitive.
pub open spec fn language_for(e: Seq<char>) -> Option<Seq<char>> {
    if e == "rs"@ {
        Some("rust"@)
    } else if e == "ts"@ {
        Some("typescript"@)
    } else if e == "tsx"@ {
        Some("typescriptJsx"@)
    } else if e == "js"@ {
        Some("javascript"@)
    } else if e == "jsx"@ {
        Some("javascriptJsx"@)
    } else if e == "py"@ {
        Some("python"@)
    } else if e == "json"@ || e == "lock"@ {
        Some("json"@)
    } else if e == "md"@ || e == "markdown"@ {
        Some("markdown"@)
    } else if e == "css"@ || e == "scss"@ || e == "sass"@ {
        Some("css"@)
    } else if e == "html"@ || e == "htm"@ {
        Some("html"@)
    } else if e == "toml"@ {
        Some("toml"@)
    } else if e == "yaml"@ || e == "yml"@ {
        Some("yaml"@)
    } else if e == "sql"@ {
        Some("sql"@)
    } else if e == "sh"@ || e == "bash"@ || e == "zsh"@ {
        Some("shell"@)
    } else if e == "ps1"@ {
        Some("powershell"@)
    } else if e == "xml"@ || e == "svg"@ {
        Some("xml"@)
    } else if e == "go"@ {
        Some("go"@)
    } else if e == "java"@ {
        Some("java"@)
    } else if e == "c"@ || e == "h"@ {
        Some("c"@)
    } else if e == "cpp"@ || e == "cc"@ || e == "cxx"@ || e == "hpp"@ {
        Some("cpp"@)
    } else if e == "lua"@ {
        Some("lua"@)
    } else if e == "rb"@ {
        Some("ruby"@)
    } else if e == "php"@ {
        Some("php"@)
    } else if e == "swift"@ {
        Some("swift"@)
    } else if e == "kt"@ || e == "kts"@ {
        Some("kotlin"@)
    } else if e == "dart"@ {
        Some("dart"@)
    } else {
        None
    }
}

/// The language tag of a file name: that of its extension; none without one.
pub open spec fn language_of(name: Seq<char>) -> Option<Seq<char>> {
    match extension_of(name) {
        Some(e) => language_for(e),
        None => None,
    }
}

pub open spec fn opt_string_view(o: Option<String>) -> Option<Seq<char>> {
    match o {
        Some(s) => Some(s@),
        None => None,
    }
}

/// The language tag depends on the extension alone: two names with the
/// same extension get the same tag, and a name without an extension gets
/// none.
pub proof fn lemma_language_by_extension(a: Seq<char>, b: Seq<char>)
    ensures
        extension_of(a) == extension_of(b) ==> language_of(a) == language_of(b),
        extension_of(a) is None ==> language_of(a) is None,
        extension_of(a) is Some ==> language_of(a) == language_for(extension_of(a).unwrap()),
{
}

/// Character-wise equality of two strings.
pub fn str_eq(a: &str, b: &str) -> (r: bool)
    ensures
        r == (a@ == b@),
{
    let n = a.unicode_len();
    if n != b.unicode_len() {
        return false;
    }
    let mut i: usize = 0;
    while i < n
        invariant
            n == a@.len(),
            n == b@.len(),
            i <= n,
            forall|k: int| 0 <= k < i ==> a@[k] == b@[k],
        decreases n - i,
    {
        if a.get_char(i) != b.get_char(i) {
            return false;
        }
        i = i + 1;
    }
    assert(a@ =~= b@);
    true
}

/// Whether the name begins with a dot.
pub fn is_hidden(name: &str) -> (r: bool)
    ensures
        r == hidden(name@),
{
    name.unicode_len() > 0 && name.get_char(0) == '.'
}

/// The extension of a file name, if it has a dot.
pub fn extension(name: &str) -> (r: Option<&str>)
    ensures
        match r {
            Some(e) => extension_of(name@) == Some(e@),
            None => extension_of(name@) is None,
        },
{
    let n = name.unicode_len();
    let mut i: usize = n;
    while i > 0
        invariant
            n == name@.len(),
            i <= n,
            last_dot_before(name@, n as int) == last_dot_before(name@, i as int),
        decreases i,
    {
        if name.get_char(i - 1) == '.' {
            return Some(name.substring_char(i, n));
        }
        i = i - 1;
    }
    None
}

/// Whether a directory entry is dropped by the fixed exclusion lists.
pub fn should_exclude_entry(name: &str, is_dir: bool) -> (r: bool)
    ensures
        r == excluded(name@, is_dir),
{
    if is_dir {
        str_eq(name, "node_modules") || str_eq(name, ".git") || str_eq(name, ".obsidian")
            || str_eq(name, "dist") || str_eq(name, "build") || str_eq(name, "target")
            || str_eq(name, "__pycache__") || str_eq(name, ".next") || str_eq(name, ".turbo")
            || str_eq(name, ".cargo") || str_eq(name, ".cache") || str_eq(name, ".parcel-cache")
            || str_eq(name, "coverage") || str_eq(name, ".svelte-kit") || str_eq(name, ".nuxt")
            || str_eq(name, ".output") || str_eq(name, "vendor") || str_eq(name, ".vercel")
    } else {
        str_eq(name, ".DS_Store") || str_eq(name, "Thumbs.db") || str_eq(name, ".env")
            || str_eq(name, ".env.local")
    }
}

fn is_binary_ext(e: &str) -> (r: bool)
    ensures
        r == binary_ext(e@),
{
    str_eq(e, "png") || str_eq(e, "jpg") || str_eq(e, "jpeg") || str_eq(e, "gif") || str_eq(
        e,
        "ico",
    ) || str_eq(e, "bmp") || str_eq(e, "webp") || str_eq(e, "svg") || str_eq(e, "woff")
        || str_eq(e, "woff2") || str_eq(e, "ttf") || str_eq(e, "otf") || str_eq(e, "eot")
        || str_eq(e, "zip") || str_eq(e, "tar") || str_eq(e, "gz") || str_eq(e, "bz2")
        || str_eq(e, "xz") || str_eq(e, "7z") || str_eq(e, "exe") || str_eq(e, "dll")
        || str_eq(e, "so") || str_eq(e, "dylib") || str_eq(e, "pdf") || str_eq(e, "doc")
        || str_eq(e, "docx") || str_eq(e, "xls") || str_eq(e, "xlsx") || str_eq(e, "mp3")
        || str_eq(e, "mp4") || str_eq(e, "wav") || str_eq(e, "avi") || str_eq(e, "mkv")
        || str_eq(e, "flac") || str_eq(e, "db") || str_eq(e, "sqlite") || str_eq(e, "sqlite3")
        || str_eq(e, "wasm") || str_eq(e, "map")
}

/// Whether a file name carries an extension of binary content.
pub fn is_binary_extension(filename: &str) -> (r: bool)
    ensures
        r == binary_name(filename@),
{
    match extension(filename) {
        Some(e) => is_binary_ext(e),
        None => false,
    }
}

fn tag(s: &str) -> (r: Option<String>)
    ensures
        opt_string_view(r) == Some(s@),
{
    Some(s.to_owned())
}

fn language_tag(e: &str) -> (r: Option<String>)
    ensures
        opt_string_view(r) == language_for(e@),
{
    if str_eq(e, "rs") {
        tag("rust")
    } else if str_eq(e, "ts") {
        tag("typescript")
    } else if str_eq(e, "tsx") {
        tag("typescriptJsx")
    } else if str_eq(e, "js") {
        tag("javascript")
    } else if str_eq(e, "jsx") {
        tag("javascriptJsx")
    } else if str_eq(e, "py") {
        tag("python")
    } else if str_eq(e, "json") || str_eq(e, "lock") {
        tag("json")
    } else if str_eq(e, "md") || str_eq(e, "markdown") {
        tag("markdown")
    } else if str_eq(e, "css") || str_eq(e, "scss") || str_eq(e, "sass") {
        tag("css")
    } else if str_eq(e, "html") || str_eq(e, "htm") {
        tag("html")
    } else if str_eq(e, "toml") {
        tag("toml")
    } else if str_eq(e, "yaml") || str_eq(e, "yml") {
        tag("yaml")
    } else if str_eq(e, "sql") {
        tag("sql")
    } else if str_eq(e, "sh") || str_eq(e, "bash") || str_eq(e, "zsh") {
        tag("shell")
    } else if str_eq(e, "ps1") {
        tag("powershell")
    } else if str_eq(e, "xml") || str_eq(e, "svg") {
        tag("xml")
    } else if str_eq(e, "go") {
        tag("go")
    } else if str_eq(e, "java") {
        tag("java")
    } else if str_eq(e, "c") || str_eq(e, "h") {
        tag("c")
    } else if str_eq(e, "cpp") || str_eq(e, "cc") || str_eq(e, "cxx") || str_eq(e, "hpp") {
        tag("cpp")
    } else if str_eq(e, "lua") {
        tag("lua")
    } else if str_eq(e, "rb") {
        tag("ruby")
    } else if str_eq(e, "php") {
        tag("php")
    } else if str_eq(e, "swift") {
        tag("swift")
    } else if str_eq(e, "kt") || str_eq(e, "kts") {
        tag("kotlin")
    } else if str_eq(e, "dart") {
        tag("dart")
    } else {
        None
    }
}

/// The language tag of a file name, from its extension.
pub fn detect_language(filename: &str) -> (r: Option<String>)
    ensures
        opt_string_view(r) == language_of(filename@),
{
    match extension(filename) {
        Some(e) => language_tag(e),
        None => None,
    }
}

} // verus!
