//! Presentational classification of files for the directory listing.
//!
//! A file's category is taken from its extension where the extension is one
//! the table below knows, and from the media type guessed for its name
//! otherwise. The category picks an icon; it carries no security meaning.

use crate::text::{chars_of, first_index_of, lemma_first_index_of, string_of};
use vstd::prelude::*;

verus! {

/// The tag under which a file is shown in a listing.
#[derive(Clone, Copy, Debug, PartialEq, Eq, Structural)]
pub enum FileCategory {
    Archive,
    Word,
    Powerpoint,
    Excel,
    Pdf,
    Code,
    Image,
    Audio,
    Video,
    Alt,
    File,
}

impl FileCategory {
    /// The lower-case name of the category, as the listing template sees it.
    pub open spec fn name(self) -> Seq<char> {
        match self {
            FileCategory::Archive => "archive"@,
            FileCategory::Word => "word"@,
            FileCategory::Powerpoint => "powerpoint"@,
            FileCategory::Excel => "excel"@,
            FileCategory::Pdf => "pdf"@,
            FileCategory::Code => "code"@,
            FileCategory::Image => "image"@,
            FileCategory::Audio => "audio"@,
            FileCategory::Video => "video"@,
            FileCategory::Alt => "alt"@,
            FileCategory::File => "file"@,
        }
    }

    /// The lower-case name of the category.
    pub fn as_str(&self) -> (r: &'static str)
        ensures
            r@ == self.name(),
    {
        match self {
            FileCategory::Archive => "archive",
            FileCategory::Word => "word",
            FileCategory::Powerpoint => "powerpoint",
            FileCategory::Excel => "excel",
            FileCategory::Pdf => "pdf",
            FileCategory::Code => "code",
            FileCategory::Image => "image",
            FileCategory::Audio => "audio",
            FileCategory::Video => "video",
            FileCategory::Alt => "alt",
            FileCategory::File => "file",
        }
    }
}

/// The position of the last `c` in `s`, or -1 where `s` holds none.
pub open spec fn last_index_of(s: Seq<char>, c: char) -> int
    decreases s.len(),
{
    if s.len() == 0 {
        -1
    } else if s.last() == c {
        s.len() - 1
    } else {
        last_index_of(s.drop_last(), c)
    }
}

/// `last_index_of` is a position of `c`, and no `c` stands behind it.
pub proof fn lemma_last_index_of(s: Seq<char>, c: char)
    ensures
        -1 <= last_index_of(s, c) < s.len(),
        last_index_of(s, c) >= 0 ==> s[last_index_of(s, c)] == c,
        forall|k: int| last_index_of(s, c) < k < s.len() ==> s[k] != c,
    decreases s.len(),
{
    if s.len() > 0 && s.last() != c {
        let init = s.drop_last();
        lemma_last_index_of(init, c);
        assert forall|k: int| last_index_of(s, c) < k < s.len() implies s[k] != c by {
            if k < init.len() {
                assert(init[k] == s[k]);
            }
        }
    }
}

/// The extension of the file name `name`: what follows its last dot. A name
/// without a dot has none, and neither has one whose only dot is its first
/// character, nor the name `..`.
pub open spec fn extension_of(name: Seq<char>) -> Option<Seq<char>> {
    let dot = last_index_of(name, '.');
    if dot <= 0 || name == seq!['.', '.'] {
        None
    } else {
        Some(name.skip(dot + 1))
    }
}

/// Archives and disk images.
pub open spec fn is_archive_extension(e: Seq<char>) -> bool {
    e == "7z"@ || e == "bz"@ || e == "bz2"@ || e == "cab"@ || e == "gz"@ || e == "iso"@ || e
        == "rar"@ || e == "xz"@ || e == "zip"@ || e == "zst"@ || e == "zstd"@
}

/// The category of an office document, by its extension.
pub open spec fn is_office_extension(e: Seq<char>) -> Option<FileCategory> {
    if e == "doc"@ || e == "docx"@ {
        Some(FileCategory::Word)
    } else if e == "ppt"@ || e == "pptx"@ {
        Some(FileCategory::Powerpoint)
    } else if e == "xls"@ || e == "xlsx"@ {
        Some(FileCategory::Excel)
    } else {
        None
    }
}

/// JavaScript, TypeScript, markup, templates and style sheets.
pub open spec fn is_web_extension(e: Seq<char>) -> bool {
    e == "js"@ || e == "cjs"@ || e == "mjs"@ || e == "jsx"@ || e == "ts"@ || e == "tsx"@ || e
        == "json"@ || e == "coffee"@ || e == "html"@ || e == "htm"@ || e == "xml"@ || e
        == "xhtml"@ || e == "vue"@ || e == "ejs"@ || e == "template"@ || e == "tmpl"@ || e
        == "pug"@ || e == "art"@ || e == "hbs"@ || e == "tera"@ || e == "css"@ || e == "scss"@
        || e == "sass"@ || e == "less"@
}

/// Python, the JVM languages, shell, PHP, C and C++, C#, Go.
pub open spec fn is_backend_extension(e: Seq<char>) -> bool {
    e == "py"@ || e == "pyc"@ || e == "java"@ || e == "kt"@ || e == "kts"@ || e == "gradle"@
        || e == "groovy"@ || e == "scala"@ || e == "jsp"@ || e == "sh"@ || e == "php"@ || e
        == "c"@ || e == "cc"@ || e == "cpp"@ || e == "h"@ || e == "cmake"@ || e == "cs"@ || e
        == "xaml"@ || e == "sln"@ || e == "csproj"@ || e == "go"@ || e == "mod"@ || e == "sum"@
}

/// Swift and Xcode, Ruby, Rust, Objective-C, Dart, Windows scripts and
/// configuration files.
pub open spec fn is_native_extension(e: Seq<char>) -> bool {
    e == "swift"@ || e == "plist"@ || e == "xib"@ || e == "xcconfig"@ || e == "entitlements"@
        || e == "xcworkspacedata"@ || e == "pbxproj"@ || e == "rb"@ || e == "rs"@ || e == "m"@
        || e == "dart"@ || e == "manifest"@ || e == "rc"@ || e == "cmd"@ || e == "bat"@ || e
        == "ps1"@ || e == "ini"@ || e == "yaml"@ || e == "toml"@ || e == "conf"@ || e
        == "properties"@
}

/// Source code, markup and configuration.
pub open spec fn is_code_extension(e: Seq<char>) -> bool {
    is_web_extension(e) || is_backend_extension(e) || is_native_extension(e)
}

/// The category that the extension table gives `e`, if the table knows it.
/// Extensions are matched as written: the table holds lower-case entries only.
pub open spec fn extension_category(e: Seq<char>) -> Option<FileCategory> {
    if is_archive_extension(e) {
        Some(FileCategory::Archive)
    } else if is_office_extension(e) is Some {
        is_office_extension(e)
    } else if e == "heic"@ {
        Some(FileCategory::Image)
    } else if e == "pdf"@ {
        Some(FileCategory::Pdf)
    } else if is_code_extension(e) {
        Some(FileCategory::Code)
    } else if e == "lock"@ {
        Some(FileCategory::Alt)
    } else {
        None
    }
}

/// The top-level type of the media type `media`: what stands before its
/// slash.
pub open spec fn top_level_of(media: Seq<char>) -> Seq<char> {
    media.take(first_index_of(media, '/'))
}

/// The category of a file of the media type `media` (`type/subtype`): PDF
/// documents are `Pdf`; audio, images and video are themselves; text is
/// `Alt`; everything else is `File`.
pub open spec fn media_category(media: Seq<char>) -> FileCategory {
    let top = top_level_of(media);
    if media == "application/pdf"@ {
        FileCategory::Pdf
    } else if top == "audio"@ {
        FileCategory::Audio
    } else if top == "image"@ {
        FileCategory::Image
    } else if top == "video"@ {
        FileCategory::Video
    } else if top == "text"@ {
        FileCategory::Alt
    } else {
        FileCategory::File
    }
}

/// The media type (`type/subtype`, without parameters) that `mime_guess`
/// gives a file with the extension `extension`: that of the first entry its
/// table holds for the extension, whatever its case, and
/// `application/octet-stream` where it holds none.
pub uninterp spec fn guessed_media_type(extension: Seq<char>) -> Seq<char>;

/// The category of the file called `name`: by the extension table first, by
/// the media type guessed for the extension second, and `File` for a name
/// without extension.
pub open spec fn file_category(name: Seq<char>) -> FileCategory {
    match extension_of(name) {
        None => FileCategory::File,
        Some(e) => match extension_category(e) {
            Some(c) => c,
            None => media_category(guessed_media_type(e)),
        },
    }
}

/// Calls `mime_guess::from_ext(extension).first_or_octet_stream()` and takes
/// the `essence_str` of what comes back. The guess is a look into a table
/// that the crate carries: it depends on the extension alone.
#[verifier::external_body]
fn guess_media_type(extension: &str) -> (media: String)
    ensures
        media@ == guessed_media_type(extension@),
{
    mime_guess::from_ext(extension).first_or_octet_stream().essence_str().to_string()
}

/// The extension of the file name `name`, if it has one.
pub fn file_extension(name: &str) -> (ext: Option<String>)
    ensures
        ext is Some <==> extension_of(name@) is Some,
        ext matches Some(e) ==> Some(e@) == extension_of(name@),
{
    let chars = chars_of(name);
    let n = chars.len();
    let mut dot: usize = 0;
    let mut found = false;
    let mut i: usize = 0;
    while i < n
        invariant
            i <= n == chars.len(),
            found ==> dot < i,
            last_index_of(chars@.take(i as int), '.') == (if found {
                dot as int
            } else {
                -1
            }),
        decreases n - i,
    {
        proof {
            assert(chars@.take(i + 1).drop_last() =~= chars@.take(i as int));
        }
        if chars[i] == '.' {
            dot = i;
            found = true;
        }
        i += 1;
    }
    proof {
        assert(chars@.take(n as int) =~= chars@);
    }
    let parent = n == 2 && chars[0] == '.' && chars[1] == '.';
    proof {
        if parent {
            assert(chars@ =~= seq!['.', '.']);
        } else if n == 2 {
            assert(seq!['.', '.'][0] == '.' && seq!['.', '.'][1] == '.');
        } else {
            assert(seq!['.', '.'].len() == 2);
        }
    }
    if !found || dot == 0 || parent {
        None
    } else {
        let e = string_of(&chars, dot + 1, n);
        proof {
            assert(chars@.subrange(dot + 1, n as int) =~= chars@.skip(dot + 1));
        }
        Some(e)
    }
}

fn archive_extension(e: &str) -> (b: bool)
    ensures
        b == is_archive_extension(e@),
{
    e.eq("7z") || e.eq("bz") || e.eq("bz2") || e.eq("cab") || e.eq("gz") || e.eq("iso") || e.eq(
        "rar",
    ) || e.eq("xz") || e.eq("zip") || e.eq("zst") || e.eq("zstd")
}

fn office_extension(e: &str) -> (c: Option<FileCategory>)
    ensures
        c == is_office_extension(e@),
{
    if e.eq("doc") || e.eq("docx") {
        Some(FileCategory::Word)
    } else if e.eq("ppt") || e.eq("pptx") {
        Some(FileCategory::Powerpoint)
    } else if e.eq("xls") || e.eq("xlsx") {
        Some(FileCategory::Excel)
    } else {
        None
    }
}

fn web_extension(e: &str) -> (b: bool)
    ensures
        b == is_web_extension(e@),
{
    e.eq("js") || e.eq("cjs") || e.eq("mjs") || e.eq("jsx") || e.eq("ts") || e.eq("tsx") || e.eq(
        "json",
    ) || e.eq("coffee") || e.eq("html") || e.eq("htm") || e.eq("xml") || e.eq("xhtml") || e.eq(
        "vue",
    ) || e.eq("ejs") || e.eq("template") || e.eq("tmpl") || e.eq("pug") || e.eq("art") || e.eq(
        "hbs",
    ) || e.eq("tera") || e.eq("css") || e.eq("scss") || e.eq("sass") || e.eq("less")
}

fn backend_extension(e: &str) -> (b: bool)
    ensures
        b == is_backend_extension(e@),
{
    e.eq("py") || e.eq("pyc") || e.eq("java") || e.eq("kt") || e.eq("kts") || e.eq("gradle")
        || e.eq("groovy") || e.eq("scala") || e.eq("jsp") || e.eq("sh") || e.eq("php") || e.eq(
        "c",
    ) || e.eq("cc") || e.eq("cpp") || e.eq("h") || e.eq("cmake") || e.eq("cs") || e.eq("xaml")
        || e.eq("sln") || e.eq("csproj") || e.eq("go") || e.eq("mod") || e.eq("sum")
}

fn native_extension(e: &str) -> (b: bool)
    ensures
        b == is_native_extension(e@),
{
    e.eq("swift") || e.eq("plist") || e.eq("xib") || e.eq("xcconfig") || e.eq("entitlements")
        || e.eq("xcworkspacedata") || e.eq("pbxproj") || e.eq("rb") || e.eq("rs") || e.eq("m")
        || e.eq("dart") || e.eq("manifest") || e.eq("rc") || e.eq("cmd") || e.eq("bat") || e.eq(
        "ps1",
    ) || e.eq("ini") || e.eq("yaml") || e.eq("toml") || e.eq("conf") || e.eq("properties")
}

/// Looks the extension `e` up in the extension table.
pub fn category_for_extension(e: &str) -> (c: Option<FileCategory>)
    ensures
        c == extension_category(e@),
{
    if archive_extension(e) {
        return Some(FileCategory::Archive);
    }
    let office = office_extension(e);
    if office.is_some() {
        office
    } else if e.eq("heic") {
        Some(FileCategory::Image)
    } else if e.eq("pdf") {
        Some(FileCategory::Pdf)
    } else if web_extension(e) || backend_extension(e) || native_extension(e) {
        Some(FileCategory::Code)
    } else if e.eq("lock") {
        Some(FileCategory::Alt)
    } else {
        None
    }
}

/// The category for a media type.
pub fn category_for_media_type(media: &str) -> (c: FileCategory)
    ensures
        c == media_category(media@),
{
    if media.eq("application/pdf") {
        return FileCategory::Pdf;
    }
    let chars = chars_of(media);
    let mut slash: usize = 0;
    while slash < chars.len() && chars[slash] != '/'
        invariant
            slash <= chars.len(),
            forall|k: int| 0 <= k < slash ==> chars@[k] != '/',
        decreases chars.len() - slash,
    {
        slash += 1;
    }
    let top = string_of(&chars, 0, slash);
    proof {
        lemma_first_index_of(chars@, '/', slash as int);
        assert(chars@.subrange(0, slash as int) =~= chars@.take(slash as int));
    }
    if top.as_str().eq("audio") {
        FileCategory::Audio
    } else if top.as_str().eq("image") {
        FileCategory::Image
    } else if top.as_str().eq("video") {
        FileCategory::Video
    } else if top.as_str().eq("text") {
        FileCategory::Alt
    } else {
        FileCategory::File
    }
}

/// Classifies the file called `name`. The media type is guessed only where
/// the extension table does not know the extension.
pub fn get_file_type(name: &str) -> (c: FileCategory)
    ensures
        c == file_category(name@),
{
    match file_extension(name) {
        None => FileCategory::File,
        Some(e) => match category_for_extension(e.as_str()) {
            Some(c) => c,
            None => {
                let media = guess_media_type(e.as_str());
                category_for_media_type(media.as_str())
            },
        },
    }
}

} // verus!
