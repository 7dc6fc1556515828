//! Classification of directory entries: which directories are pruned, which
//! files count as source, and which content looks binary.

use crate::text::{extension, extension_of, lowercase, str_eq, to_lowercase};
use vstd::prelude::*;

verus! {

/// Extensions (in lowercase) of files that are never source: executables,
/// archives, images, audio and video, office documents, compiled artifacts.
pub open spec fn binary_extension(ext: Seq<char>) -> bool {
    ||| ext == "exe"@
    ||| ext == "dll"@
    ||| ext == "so"@
    ||| ext == "dylib"@
    ||| ext == "bin"@
    ||| ext == "obj"@
    ||| ext == "o"@
    ||| ext == "a"@
    ||| ext == "lib"@
    ||| ext == "zip"@
    ||| ext == "tar"@
    ||| ext == "gz"@
    ||| ext == "bz2"@
    ||| ext == "xz"@
    ||| ext == "7z"@
    ||| ext == "rar"@
    ||| ext == "iso"@
    ||| ext == "jpg"@
    ||| ext == "jpeg"@
    ||| ext == "png"@
    ||| ext == "gif"@
    ||| ext == "bmp"@
    ||| ext == "ico"@
    ||| ext == "tiff"@
    ||| ext == "webp"@
    ||| ext == "mp3"@
    ||| ext == "mp4"@
    ||| ext == "avi"@
    ||| ext == "mov"@
    ||| ext == "wmv"@
    ||| ext == "flv"@
    ||| ext == "mkv"@
    ||| ext == "webm"@
    ||| ext == "pdf"@
    ||| ext == "doc"@
    ||| ext == "docx"@
    ||| ext == "xls"@
    ||| ext == "xlsx"@
    ||| ext == "ppt"@
    ||| ext == "pptx"@
    ||| ext == "wasm"@
    ||| ext == "pyc"@
    ||| ext == "pyo"@
    ||| ext == "class"@
    ||| ext == "jar"@
    ||| ext == "war"@
    ||| ext == "ear"@
}

/// Extensions (in lowercase) of source files: programming languages, markup,
/// configuration and build formats.
pub open spec fn source_extension(ext: Seq<char>) -> bool {
    ||| ext == "rs"@
    ||| ext == "py"@
    ||| ext == "js"@
    ||| ext == "ts"@
    ||| ext == "jsx"@
    ||| ext == "tsx"@
    ||| ext == "java"@
    ||| ext == "cpp"@
    ||| ext == "c"@
    ||| ext == "h"@
    ||| ext == "hpp"@
    ||| ext == "cs"@
    ||| ext == "php"@
    ||| ext == "rb"@
    ||| ext == "go"@
    ||| ext == "swift"@
    ||| ext == "kt"@
    ||| ext == "scala"@
    ||| ext == "clj"@
    ||| ext == "hs"@
    ||| ext == "ml"@
    ||| ext == "elm"@
    ||| ext == "dart"@
    ||| ext == "lua"@
    ||| ext == "r"@
    ||| ext == "m"@
    ||| ext == "mm"@
    ||| ext == "pl"@
    ||| ext == "sh"@
    ||| ext == "bash"@
    ||| ext == "zsh"@
    ||| ext == "fish"@
    ||| ext == "ps1"@
    ||| ext == "bat"@
    ||| ext == "cmd"@
    ||| ext == "vb"@
    ||| ext == "vbs"@
    ||| ext == "f90"@
    ||| ext == "f95"@
    ||| ext == "f03"@
    ||| ext == "f08"@
    ||| ext == "html"@
    ||| ext == "css"@
    ||| ext == "scss"@
    ||| ext == "sass"@
    ||| ext == "less"@
    ||| ext == "vue"@
    ||| ext == "svelte"@
    ||| ext == "json"@
    ||| ext == "xml"@
    ||| ext == "yaml"@
    ||| ext == "yml"@
    ||| ext == "toml"@
    ||| ext == "ini"@
    ||| ext == "cfg"@
    ||| ext == "conf"@
    ||| ext == "md"@
    ||| ext == "rst"@
    ||| ext == "tex"@
    ||| ext == "sql"@
    ||| ext == "graphql"@
    ||| ext == "gql"@
    ||| ext == "proto"@
    ||| ext == "thrift"@
    ||| ext == "avro"@
    ||| ext == "dockerfile"@
    ||| ext == "makefile"@
    ||| ext == "cmake"@
    ||| ext == "gradle"@
    ||| ext == "maven"@
    ||| ext == "sbt"@
    ||| ext == "cabal"@
    ||| ext == "stack"@
}

/// Names (in lowercase) of files without extension that are source by
/// convention.
pub open spec fn special_source_name(name: Seq<char>) -> bool {
    ||| name == "dockerfile"@
    ||| name == "makefile"@
    ||| name == "rakefile"@
    ||| name == "gemfile"@
    ||| name == "podfile"@
    ||| name == "vagrantfile"@
    ||| name == "gulpfile"@
    ||| name == "gruntfile"@
    ||| name == "webpack.config"@
    ||| name == "rollup.config"@
    ||| name == "vite.config"@
    ||| name == "jest.config"@
    ||| name == "babel.config"@
}

/// Names (in lowercase) of directories that are never visited: version control,
/// build output, dependency caches, editor metadata.
pub open spec fn ignored_directory_name(name: Seq<char>) -> bool {
    ||| name == "node_modules"@
    ||| name == ".git"@
    ||| name == ".svn"@
    ||| name == ".hg"@
    ||| name == "target"@
    ||| name == "build"@
    ||| name == "dist"@
    ||| name == ".next"@
    ||| name == ".nuxt"@
    ||| name == "__pycache__"@
    ||| name == ".pytest_cache"@
    ||| name == ".mypy_cache"@
    ||| name == "venv"@
    ||| name == "env"@
    ||| name == ".env"@
    ||| name == ".venv"@
    ||| name == ".tox"@
    ||| name == ".vscode"@
    ||| name == ".idea"@
    ||| name == "bin"@
    ||| name == "obj"@
    ||| name == ".packages"@
    ||| name == "vendor"@
    ||| name == "deps"@
    ||| name == "_build"@
    ||| name == "out"@
    ||| name == "coverage"@
    ||| name == "logs"@
    ||| name == "log"@
    ||| name == "tmp"@
    ||| name == "temp"@
    ||| name == "cache"@
    ||| name == ".cache"@
    ||| name == ".gradle"@
    ||| name == ".settings"@
    ||| name == ".terraform"@
    ||| name == ".serverless"@
    ||| name == ".parcel-cache"@
    ||| name == ".yarn"@
    ||| name == ".pnp"@
    ||| name == ".history"@
    ||| name == ".ds_store"@
    ||| name == ".appledouble"@
    ||| name == ".trashes"@
    ||| name == ".sass-cache"@
    ||| name == ".bundle"@
    ||| name == ".cabal-sandbox"@
    ||| name == ".stack-work"@
    ||| name == ".eggs"@
    ||| name == ".ipynb_checkpoints"@
    ||| name == ".rproj.user"@
    ||| name == ".metadata"@
    ||| name == ".classpath"@
    ||| name == ".project"@
    ||| name == ".externaltoolbuilders"@
    ||| name == ".idea_modules"@
    ||| name == ".nb-gradle"@
    ||| name == ".nb-build"@
    ||| name == ".nbproject"@
    ||| name == ".vagrant"@
    ||| name == ".circleci"@
    ||| name == ".github"@
    ||| name == ".gitlab"@
    ||| name == ".hgstore"@
    ||| name == ".svn-base"@
    ||| name == ".svn-work"@
    ||| name == ".svn-pristine"@
}

/// Whether `ext`, already in lowercase, is a known binary extension.
pub fn is_binary_extension(ext: &str) -> (known: bool)
    ensures
        known == binary_extension(ext@),
{
    str_eq(ext, "exe")
    || str_eq(ext, "dll")
    || str_eq(ext, "so")
    || str_eq(ext, "dylib")
    || str_eq(ext, "bin")
    || str_eq(ext, "obj")
    || str_eq(ext, "o")
    || str_eq(ext, "a")
    || str_eq(ext, "lib")
    || str_eq(ext, "zip")
    || str_eq(ext, "tar")
    || str_eq(ext, "gz")
    || str_eq(ext, "bz2")
    || str_eq(ext, "xz")
    || str_eq(ext, "7z")
    || str_eq(ext, "rar")
    || str_eq(ext, "iso")
    || str_eq(ext, "jpg")
    || str_eq(ext, "jpeg")
    || str_eq(ext, "png")
    || str_eq(ext, "gif")
    || str_eq(ext, "bmp")
    || str_eq(ext, "ico")
    || str_eq(ext, "tiff")
    || str_eq(ext, "webp")
    || str_eq(ext, "mp3")
    || str_eq(ext, "mp4")
    || str_eq(ext, "avi")
    || str_eq(ext, "mov")
    || str_eq(ext, "wmv")
    || str_eq(ext, "flv")
    || str_eq(ext, "mkv")
    || str_eq(ext, "webm")
    || str_eq(ext, "pdf")
    || str_eq(ext, "doc")
    || str_eq(ext, "docx")
    || str_eq(ext, "xls")
    || str_eq(ext, "xlsx")
    || str_eq(ext, "ppt")
    || str_eq(ext, "pptx")
    || str_eq(ext, "wasm")
    || str_eq(ext, "pyc")
    || str_eq(ext, "pyo")
    || str_eq(ext, "class")
    || str_eq(ext, "jar")
    || str_eq(ext, "war")
    || str_eq(ext, "ear")
}

/// Whether `ext`, already in lowercase, is a known source extension.
pub fn is_source_extension(ext: &str) -> (known: bool)
    ensures
        known == source_extension(ext@),
{
    str_eq(ext, "rs")
    || str_eq(ext, "py")
    || str_eq(ext, "js")
    || str_eq(ext, "ts")
    || str_eq(ext, "jsx")
    || str_eq(ext, "tsx")
    || str_eq(ext, "java")
    || str_eq(ext, "cpp")
    || str_eq(ext, "c")
    || str_eq(ext, "h")
    || str_eq(ext, "hpp")
    || str_eq(ext, "cs")
    || str_eq(ext, "php")
    || str_eq(ext, "rb")
    || str_eq(ext, "go")
    || str_eq(ext, "swift")
    || str_eq(ext, "kt")
    || str_eq(ext, "scala")
    || str_eq(ext, "clj")
    || str_eq(ext, "hs")
    || str_eq(ext, "ml")
    || str_eq(ext, "elm")
    || str_eq(ext, "dart")
    || str_eq(ext, "lua")
    || str_eq(ext, "r")
    || str_eq(ext, "m")
    || str_eq(ext, "mm")
    || str_eq(ext, "pl")
    || str_eq(ext, "sh")
    || str_eq(ext, "bash")
    || str_eq(ext, "zsh")
    || str_eq(ext, "fish")
    || str_eq(ext, "ps1")
    || str_eq(ext, "bat")
    || str_eq(ext, "cmd")
    || str_eq(ext, "vb")
    || str_eq(ext, "vbs")
    || str_eq(ext, "f90")
    || str_eq(ext, "f95")
    || str_eq(ext, "f03")
    || str_eq(ext, "f08")
    || str_eq(ext, "html")
    || str_eq(ext, "css")
    || str_eq(ext, "scss")
    || str_eq(ext, "sass")
    || str_eq(ext, "less")
    || str_eq(ext, "vue")
    || str_eq(ext, "svelte")
    || str_eq(ext, "json")
    || str_eq(ext, "xml")
    || str_eq(ext, "yaml")
    || str_eq(ext, "yml")
    || str_eq(ext, "toml")
    || str_eq(ext, "ini")
    || str_eq(ext, "cfg")
    || str_eq(ext, "conf")
    || str_eq(ext, "md")
    || str_eq(ext, "rst")
    || str_eq(ext, "tex")
    || str_eq(ext, "sql")
    || str_eq(ext, "graphql")
    || str_eq(ext, "gql")
    || str_eq(ext, "proto")
    || str_eq(ext, "thrift")
    || str_eq(ext, "avro")
    || str_eq(ext, "dockerfile")
    || str_eq(ext, "makefile")
    || str_eq(ext, "cmake")
    || str_eq(ext, "gradle")
    || str_eq(ext, "maven")
    || str_eq(ext, "sbt")
    || str_eq(ext, "cabal")
    || str_eq(ext, "stack")
}

/// Whether `name`, already in lowercase, is a conventional source file name.
pub fn is_special_source_name(name: &str) -> (known: bool)
    ensures
        known == special_source_name(name@),
{
    str_eq(name, "dockerfile")
    || str_eq(name, "makefile")
    || str_eq(name, "rakefile")
    || str_eq(name, "gemfile")
    || str_eq(name, "podfile")
    || str_eq(name, "vagrantfile")
    || str_eq(name, "gulpfile")
    || str_eq(name, "gruntfile")
    || str_eq(name, "webpack.config")
    || str_eq(name, "rollup.config")
    || str_eq(name, "vite.config")
    || str_eq(name, "jest.config")
    || str_eq(name, "babel.config")
}

/// Whether `name`, already in lowercase, is on the list of pruned directories.
pub fn is_ignored_directory_name(name: &str) -> (ignored: bool)
    ensures
        ignored == ignored_directory_name(name@),
{
    str_eq(name, "node_modules")
    || str_eq(name, ".git")
    || str_eq(name, ".svn")
    || str_eq(name, ".hg")
    || str_eq(name, "target")
    || str_eq(name, "build")
    || str_eq(name, "dist")
    || str_eq(name, ".next")
    || str_eq(name, ".nuxt")
    || str_eq(name, "__pycache__")
    || str_eq(name, ".pytest_cache")
    || str_eq(name, ".mypy_cache")
    || str_eq(name, "venv")
    || str_eq(name, "env")
    || str_eq(name, ".env")
    || str_eq(name, ".venv")
    || str_eq(name, ".tox")
    || str_eq(name, ".vscode")
    || str_eq(name, ".idea")
    || str_eq(name, "bin")
    || str_eq(name, "obj")
    || str_eq(name, ".packages")
    || str_eq(name, "vendor")
    || str_eq(name, "deps")
    || str_eq(name, "_build")
    || str_eq(name, "out")
    || str_eq(name, "coverage")
    || str_eq(name, "logs")
    || str_eq(name, "log")
    || str_eq(name, "tmp")
    || str_eq(name, "temp")
    || str_eq(name, "cache")
    || str_eq(name, ".cache")
    || str_eq(name, ".gradle")
    || str_eq(name, ".settings")
    || str_eq(name, ".terraform")
    || str_eq(name, ".serverless")
    || str_eq(name, ".parcel-cache")
    || str_eq(name, ".yarn")
    || str_eq(name, ".pnp")
    || str_eq(name, ".history")
    || str_eq(name, ".ds_store")
    || str_eq(name, ".appledouble")
    || str_eq(name, ".trashes")
    || str_eq(name, ".sass-cache")
    || str_eq(name, ".bundle")
    || str_eq(name, ".cabal-sandbox")
    || str_eq(name, ".stack-work")
    || str_eq(name, ".eggs")
    || str_eq(name, ".ipynb_checkpoints")
    || str_eq(name, ".rproj.user")
    || str_eq(name, ".metadata")
    || str_eq(name, ".classpath")
    || str_eq(name, ".project")
    || str_eq(name, ".externaltoolbuilders")
    || str_eq(name, ".idea_modules")
    || str_eq(name, ".nb-gradle")
    || str_eq(name, ".nb-build")
    || str_eq(name, ".nbproject")
    || str_eq(name, ".vagrant")
    || str_eq(name, ".circleci")
    || str_eq(name, ".github")
    || str_eq(name, ".gitlab")
    || str_eq(name, ".hgstore")
    || str_eq(name, ".svn-base")
    || str_eq(name, ".svn-work")
    || str_eq(name, ".svn-pristine")
}

/// A file name has a known binary extension, whatever the case of its letters.
pub open spec fn known_binary(file_name: Seq<char>) -> bool {
    match extension_of(file_name) {
        Some(ext) => binary_extension(lowercase(ext)),
        None => false,
    }
}

/// A file name without extension is a conventional source file name, whatever
/// the case of its letters.
pub open spec fn special_source(file_name: Seq<char>) -> bool {
    special_source_name(lowercase(file_name))
}

/// A file name denotes a source file: its extension is not a binary one and is
/// a source one, or it has no extension and is a conventional source name.
pub open spec fn source_file(file_name: Seq<char>) -> bool {
    match extension_of(file_name) {
        Some(ext) => !binary_extension(lowercase(ext)) && source_extension(lowercase(ext)),
        None => special_source(file_name),
    }
}

/// A directory name is on the pruning list, whatever the case of its letters.
pub open spec fn skipped_directory(dir_name: Seq<char>) -> bool {
    ignored_directory_name(lowercase(dir_name))
}

/// Whether the file name ends in a known binary extension.
pub fn is_known_binary_extension(file_name: &str) -> (binary: bool)
    ensures
        binary == known_binary(file_name@),
{
    match extension(file_name) {
        Some(ext) => {
            let lowered = to_lowercase(ext);
            is_binary_extension(lowered.as_str())
        },
        None => false,
    }
}

/// Whether a file without extension carries a conventional source name.
pub fn is_special_source_file(file_name: &str) -> (special: bool)
    ensures
        special == special_source(file_name@),
{
    let lowered = to_lowercase(file_name);
    is_special_source_name(lowered.as_str())
}

/// Whether the file name denotes a source file. Decided by the name alone.
pub fn is_source_file(file_name: &str) -> (source: bool)
    ensures
        source == source_file(file_name@),
{
    if is_known_binary_extension(file_name) {
        return false;
    }
    match extension(file_name) {
        Some(ext) => {
            let lowered = to_lowercase(ext);
            is_source_extension(lowered.as_str())
        },
        None => is_special_source_file(file_name),
    }
}

/// Whether a directory of this name is pruned from the walk.
pub fn should_skip_directory(dir_name: &str) -> (skip: bool)
    ensures
        skip == skipped_directory(dir_name@),
{
    let lowered = to_lowercase(dir_name);
    is_ignored_directory_name(lowered.as_str())
}

/// How many leading bytes of a file are looked at when sniffing its content.
pub const SAMPLE_SIZE: usize = 8192;

/// How many leading bytes are searched for control characters.
pub const CONTROL_WINDOW: usize = 1024;

/// A control character other than tab, line feed, form feed and carriage
/// return.
pub open spec fn control_byte(byte: u8) -> bool {
    (byte < 32 && byte != 9 && byte != 10 && byte != 13 && byte != 12) || byte == 127
}

/// Number of control bytes in `bytes`.
pub open spec fn control_count(bytes: Seq<u8>) -> nat
    decreases bytes.len(),
{
    if bytes.len() == 0 {
        0
    } else {
        control_count(bytes.drop_last()) + if control_byte(bytes.last()) {
            1nat
        } else {
            0nat
        }
    }
}

/// The bytes start with a UTF-16 byte order mark, in either byte order.
pub open spec fn utf16_mark(bytes: Seq<u8>) -> bool {
    bytes.len() >= 2 && ((bytes[0] == 0xFF && bytes[1] == 0xFE) || (bytes[0] == 0xFE && bytes[1]
        == 0xFF))
}

/// The first `limit` bytes of `bytes`, or all of them if there are fewer.
pub open spec fn leading(bytes: Seq<u8>, limit: int) -> Seq<u8> {
    if bytes.len() <= limit {
        bytes
    } else {
        bytes.take(limit)
    }
}

/// More than 30% of the leading bytes are control bytes.
pub open spec fn mostly_control(bytes: Seq<u8>) -> bool {
    let window = leading(bytes, CONTROL_WINDOW as int);
    10 * control_count(window) > 3 * window.len()
}

/// A sample of bytes looks binary: it starts with a UTF-16 byte order mark,
/// or holds a NUL byte, or too many of its leading bytes are control bytes.
pub open spec fn binary_content(sample: Seq<u8>) -> bool {
    utf16_mark(sample) || sample.contains(0u8) || mostly_control(sample)
}

/// A file is likely binary: by its name, or by the first bytes of its content
/// where a sample is at hand.
pub open spec fn likely_binary(file_name: Seq<char>, sample: Option<Seq<u8>>) -> bool {
    known_binary(file_name) || match sample {
        Some(bytes) => binary_content(leading(bytes, SAMPLE_SIZE as int)),
        None => false,
    }
}

/// Calls `memchr::memchr`: the index of the first occurrence of `needle` in
/// `haystack`, or `None` if it does not occur.
#[verifier::external_body]
fn find_byte(needle: u8, haystack: &[u8]) -> (found: Option<usize>)
    ensures
        match found {
            Some(i) => i < haystack@.len() && haystack@[i as int] == needle && forall|j: int|
                0 <= j < i ==> haystack@[j] != needle,
            None => forall|j: int| 0 <= j < haystack@.len() ==> haystack@[j] != needle,
        },
{
    memchr::memchr(needle, haystack)
}

/// Whether `byte` is a control character outside the allowed four.
pub fn is_control_byte(byte: u8) -> (control: bool)
    ensures
        control == control_byte(byte),
{
    (byte < 32 && byte != 9 && byte != 10 && byte != 13 && byte != 12) || byte == 127
}

/// Whether a sample of bytes looks binary.
pub fn is_binary_slice(slice: &[u8]) -> (binary: bool)
    ensures
        binary == binary_content(slice@),
{
    if slice.len() >= 2 {
        if (slice[0] == 0xFF && slice[1] == 0xFE) || (slice[0] == 0xFE && slice[1] == 0xFF) {
            return true;
        }
    }
    if find_byte(0, slice).is_some() {
        return true;
    }
    let check_limit: usize = if slice.len() < CONTROL_WINDOW {
        slice.len()
    } else {
        CONTROL_WINDOW
    };
    let ghost window = leading(slice@, CONTROL_WINDOW as int);
    let mut control_chars: usize = 0;
    let mut i: usize = 0;
    while i < check_limit
        invariant
            i <= check_limit <= slice@.len(),
            check_limit <= CONTROL_WINDOW,
            window == leading(slice@, CONTROL_WINDOW as int),
            window.len() == check_limit,
            control_chars <= i,
            control_chars == control_count(window.take(i as int)),
        decreases check_limit - i,
    {
        proof {
            let next = window.take(i + 1);
            assert(next.drop_last() =~= window.take(i as int));
            assert(next.last() == slice@[i as int]);
        }
        if is_control_byte(slice[i]) {
            control_chars += 1;
        }
        i += 1;
    }
    assert(window.take(check_limit as int) =~= window);
    control_chars * 10 > check_limit * 3
}

/// Whether a file is likely binary, judged by its name and, if given, by a
/// sample of its content. Only the first `SAMPLE_SIZE` bytes of the sample
/// are looked at.
pub fn is_likely_binary(file_name: &str, sample: Option<&[u8]>) -> (binary: bool)
    ensures
        binary == likely_binary(
            file_name@,
            match sample {
                Some(bytes) => Some(bytes@),
                None => None,
            },
        ),
{
    if is_known_binary_extension(file_name) {
        return true;
    }
    match sample {
        Some(bytes) => {
            if bytes.len() <= SAMPLE_SIZE {
                is_binary_slice(bytes)
            } else {
                is_binary_slice(&bytes[0..SAMPLE_SIZE])
            }
        },
        None => false,
    }
}

} // verus!
