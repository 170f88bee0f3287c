use vstd::prelude::*;
use vstd::string::*;

use crate::format::{resolve_format, resolves_to, FileFormat, FormatError};
use crate::render::{apply_case, cased, display_name, escaped_text, format_line, line_text, lossy_of};

verus! {

#[verifier::external_type_specification]
#[verifier::external_body]
pub struct ExAlgorithm(checksums::Algorithm);

#[verifier::external_type_specification]
#[verifier::external_body]
pub struct ExRegex(regex::bytes::Regex);

#[verifier::external_type_specification]
#[verifier::external_body]
pub struct ExRegexError(regex::Error);

/// Whether `regex::bytes::Regex::new` accepts the pattern.
pub uninterp spec fn regex_compiles(pattern: Seq<char>) -> bool;

/// Whether the byte regex written `pattern` matches somewhere in `hay`.
pub uninterp spec fn regex_matches(pattern: Seq<char>, hay: Seq<u8>) -> bool;

/// The final component of a path, as `std::path::Path::file_name` sees it.
pub uninterp spec fn file_name_of(path: Seq<char>) -> Option<Seq<char>>;

/// A byte regex over entry paths, kept with the text it was compiled from.
/// Only `PathFilter::new` builds one, so `re` is always `pattern` compiled.
pub struct PathFilter {
    pattern: String,
    re: regex::bytes::Regex,
}

/// Why a filter pattern was refused.
#[derive(Debug, Clone, PartialEq, Eq)]
pub struct FilterError {
    pub message: String,
}

/// Relies on `regex::bytes::Regex::new`: compiles the pattern, or fails
/// on an invalid one; which of the two depends on the pattern alone.
#[verifier::external_body]
fn compile(pattern: &str) -> (r: Result<regex::bytes::Regex, regex::Error>)
    ensures
        r is Ok <==> regex_compiles(pattern@),
{
    regex::bytes::Regex::new(pattern)
}

/// Relies on `regex::Error`'s `Display`: a message for people.
#[verifier::external_body]
fn regex_error_text(e: &regex::Error) -> (r: String) {
    e.to_string()
}

/// Relies on `regex::bytes::Regex::is_match`: whether the compiled pattern
/// matches anywhere in the bytes, which depends on the two alone.
#[verifier::external_body]
fn regex_is_match(f: &PathFilter, hay: &[u8]) -> (r: bool)
    ensures
        r == regex_matches(f.pattern@, hay@),
{
    f.re.is_match(hay)
}

/// Relies on `std::path::Path::file_name`: the final component of the
/// path, or none where the path ends in `..` or is a root.
#[verifier::external_body]
fn final_component(path: &str) -> (r: Option<String>)
    ensures
        match r {
            Some(n) => file_name_of(path@) == Some(n@),
            None => file_name_of(path@) == None::<Seq<char>>,
        },
{
    std::path::Path::new(path).file_name().map(|n| n.to_string_lossy().into_owned())
}

impl PathFilter {
    /// The text the filter was compiled from.
    pub closed spec fn pattern(&self) -> Seq<char> {
        self.pattern@
    }

    /// Compiles a byte regex for entry paths.
    pub fn new(pattern: &str) -> (r: Result<PathFilter, FilterError>)
        ensures
            r is Ok <==> regex_compiles(pattern@),
            r matches Ok(f) ==> f.pattern() == pattern@,
    {
        match compile(pattern) {
            Ok(re) => Ok(PathFilter { pattern: String::from_str(pattern), re }),
            Err(e) => Err(FilterError { message: regex_error_text(&e) }),
        }
    }

    /// Whether the filter matches somewhere in the raw path bytes.
    pub fn path_matches(&self, path: &[u8]) -> (r: bool)
        ensures
            r == regex_matches(self.pattern(), path@),
    {
        regex_is_match(self, path)
    }
}

/// What the listing of one archive is asked to do.
pub struct Opts {
    /// Only entries whose path the filter matches are listed.
    pub regex: Option<PathFilter>,
    /// The digest algorithm.
    pub hash: checksums::Algorithm,
    /// Digests are given in lower case.
    pub lower: bool,
    /// Names are escaped instead of decoded lossily.
    pub escaped: bool,
    /// The format, overriding the target's extensions.
    pub format: Option<FileFormat>,
    /// 0: no size; 1: size in bytes; 2 or more: human-readable size.
    pub size: u32,
    /// The path of the archive; standard input where there is none.
    pub target: Option<String>,
}

/// Whether an entry is listed: directories never are, and a filter, where
/// there is one, must match the raw path.
pub open spec fn listed(filter: Option<Seq<char>>, is_dir: bool, path: Seq<u8>) -> bool {
    !is_dir && match filter {
        None => true,
        Some(p) => regex_matches(p, path),
    }
}

/// The rendering of raw name bytes.
pub open spec fn rendered_name(path: Seq<u8>, escaped: bool) -> Seq<char> {
    if escaped {
        escaped_text(path)
    } else {
        lossy_of(path)
    }
}

impl Opts {
    /// The pattern of the filter, where there is one.
    pub open spec fn filter_pattern(&self) -> Option<Seq<char>> {
        match self.regex {
            Some(f) => Some(f.pattern()),
            None => None,
        }
    }

    /// The format to read: the explicit one, or the one that the
    /// extensions of the target's final name component give.
    pub fn format(&self) -> (r: Result<FileFormat, FormatError>)
        ensures
            match self.format {
                Some(f) => r == Ok::<FileFormat, FormatError>(f),
                None => match self.target {
                    None => r == Err::<FileFormat, FormatError>(FormatError::NoTarget),
                    Some(t) => match file_name_of(t@) {
                        None => r == Err::<FileFormat, FormatError>(FormatError::NotAFile),
                        Some(n) => resolves_to(None, Some(n), r),
                    },
                },
            },
    {
        match self.format {
            Some(f) => Ok(f),
            None => match &self.target {
                None => Err(FormatError::NoTarget),
                Some(t) => match final_component(t.as_str()) {
                    None => Err(FormatError::NotAFile),
                    Some(n) => resolve_format(None, Some(n.as_str())),
                },
            },
        }
    }

    /// Whether an entry with this kind and raw path is listed.
    pub fn selects(&self, is_dir: bool, path: &[u8]) -> (r: bool)
        ensures
            r == listed(self.filter_pattern(), is_dir, path@),
    {
        if is_dir {
            false
        } else {
            match &self.regex {
                None => true,
                Some(f) => f.path_matches(path),
            }
        }
    }

    /// The line for one listed entry, from its raw path, its size and the
    /// digest of its content as the algorithm gave it; the digest is put in
    /// the case asked for.
    pub fn entry_line(&self, path: &[u8], size: u64, raw_hash: String) -> (r: String)
        ensures
            r@ == line_text(
                rendered_name(path@, self.escaped),
                cased(raw_hash@, self.lower),
                size,
                self.size,
            ),
    {
        let hash = apply_case(raw_hash, self.lower);
        let name = display_name(path, self.escaped);
        format_line(name.as_str(), hash.as_str(), size, self.size)
    }
}

} // verus!
