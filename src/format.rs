use vstd::prelude::*;
use vstd::string::*;

verus! {

/// The archive kinds that hold entries.
#[derive(Debug, Clone, Copy, PartialEq, Eq, Structural)]
pub enum Container {
    Zip,
    Tar,
}

/// The single-stream compressors that may wrap a tar archive.
#[derive(Debug, Clone, Copy, PartialEq, Eq, Structural)]
pub enum Compressor {
    Gz,
    Xz,
    Bz2,
}

/// The compound formats that can be listed.
#[derive(Debug, Clone, Copy, PartialEq, Eq, Structural)]
pub enum FileFormat {
    Zip,
    Tar,
    TarGz,
    TarXz,
    TarBz2,
}

/// A recognized file-name extension, compared without regard to ASCII case.
#[derive(Debug, Clone, Copy, PartialEq, Eq, Structural)]
pub enum Ext {
    Zip,
    Tar,
    Gz,
    Xz,
    Bz2,
}

/// Why no format could be resolved.
#[derive(Debug, Clone, PartialEq, Eq)]
pub enum FormatError {
    /// Neither a format nor a target was given.
    NoTarget,
    /// The target path has no final file-name component.
    NotAFile,
    /// The target's name ends in no recognized extension.
    NoExtension,
    /// The extensions (or the given token), lower-cased, name no format.
    Unrecognized(String),
}

/// `c` is the letter `lo` or its upper-case form `up`.
pub open spec fn either_case(c: char, lo: char, up: char) -> bool {
    c == lo || c == up
}

/// The extension that `piece` spells, if any.
pub open spec fn ext_of(piece: Seq<char>) -> Option<Ext> {
    if piece.len() == 3 && either_case(piece[0], 'z', 'Z') && either_case(piece[1], 'i', 'I')
        && either_case(piece[2], 'p', 'P') {
        Some(Ext::Zip)
    } else if piece.len() == 3 && either_case(piece[0], 't', 'T') && either_case(
        piece[1],
        'a',
        'A',
    ) && either_case(piece[2], 'r', 'R') {
        Some(Ext::Tar)
    } else if piece.len() == 2 && either_case(piece[0], 'g', 'G') && either_case(
        piece[1],
        'z',
        'Z',
    ) {
        Some(Ext::Gz)
    } else if piece.len() == 2 && either_case(piece[0], 'x', 'X') && either_case(
        piece[1],
        'z',
        'Z',
    ) {
        Some(Ext::Xz)
    } else if piece.len() == 3 && either_case(piece[0], 'b', 'B') && either_case(
        piece[1],
        'z',
        'Z',
    ) && piece[2] == '2' {
        Some(Ext::Bz2)
    } else {
        None
    }
}

/// Number of characters after the last `.` of `s` (all of `s` if it has none).
pub open spec fn tail_len(s: Seq<char>) -> nat
    decreases s.len(),
{
    if s.len() == 0 || s.last() == '.' {
        0
    } else {
        1 + tail_len(s.drop_last())
    }
}

/// The last dot-separated piece of `s`.
pub open spec fn last_piece(s: Seq<char>) -> Seq<char> {
    s.subrange(s.len() - tail_len(s), s.len() as int)
}

/// Reading `s`'s dot-separated pieces from the right, the longest run of
/// recognized extensions, given back in left-to-right order.
pub open spec fn known_tail(s: Seq<char>) -> Seq<Ext>
    decreases s.len(),
{
    match ext_of(last_piece(s)) {
        None => Seq::empty(),
        Some(e) => if tail_len(s) >= s.len() {
            seq![e]
        } else {
            known_tail(s.subrange(0, s.len() - tail_len(s) - 1)).push(e)
        },
    }
}

/// The extension chain of a file name: a trailing `.` ends no piece.
pub open spec fn ext_chain(name: Seq<char>) -> Seq<Ext> {
    if name.len() > 0 && name.last() == '.' {
        known_tail(name.drop_last())
    } else {
        known_tail(name)
    }
}

/// The lower-case text of one extension.
pub open spec fn ext_text(e: Ext) -> Seq<char> {
    match e {
        Ext::Zip => seq!['z', 'i', 'p'],
        Ext::Tar => seq!['t', 'a', 'r'],
        Ext::Gz => seq!['g', 'z'],
        Ext::Xz => seq!['x', 'z'],
        Ext::Bz2 => seq!['b', 'z', '2'],
    }
}

/// The extensions of `c` joined by `.`.
pub open spec fn chain_text(c: Seq<Ext>) -> Seq<char>
    decreases c.len(),
{
    if c.len() == 0 {
        Seq::empty()
    } else if c.len() == 1 {
        ext_text(c[0])
    } else {
        chain_text(c.drop_last()) + seq!['.'] + ext_text(c.last())
    }
}

/// The format that an extension chain names.
pub open spec fn chain_format(c: Seq<Ext>) -> Option<FileFormat> {
    if c =~= seq![Ext::Zip] {
        Some(FileFormat::Zip)
    } else if c =~= seq![Ext::Tar] {
        Some(FileFormat::Tar)
    } else if c =~= seq![Ext::Tar, Ext::Gz] {
        Some(FileFormat::TarGz)
    } else if c =~= seq![Ext::Tar, Ext::Xz] {
        Some(FileFormat::TarXz)
    } else if c =~= seq![Ext::Tar, Ext::Bz2] {
        Some(FileFormat::TarBz2)
    } else {
        None
    }
}

/// The format that a lower-case, trimmed token names.
pub open spec fn token_format(t: Seq<char>) -> Option<FileFormat> {
    if t == seq!['z', 'i', 'p'] || t == seq!['j', 'a', 'r'] {
        Some(FileFormat::Zip)
    } else if t == seq!['t', 'a', 'r'] {
        Some(FileFormat::Tar)
    } else if t == seq!['t', 'a', 'r', '.', 'g', 'z'] {
        Some(FileFormat::TarGz)
    } else if t == seq!['t', 'a', 'r', '.', 'x', 'z'] {
        Some(FileFormat::TarXz)
    } else if t == seq!['t', 'a', 'r', '.', 'b', 'z', '2'] {
        Some(FileFormat::TarBz2)
    } else {
        None
    }
}

/// `r` is what resolving a format gives, from an explicit choice and the
/// target's final name component (`None` where there is no target).
pub open spec fn resolves_to(
    explicit: Option<FileFormat>,
    name: Option<Seq<char>>,
    r: Result<FileFormat, FormatError>,
) -> bool {
    match explicit {
        Some(f) => r == Ok::<FileFormat, FormatError>(f),
        None => match name {
            None => r == Err::<FileFormat, FormatError>(FormatError::NoTarget),
            Some(n) => {
                let c = ext_chain(n);
                if c.len() == 0 {
                    r == Err::<FileFormat, FormatError>(FormatError::NoExtension)
                } else {
                    match chain_format(c) {
                        Some(f) => r == Ok::<FileFormat, FormatError>(f),
                        None => match r {
                            Err(FormatError::Unrecognized(t)) => t@ == chain_text(c),
                            _ => false,
                        },
                    }
                }
            },
        },
    }
}


/// The characters of the trimmed text that `str::trim` gives back.
pub uninterp spec fn trim_of(s: Seq<char>) -> Seq<char>;

/// The text that `str::to_lowercase` gives back.
pub uninterp spec fn lower_of(s: Seq<char>) -> Seq<char>;

/// Relies on `str::trim`: strips leading and trailing white space; the
/// result depends on the text alone.
#[verifier::external_body]
fn trimmed(s: &str) -> (r: &str)
    ensures
        r@ == trim_of(s@),
{
    s.trim()
}

/// Relies on `str::to_lowercase`: the Unicode lower-case form of the text,
/// which depends on the text alone.
#[verifier::external_body]
fn lowercase(s: &str) -> (r: String)
    ensures
        r@ == lower_of(s@),
{
    s.to_lowercase()
}

/// Whether two texts are equal, character by character.
fn same_text(a: &str, b: &str) -> (r: bool)
    ensures
        r == (a@ == b@),
{
    let n = a.unicode_len();
    if n != b.unicode_len() {
        return false;
    }
    let mut i: usize = 0;
    while i < n
        invariant
            n == a@.len(),
            n == b@.len(),
            i <= n,
            forall|j: int| 0 <= j < i ==> a@[j] == b@[j],
        decreases n - i,
    {
        if a.get_char(i) != b.get_char(i) {
            return false;
        }
        i = i + 1;
    }
    assert(a@ =~= b@);
    true
}

/// The lower-case text of one extension.
pub fn ext_str(e: Ext) -> (r: &'static str)
    ensures
        r@ == ext_text(e),
{
    match e {
        Ext::Zip => {
            proof { reveal_strlit("zip"); }
            "zip"
        },
        Ext::Tar => {
            proof { reveal_strlit("tar"); }
            "tar"
        },
        Ext::Gz => {
            proof { reveal_strlit("gz"); }
            "gz"
        },
        Ext::Xz => {
            proof { reveal_strlit("xz"); }
            "xz"
        },
        Ext::Bz2 => {
            proof { reveal_strlit("bz2"); }
            "bz2"
        },
    }
}

/// The extension spelled by the characters `start..end` of `name`.
fn ext_at(name: &str, start: usize, end: usize) -> (r: Option<Ext>)
    requires
        start <= end <= name@.len(),
    ensures
        r == ext_of(name@.subrange(start as int, end as int)),
{
    let ghost p = name@.subrange(start as int, end as int);
    let len = end - start;
    if len == 2 {
        let c0 = name.get_char(start);
        let c1 = name.get_char(start + 1);
        assert(p[0] == c0 && p[1] == c1);
        if (c0 == 'g' || c0 == 'G') && (c1 == 'z' || c1 == 'Z') {
            Some(Ext::Gz)
        } else if (c0 == 'x' || c0 == 'X') && (c1 == 'z' || c1 == 'Z') {
            Some(Ext::Xz)
        } else {
            None
        }
    } else if len == 3 {
        let c0 = name.get_char(start);
        let c1 = name.get_char(start + 1);
        let c2 = name.get_char(start + 2);
        assert(p[0] == c0 && p[1] == c1 && p[2] == c2);
        if (c0 == 'z' || c0 == 'Z') && (c1 == 'i' || c1 == 'I') && (c2 == 'p' || c2 == 'P') {
            Some(Ext::Zip)
        } else if (c0 == 't' || c0 == 'T') && (c1 == 'a' || c1 == 'A') && (c2 == 'r' || c2
            == 'R') {
            Some(Ext::Tar)
        } else if (c0 == 'b' || c0 == 'B') && (c1 == 'z' || c1 == 'Z') && c2 == '2' {
            Some(Ext::Bz2)
        } else {
            None
        }
    } else {
        None
    }
}

/// Where the last dot-separated piece of the first `end` characters starts.
fn piece_start(name: &str, end: usize) -> (r: usize)
    requires
        end <= name@.len(),
    ensures
        r == end - tail_len(name@.subrange(0, end as int)),
{
    let mut i: usize = end;
    while i > 0 && name.get_char(i - 1) != '.'
        invariant
            i <= end <= name@.len(),
            tail_len(name@.subrange(0, end as int)) == (end - i) + tail_len(
                name@.subrange(0, i as int),
            ),
        decreases i,
    {
        assert(name@.subrange(0, i as int).drop_last() =~= name@.subrange(0, i - 1));
        i = i - 1;
    }
    i
}

/// The extension chain that ends `name`, outermost last.
pub fn extension_chain(name: &str) -> (r: Vec<Ext>)
    ensures
        r@ == ext_chain(name@),
{
    let n = name.unicode_len();
    let mut end: usize = n;
    if n > 0 && name.get_char(n - 1) == '.' {
        end = n - 1;
    }
    let ghost s0 = name@.subrange(0, end as int);
    assert(s0 =~= (if n > 0 && name@.last() == '.' { name@.drop_last() } else { name@ }));
    assert(ext_chain(name@) == known_tail(s0));
    let mut acc: Vec<Ext> = Vec::new();
    assert(s0.subrange(0, end as int) =~= s0);
    assert(known_tail(s0) + acc@ =~= known_tail(s0));
    loop
        invariant
            end <= s0.len(),
            s0 == name@.subrange(0, s0.len() as int),
            s0.len() <= name@.len(),
            ext_chain(name@) == known_tail(s0),
            known_tail(s0) == known_tail(s0.subrange(0, end as int)) + acc@,
        decreases end,
    {
        let ghost p = s0.subrange(0, end as int);
        assert(p =~= name@.subrange(0, end as int));
        let start = piece_start(name, end);
        assert(last_piece(p) =~= name@.subrange(start as int, end as int));
        match ext_at(name, start, end) {
            None => {
                assert(known_tail(p) == Seq::<Ext>::empty());
                assert(known_tail(s0) =~= acc@);
                return acc;
            },
            Some(e) => {
                acc.insert(0, e);
                if start == 0 {
                    assert(known_tail(p) == seq![e]);
                    assert(known_tail(s0) =~= acc@);
                    return acc;
                }
                assert(p.subrange(0, p.len() - tail_len(p) - 1) =~= s0.subrange(
                    0,
                    start - 1,
                ));
                end = start - 1;
                assert(known_tail(s0) =~= known_tail(s0.subrange(0, end as int)) + acc@);
            },
        }
    }
}


/// The extensions of `c` joined by `.`.
pub fn chain_string(c: &Vec<Ext>) -> (r: String)
    ensures
        r@ == chain_text(c@),
{
    let mut out = String::new();
    let mut i: usize = 0;
    while i < c.len()
        invariant
            i <= c@.len(),
            out@ == chain_text(c@.subrange(0, i as int)),
        decreases c@.len() - i,
    {
        let ghost pre = c@.subrange(0, i as int);
        let ghost next = c@.subrange(0, i + 1);
        assert(next.drop_last() =~= pre);
        if i > 0 {
            out.append(".");
            proof { reveal_strlit("."); }
        }
        out.append(ext_str(c[i]));
        assert(out@ =~= chain_text(next));
        i = i + 1;
    }
    assert(c@.subrange(0, c@.len() as int) =~= c@);
    out
}

/// The format that an extension chain names, if any.
pub fn chain_to_format(c: &Vec<Ext>) -> (r: Option<FileFormat>)
    ensures
        r == chain_format(c@),
{
    if c.len() == 1 {
        match c[0] {
            Ext::Zip => {
                assert(c@ =~= seq![Ext::Zip]);
                Some(FileFormat::Zip)
            },
            Ext::Tar => {
                assert(c@ =~= seq![Ext::Tar]);
                Some(FileFormat::Tar)
            },
            _ => None,
        }
    } else if c.len() == 2 && c[0] == Ext::Tar {
        match c[1] {
            Ext::Gz => {
                assert(c@ =~= seq![Ext::Tar, Ext::Gz]);
                Some(FileFormat::TarGz)
            },
            Ext::Xz => {
                assert(c@ =~= seq![Ext::Tar, Ext::Xz]);
                Some(FileFormat::TarXz)
            },
            Ext::Bz2 => {
                assert(c@ =~= seq![Ext::Tar, Ext::Bz2]);
                Some(FileFormat::TarBz2)
            },
            _ => None,
        }
    } else {
        None
    }
}

/// The final name component's view, where there is one.
pub open spec fn name_view(name: Option<&str>) -> Option<Seq<char>> {
    match name {
        Some(n) => Some(n@),
        None => None,
    }
}

/// Resolves the format to list: an explicit choice wins; otherwise the
/// extension chain of the target's final name component decides.
pub fn resolve_format(explicit: Option<FileFormat>, name: Option<&str>) -> (r: Result<
    FileFormat,
    FormatError,
>)
    ensures
        resolves_to(explicit, name_view(name), r),
{
    match explicit {
        Some(f) => Ok(f),
        None => match name {
            None => Err(FormatError::NoTarget),
            Some(n) => {
                let c = extension_chain(n);
                if c.len() == 0 {
                    Err(FormatError::NoExtension)
                } else {
                    match chain_to_format(&c) {
                        Some(f) => Ok(f),
                        None => Err(FormatError::Unrecognized(chain_string(&c))),
                    }
                }
            },
        },
    }
}

impl FileFormat {
    /// The format that a trimmed, lower-case token names; an unknown token
    /// is given back in the error.
    pub fn from_lowered(t: &str) -> (r: Result<FileFormat, FormatError>)
        ensures
            match token_format(t@) {
                Some(f) => r == Ok::<FileFormat, FormatError>(f),
                None => match r {
                    Err(FormatError::Unrecognized(u)) => u@ == t@,
                    _ => false,
                },
            },
    {
        proof {
            reveal_strlit("zip");
            reveal_strlit("jar");
            reveal_strlit("tar");
            reveal_strlit("tar.gz");
            reveal_strlit("tar.xz");
            reveal_strlit("tar.bz2");
            assert("zip"@ =~= seq!['z', 'i', 'p']);
            assert("jar"@ =~= seq!['j', 'a', 'r']);
            assert("tar"@ =~= seq!['t', 'a', 'r']);
            assert("tar.gz"@ =~= seq!['t', 'a', 'r', '.', 'g', 'z']);
            assert("tar.xz"@ =~= seq!['t', 'a', 'r', '.', 'x', 'z']);
            assert("tar.bz2"@ =~= seq!['t', 'a', 'r', '.', 'b', 'z', '2']);
        }
        if same_text(t, "zip") || same_text(t, "jar") {
            Ok(FileFormat::Zip)
        } else if same_text(t, "tar") {
            Ok(FileFormat::Tar)
        } else if same_text(t, "tar.gz") {
            Ok(FileFormat::TarGz)
        } else if same_text(t, "tar.xz") {
            Ok(FileFormat::TarXz)
        } else if same_text(t, "tar.bz2") {
            Ok(FileFormat::TarBz2)
        } else {
            Err(FormatError::Unrecognized(String::from_str(t)))
        }
    }

    /// Parses a format token as given by a user: surrounding white space is
    /// ignored and letters may be of either case.
    pub fn parse_token(s: &str) -> (r: Result<FileFormat, FormatError>)
        ensures
            match token_format(lower_of(trim_of(s@))) {
                Some(f) => r == Ok::<FileFormat, FormatError>(f),
                None => match r {
                    Err(FormatError::Unrecognized(u)) => u@ == lower_of(trim_of(s@)),
                    _ => false,
                },
            },
    {
        let lowered = lowercase(trimmed(s));
        FileFormat::from_lowered(lowered.as_str())
    }

    /// The container read after decompression.
    pub fn container(&self) -> (r: Container)
        ensures
            r == container_of(*self),
    {
        match self {
            FileFormat::Zip => Container::Zip,
            _ => Container::Tar,
        }
    }

    /// The compressor to undo before the container is read, if any.
    pub fn compressor(&self) -> (r: Option<Compressor>)
        ensures
            r == compressor_of(*self),
    {
        match self {
            FileFormat::Zip | FileFormat::Tar => None,
            FileFormat::TarGz => Some(Compressor::Gz),
            FileFormat::TarXz => Some(Compressor::Xz),
            FileFormat::TarBz2 => Some(Compressor::Bz2),
        }
    }
}

impl std::str::FromStr for FileFormat {
    type Err = FormatError;

    /// As `FileFormat::parse_token`.
    fn from_str(s: &str) -> (r: Result<FileFormat, FormatError>)
        ensures
            match token_format(lower_of(trim_of(s@))) {
                Some(f) => r == Ok::<FileFormat, FormatError>(f),
                None => match r {
                    Err(FormatError::Unrecognized(u)) => u@ == lower_of(trim_of(s@)),
                    _ => false,
                },
            },
    {
        FileFormat::parse_token(s)
    }
}

/// The container of a format.
pub open spec fn container_of(f: FileFormat) -> Container {
    match f {
        FileFormat::Zip => Container::Zip,
        _ => Container::Tar,
    }
}

/// The compressor that wraps a format's container, if any.
pub open spec fn compressor_of(f: FileFormat) -> Option<Compressor> {
    match f {
        FileFormat::Zip | FileFormat::Tar => None,
        FileFormat::TarGz => Some(Compressor::Gz),
        FileFormat::TarXz => Some(Compressor::Xz),
        FileFormat::TarBz2 => Some(Compressor::Bz2),
    }
}

/// The message of each error.
pub open spec fn message_text(e: FormatError) -> Seq<char> {
    match e {
        FormatError::NoTarget => "no provided file or file format"@,
        FormatError::NotAFile => "target does not point to a file"@,
        FormatError::NoExtension => "target does not have any recognized extensions"@,
        FormatError::Unrecognized(t) => "`"@ + t@
            + "` is not a recognized archive type. See help for supported archives."@,
    }
}

impl FormatError {
    /// A message for people.
    pub fn message(&self) -> (r: String)
        ensures
            r@ == message_text(*self),
    {
        proof {
            reveal_strlit("no provided file or file format");
            reveal_strlit("target does not point to a file");
            reveal_strlit("target does not have any recognized extensions");
            reveal_strlit("`");
            reveal_strlit("` is not a recognized archive type. See help for supported archives.");
        }
        match self {
            FormatError::NoTarget => String::from_str("no provided file or file format"),
            FormatError::NotAFile => String::from_str("target does not point to a file"),
            FormatError::NoExtension => String::from_str(
                "target does not have any recognized extensions",
            ),
            FormatError::Unrecognized(t) => {
                let mut m = String::from_str("`");
                m.append(t.as_str());
                m.append("` is not a recognized archive type. See help for supported archives.");
                m
            },
        }
    }
}


/// An explicit format wins over any target name: whatever the name, the
/// resolved format is the one given.
pub proof fn lemma_override_wins(
    explicit: FileFormat,
    name: Option<Seq<char>>,
    r: Result<FileFormat, FormatError>,
)
    requires
        resolves_to(Some(explicit), name, r),
    ensures
        r == Ok::<FileFormat, FormatError>(explicit),
{
}

/// Without an explicit format, a name whose extensions are not recognized
/// (no extension chain) resolves to an error, never to a default.
pub proof fn lemma_no_chain_is_error(name: Seq<char>, r: Result<FileFormat, FormatError>)
    requires
        resolves_to(None, Some(name), r),
        ext_chain(name).len() == 0,
    ensures
        r == Err::<FileFormat, FormatError>(FormatError::NoExtension),
{
}

} // verus!
