use vstd::prelude::*;
use vstd::string::*;
use vstd::utf8::*;

verus! {

/// The characters of a byte below 16 in lower-case hexadecimal.
pub open spec fn hex_digit(d: u8) -> char {
    seq!['0', '1', '2', '3', '4', '5', '6', '7', '8', '9', 'a', 'b', 'c', 'd', 'e', 'f'][d as int]
}

/// The ASCII escape of one byte: the usual backslash escapes for tab,
/// carriage return, line feed, quotes and backslash; printable ASCII as
/// itself; every other byte as `\xNN` in lower-case hexadecimal.
pub open spec fn escape_byte(b: u8) -> Seq<char> {
    if b == 0x09 {
        seq!['\\', 't']
    } else if b == 0x0d {
        seq!['\\', 'r']
    } else if b == 0x0a {
        seq!['\\', 'n']
    } else if b == 0x27 {
        seq!['\\', '\'']
    } else if b == 0x22 {
        seq!['\\', '"']
    } else if b == 0x5c {
        seq!['\\', '\\']
    } else if 0x20 <= b < 0x7f {
        seq![b as char]
    } else {
        seq!['\\', 'x', hex_digit(b / 16), hex_digit(b % 16)]
    }
}

/// The escapes of all bytes of `b`, in order.
pub open spec fn escaped_text(b: Seq<u8>) -> Seq<char>
    decreases b.len(),
{
    if b.len() == 0 {
        Seq::empty()
    } else {
        escaped_text(b.drop_last()) + escape_byte(b.last())
    }
}

/// Every character of `s` is ASCII.
pub open spec fn all_ascii(s: Seq<char>) -> bool {
    forall|i: int| 0 <= i < s.len() ==> (#[trigger] s[i]) as u32 <= 0x7f
}

/// The escaped rendering of any byte sequence is pure ASCII.
pub proof fn lemma_escaped_is_ascii(b: Seq<u8>)
    ensures
        all_ascii(escaped_text(b)),
    decreases b.len(),
{
    if b.len() > 0 {
        lemma_escaped_is_ascii(b.drop_last());
        let x = b.last();
        let e = escape_byte(x);
        assert(all_ascii(e)) by {
            if !(0x20 <= x < 0x7f) {
                assert(x / 16 < 16 && x % 16 < 16);
            }
        }
        let t = escaped_text(b);
        assert(t =~= escaped_text(b.drop_last()) + e);
        assert forall|i: int| 0 <= i < t.len() implies (#[trigger] t[i]) as u32 <= 0x7f by {
            if i < escaped_text(b.drop_last()).len() {
                assert(t[i] == escaped_text(b.drop_last())[i]);
            } else {
                assert(t[i] == e[i - escaped_text(b.drop_last()).len()]);
            }
        }
    }
}

/// The text that `String::from_utf8_lossy` makes of a byte sequence.
pub uninterp spec fn lossy_of(b: Seq<u8>) -> Seq<char>;

/// Relies on `String::from_utf8_lossy`: valid UTF-8 is decoded unchanged,
/// and each invalid sequence becomes U+FFFD REPLACEMENT CHARACTER.
#[verifier::external_body]
fn lossy_text(b: &[u8]) -> (r: String)
    ensures
        r@ == lossy_of(b@),
        valid_utf8(b@) ==> r@ == decode_utf8(b@),
        !valid_utf8(b@) ==> r@.contains('\u{FFFD}'),
{
    String::from_utf8_lossy(b).into_owned()
}

/// Relies on `String::push`: appends one character.
#[verifier::external_body]
fn push_char(s: &mut String, c: char)
    ensures
        final(s)@ == old(s)@.push(c),
{
    s.push(c)
}

/// The escape of one byte.
fn push_escaped(out: &mut String, b: u8)
    ensures
        final(out)@ == old(out)@ + escape_byte(b),
{
    proof { reveal_strlit("0123456789abcdef"); }
    if b == 0x09 {
        push_char(out, '\\');
        push_char(out, 't');
    } else if b == 0x0d {
        push_char(out, '\\');
        push_char(out, 'r');
    } else if b == 0x0a {
        push_char(out, '\\');
        push_char(out, 'n');
    } else if b == 0x27 {
        push_char(out, '\\');
        push_char(out, '\'');
    } else if b == 0x22 {
        push_char(out, '\\');
        push_char(out, '"');
    } else if b == 0x5c {
        push_char(out, '\\');
        push_char(out, '\\');
    } else if 0x20 <= b && b < 0x7f {
        push_char(out, b as char);
    } else {
        let digits = "0123456789abcdef";
        push_char(out, '\\');
        push_char(out, 'x');
        push_char(out, digits.get_char((b / 16) as usize));
        push_char(out, digits.get_char((b % 16) as usize));
    }
    assert(final(out)@ =~= old(out)@ + escape_byte(b));
}

/// Renders raw name bytes as ASCII text in which every byte can be read back.
pub fn escape_name(bytes: &[u8]) -> (r: String)
    ensures
        r@ == escaped_text(bytes@),
{
    let mut out = String::new();
    let mut i: usize = 0;
    while i < bytes.len()
        invariant
            i <= bytes@.len(),
            out@ == escaped_text(bytes@.subrange(0, i as int)),
        decreases bytes@.len() - i,
    {
        assert(bytes@.subrange(0, i + 1).drop_last() =~= bytes@.subrange(0, i as int));
        push_escaped(&mut out, bytes[i]);
        i = i + 1;
    }
    assert(bytes@.subrange(0, bytes@.len() as int) =~= bytes@);
    out
}

/// Renders raw name bytes as text: escaped, or decoded with invalid
/// sequences replaced. The two differ wherever the bytes are not UTF-8.
pub fn display_name(bytes: &[u8], escaped: bool) -> (r: String)
    ensures
        escaped ==> r@ == escaped_text(bytes@),
        !escaped ==> r@ == lossy_of(bytes@),
        !escaped && valid_utf8(bytes@) ==> r@ == decode_utf8(bytes@),
        !escaped && !valid_utf8(bytes@) ==> r@ != escaped_text(bytes@),
{
    if escaped {
        escape_name(bytes)
    } else {
        let r = lossy_text(bytes);
        proof {
            if !valid_utf8(bytes@) {
                lemma_escaped_is_ascii(bytes@);
                let i = choose|i: int| 0 <= i < r@.len() && r@[i] == '\u{FFFD}';
                if r@ == escaped_text(bytes@) {
                    assert(escaped_text(bytes@)[i] as u32 <= 0x7f);
                }
            }
        }
        r
    }
}


/// `c` with `A`..`Z` mapped to `a`..`z`.
pub open spec fn ascii_lower_char(c: char) -> char {
    if 'A' <= c <= 'Z' {
        ((c as u32) + 32) as char
    } else {
        c
    }
}

/// `s` with every ASCII upper-case letter lowered.
pub open spec fn ascii_lower(s: Seq<char>) -> Seq<char> {
    Seq::new(s.len(), |i: int| ascii_lower_char(s[i]))
}

/// A digest in the case asked for: lowered, or as the algorithm gave it.
pub open spec fn cased(hash: Seq<char>, lower: bool) -> Seq<char> {
    if lower {
        ascii_lower(hash)
    } else {
        hash
    }
}

/// A digest asked for in lower case holds no ASCII upper-case letter, and
/// lowering it again changes nothing.
pub proof fn lemma_lowered_digest(hash: Seq<char>)
    ensures
        forall|i: int|
            0 <= i < hash.len() ==> !('A' <= #[trigger] cased(hash, true)[i] <= 'Z'),
        cased(cased(hash, true), true) == cased(hash, true),
{
    let l = ascii_lower(hash);
    assert forall|i: int| 0 <= i < hash.len() implies !('A' <= #[trigger] l[i] <= 'Z') by {
        let c = hash[i];
        if 'A' <= c <= 'Z' {
            assert((c as u32) + 32 >= 97);
        }
    }
    assert(ascii_lower(l) =~= l);
}

/// Relies on `str::make_ascii_lowercase`: maps `A`..`Z` to `a`..`z` in
/// place and leaves every other character as it is.
#[verifier::external_body]
fn lower_in_place(s: &mut String)
    ensures
        final(s)@ == ascii_lower(old(s)@),
{
    s.make_ascii_lowercase()
}

/// A digest in the case asked for.
pub fn apply_case(hash: String, lower: bool) -> (r: String)
    ensures
        r@ == cased(hash@, lower),
{
    let mut h = hash;
    if lower {
        lower_in_place(&mut h);
    }
    h
}

/// The character of a decimal digit.
pub open spec fn digit_char(d: int) -> char {
    seq!['0', '1', '2', '3', '4', '5', '6', '7', '8', '9'][d]
}

/// The decimal text of `n`, without leading zeros.
pub open spec fn decimal_text(n: nat) -> Seq<char>
    decreases n,
{
    if n < 10 {
        seq![digit_char(n as int)]
    } else {
        decimal_text(n / 10).push(digit_char((n % 10) as int))
    }
}

/// Appends the decimal digits of `n`.
fn push_decimal(out: &mut String, n: u64)
    ensures
        final(out)@ == old(out)@ + decimal_text(n as nat),
    decreases n,
{
    proof { reveal_strlit("0123456789"); }
    if n >= 10 {
        push_decimal(out, n / 10);
    }
    let d = "0123456789".get_char((n % 10) as usize);
    push_char(out, d);
    assert(final(out)@ =~= old(out)@ + decimal_text(n as nat));
}

/// The text that `bytesize::ByteSize::to_string_as(true)` gives for a size.
pub uninterp spec fn human_size_of(n: u64) -> Seq<char>;

/// Relies on `bytesize::ByteSize::to_string_as` with binary prefixes: a
/// human-readable size such as `2.5 MiB`, which depends on the size alone.
#[verifier::external_body]
fn human_size(n: u64) -> (r: String)
    ensures
        r@ == human_size_of(n),
{
    bytesize::ByteSize(n).to_string_as(true)
}

/// The size column of a line at a verbosity level.
pub open spec fn size_column(size: u64, verbosity: u32) -> Seq<char> {
    if verbosity == 0 {
        Seq::empty()
    } else if verbosity == 1 {
        seq![' '] + decimal_text(size as nat)
    } else {
        seq![' '] + human_size_of(size)
    }
}

/// One output line (without its line break).
pub open spec fn line_text(name: Seq<char>, hash: Seq<char>, size: u64, verbosity: u32) -> Seq<
    char,
> {
    name + seq![' '] + hash + size_column(size, verbosity)
}

/// Renders one output line: the name and the hash, then at verbosity 1
/// the size in bytes, at 2 or more the size in human-readable form.
pub fn format_line(name: &str, hash: &str, size: u64, verbosity: u32) -> (r: String)
    ensures
        r@ == line_text(name@, hash@, size, verbosity),
{
    proof { reveal_strlit(" "); }
    let mut out = String::from_str(name);
    out.append(" ");
    out.append(hash);
    if verbosity == 1 {
        out.append(" ");
        push_decimal(&mut out, size);
    } else if verbosity >= 2 {
        out.append(" ");
        let h = human_size(size);
        out.append(h.as_str());
    }
    assert(out@ =~= line_text(name@, hash@, size, verbosity));
    out
}

} // verus!
