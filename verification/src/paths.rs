//! Paths, as Unix strings.

use crate::text;
use vstd::prelude::*;
use vstd::string::*;

verus! {

/// `rest` under `base`; an absolute `rest` stands for itself.
pub open spec fn joined(base: Seq<char>, rest: Seq<char>) -> Seq<char> {
    if rest.len() > 0 && rest[0] == '/' {
        rest
    } else if base.len() > 0 && base.last() != '/' {
        base + "/"@ + rest
    } else {
        base + rest
    }
}

/// `rest` under `base`; an absolute `rest` stands for itself.
pub fn join(base: &str, rest: &str) -> (r: String)
    ensures
        r@ == joined(base@, rest@),
{
    let b: Vec<char> = text::chars_of(base);
    let v: Vec<char> = text::chars_of(rest);
    if v.len() > 0 && v[0] == '/' {
        return rest.to_owned();
    }
    let mut out: String = base.to_owned();
    if b.len() > 0 && b[b.len() - 1] != '/' {
        out.append("/");
    }
    out.append(rest);
    out
}

/// Whether a path starts with the home directory's short form.
pub open spec fn has_tilde(path: Seq<char>) -> bool {
    path.len() >= 2 && path[0] == '~' && path[1] == '/'
}

/// A leading `~/` replaced by the home directory, where one is known; other
/// paths verbatim.
pub open spec fn expanded(path: Seq<char>, home: Option<Seq<char>>) -> Seq<char> {
    if has_tilde(path) && home is Some {
        joined(home->0, path.subrange(2, path.len() as int))
    } else {
        path
    }
}

/// What an optional text holds.
pub open spec fn opt_str(s: Option<&str>) -> Option<Seq<char>> {
    match s {
        Some(s) => Some(s@),
        None => None,
    }
}

/// Expands a leading `~/` using the home directory; other paths pass through
/// verbatim.
pub fn expand_tilde(path: &str, home: Option<&str>) -> (r: String)
    ensures
        r@ == expanded(path@, opt_str(home)),
{
    let v: Vec<char> = text::chars_of(path);
    if v.len() >= 2 && v[0] == '~' && v[1] == '/' {
        if let Some(home) = home {
            return join(home, text::string_of_range(&v, 2, v.len()).as_str());
        }
    }
    path.to_owned()
}

/// A lower-case hexadecimal digit.
pub open spec fn hex_char(n: int) -> char {
    if n < 10 {
        ('0' as int + n) as char
    } else {
        ('a' as int + (n - 10)) as char
    }
}

/// A byte in two hexadecimal digits.
pub open spec fn hex_byte(b: u8) -> Seq<char> {
    seq![hex_char(b as int / 16), hex_char(b as int % 16)]
}

/// Bytes in hexadecimal.
pub open spec fn hex(bytes: Seq<u8>) -> Seq<char>
    decreases bytes.len(),
{
    if bytes.len() == 0 {
        Seq::empty()
    } else {
        hex(bytes.drop_last()) + hex_byte(bytes.last())
    }
}

fn hex_digit(n: u8) -> (c: char)
    requires
        n < 16,
    ensures
        c == hex_char(n as int),
{
    if n < 10 {
        (48 + n) as char
    } else {
        (97 + (n - 10)) as char
    }
}

/// The first `n` bytes in hexadecimal.
pub fn hex_prefix(bytes: &[u8; 32], n: usize) -> (r: String)
    requires
        n <= 32,
    ensures
        r@ == hex(bytes@.take(n as int)),
{
    let mut out: String = String::new();
    let mut i: usize = 0;
    while i < n
        invariant
            i <= n <= 32,
            out@ == hex(bytes@.take(i as int)),
        decreases n - i,
    {
        let ghost before = out@;
        out.push(hex_digit(bytes[i] / 16));
        out.push(hex_digit(bytes[i] % 16));
        assert(bytes@.take(i + 1).drop_last() =~= bytes@.take(i as int));
        assert(out@ =~= before + hex_byte(bytes@[i as int]));
        i = i + 1;
    }
    out
}

/// Two hexadecimal digits per byte.
pub proof fn lemma_hex_len(bytes: Seq<u8>)
    ensures
        hex(bytes).len() == 2 * bytes.len(),
    decreases bytes.len(),
{
    if bytes.len() > 0 {
        lemma_hex_len(bytes.drop_last());
    }
}

/// A relative path goes behind its base with one slash between them, and an absolute one
/// stands for itself.
pub proof fn law_paths_join_with_one_slash(base: Seq<char>, rest: Seq<char>)
    ensures
        rest.len() > 0 && rest[0] == '/' ==> joined(base, rest) == rest,
        !(rest.len() > 0 && rest[0] == '/') ==> {
            let path = joined(base, rest);
            &&& path.take(base.len() as int) == base
            &&& path.skip(path.len() - rest.len()) == rest
            &&& base.len() == 0 ==> path == rest
            &&& base.len() > 0 && base.last() == '/' ==> path.len() == base.len() + rest.len()
            &&& base.len() > 0 && base.last() != '/' ==> path.len() == base.len() + 1 + rest.len()
                && path[base.len() as int] == '/'
        },
{
    reveal_strlit("/");
    if !(rest.len() > 0 && rest[0] == '/') {
        let path = joined(base, rest);
        assert(path.take(base.len() as int) =~= base);
        assert(path.skip(path.len() - rest.len()) =~= rest);
        if base.len() == 0 {
            assert(path =~= rest);
        }
    }
}

/// `~/` stands for the home directory where one is known; a path that does not begin so is
/// left as it is, and so is every path without a home.
pub proof fn law_a_tilde_stands_for_the_home(path: Seq<char>, rest: Seq<char>, home: Seq<char>)
    ensures
        expanded("~/"@ + rest, Some(home)) == joined(home, rest),
        expanded(path, None) == path,
        path.len() > 0 && path[0] != '~' ==> expanded(path, Some(home)) == path,
        path.len() > 1 && path[1] != '/' ==> expanded(path, Some(home)) == path,
        path.len() < 2 ==> expanded(path, Some(home)) == path,
{
    reveal_strlit("~/");
    let whole = "~/"@ + rest;
    assert(whole.subrange(2, whole.len() as int) =~= rest);
}

/// Each byte is written as two digits, the high one first; a digit below ten is a figure
/// and the others are the letters from `a` on.
pub proof fn law_bytes_are_written_in_two_digits(bytes: Seq<u8>, i: int, n: int)
    requires
        0 <= i < bytes.len(),
        0 <= n < 16,
    ensures
        hex(bytes).len() == 2 * bytes.len(),
        hex(bytes)[2 * i] == hex_char(bytes[i] as int / 16),
        hex(bytes)[2 * i + 1] == hex_char(bytes[i] as int % 16),
        n < 10 ==> hex_char(n) as int == 48 + n,
        n >= 10 ==> hex_char(n) as int == 97 + n - 10,
    decreases bytes.len(),
{
    lemma_hex_len(bytes);
    lemma_hex_len(bytes.drop_last());
    if i < bytes.len() - 1 {
        law_bytes_are_written_in_two_digits(bytes.drop_last(), i, n);
        assert(bytes.drop_last()[i] == bytes[i]);
    }
}

} // verus!
