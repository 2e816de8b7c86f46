//! Uploaded images: the names they are stored under and the public paths
//! they are served from.

use vstd::prelude::*;
use crate::text::{chars_of, extend_chars, string_of};

verus! {

/// `c` is the lower-case ASCII letter `l` in either case.
pub open spec fn letter_is(c: char, l: char) -> bool {
    c == l || (c as u32) + 32 == (l as u32)
}

/// A character that needs no change in a file name: an ASCII letter or
/// digit, `-`, `_` or `.`.
pub open spec fn plain_char(c: char) -> bool {
    ('a' <= c && c <= 'z') || ('A' <= c && c <= 'Z') || ('0' <= c && c <= '9') || c == '-' || c == '_'
        || c == '.'
}

/// The part of `s` before its first `.`, given as a length.
pub open spec fn stem_len(s: Seq<char>) -> int
    decreases s.len(),
{
    if s.len() == 0 {
        0
    } else if s[0] == '.' {
        0
    } else {
        1 + stem_len(s.drop_first())
    }
}

/// `s` starts with the three letters `a`, `b`, `c`, in either case.
pub open spec fn starts_with3(s: Seq<char>, a: char, b: char, c: char) -> bool {
    s.len() >= 3 && letter_is(s[0], a) && letter_is(s[1], b) && letter_is(s[2], c)
}

/// A Windows device name (`con`, `prn`, `aux`, `nul`, `comN`, `lptN`),
/// alone or followed by an extension.
pub open spec fn device_name(s: Seq<char>) -> bool {
    ||| stem_len(s) == 3 && (starts_with3(s, 'c', 'o', 'n') || starts_with3(s, 'p', 'r', 'n')
        || starts_with3(s, 'a', 'u', 'x') || starts_with3(s, 'n', 'u', 'l'))
    ||| stem_len(s) == 4 && (starts_with3(s, 'c', 'o', 'm') || starts_with3(s, 'l', 'p', 't'))
        && '0' <= s[3] && s[3] <= '9'
}

/// A name every platform keeps as it is: 1 to 255 plain characters, not
/// all dots, not ending in a dot, and no device name.
pub open spec fn plain_name(s: Seq<char>) -> bool {
    &&& 0 < s.len() <= 255
    &&& forall|i: int| 0 <= i < s.len() ==> plain_char(#[trigger] s[i])
    &&& s.last() != '.'
    &&& !device_name(s)
}

/// Relies on `sanitize_filename::sanitize`: it removes path separators,
/// the other characters file systems reject and control characters,
/// empties a name made only of dots, and on Windows also device names and
/// trailing dots and spaces; a result longer than 255 bytes is cut. So the
/// result holds no `/` and no `\`, is never `.` or `..`, and a plain name
/// comes back unchanged.
#[verifier::external_body]
fn sanitize_name(name: &str) -> (r: String)
    ensures
        forall|i: int| 0 <= i < r@.len() ==> r@[i] != '/' && r@[i] != '\\',
        r@ != seq!['.'] && r@ != seq!['.', '.'],
        plain_name(name@) ==> r@ == name@,
{
    sanitize_filename::sanitize(name)
}

/// The name used when an upload carries no file name.
pub open spec fn fallback_name() -> Seq<char> {
    seq!['u', 'p', 'l', 'o', 'a', 'd', '_', 'f', 'i', 'l', 'e']
}

/// The prefix of the public path of a stored image.
pub open spec fn asset_prefix() -> Seq<char> {
    seq!['/', 'a', 's', 's', 'e', 't', 's', '/']
}

/// The position of the last `.` in `s`, or -1.
pub open spec fn last_dot(s: Seq<char>) -> int
    decreases s.len(),
{
    if s.len() == 0 {
        -1
    } else if s.last() == '.' {
        s.len() - 1
    } else {
        last_dot(s.drop_last())
    }
}

/// A file name without a real extension: `..`, or a name whose only dot,
/// if any, opens it.
pub open spec fn no_extension(s: Seq<char>) -> bool {
    s == seq!['.', '.'] || last_dot(s) <= 0
}

/// The file name without its extension.
pub open spec fn stem_of(s: Seq<char>) -> Seq<char> {
    if no_extension(s) {
        s
    } else {
        s.subrange(0, last_dot(s))
    }
}

/// The extension of a file name: what follows its last dot.
pub open spec fn extension_of(s: Seq<char>) -> Seq<char> {
    if no_extension(s) {
        Seq::empty()
    } else {
        s.subrange(last_dot(s) + 1, s.len() as int)
    }
}

pub open spec fn digit_char(d: int) -> char {
    seq!['0', '1', '2', '3', '4', '5', '6', '7', '8', '9'][d]
}

/// The decimal digits of `n`.
pub open spec fn decimal(n: nat) -> Seq<char>
    decreases n,
{
    if n < 10 {
        seq![digit_char(n as int)]
    } else {
        decimal(n / 10).push(digit_char((n % 10) as int))
    }
}

/// The name tried after `current` is taken: `<stem>-copy<counter>`, with
/// the extension of `current` kept.
pub open spec fn copy_name_spec(current: Seq<char>, counter: nat) -> Seq<char> {
    let base = stem_of(current) + seq!['-', 'c', 'o', 'p', 'y'] + decimal(counter);
    if extension_of(current).len() == 0 {
        base
    } else {
        base + seq!['.'] + extension_of(current)
    }
}

fn decimal_chars(n: u32) -> (r: Vec<char>)
    ensures
        r@ == decimal(n as nat),
    decreases n,
{
    let digits: [char; 10] = ['0', '1', '2', '3', '4', '5', '6', '7', '8', '9'];
    assert(digits@ == seq!['0', '1', '2', '3', '4', '5', '6', '7', '8', '9']);
    if n < 10 {
        let mut v: Vec<char> = Vec::new();
        v.push(digits[n as usize]);
        assert(v@ =~= decimal(n as nat));
        v
    } else {
        let mut v = decimal_chars(n / 10);
        v.push(digits[(n % 10) as usize]);
        v
    }
}

fn find_last_dot(v: &Vec<char>) -> (r: Option<usize>)
    ensures
        match r {
            Some(i) => i == last_dot(v@) && i < v@.len(),
            None => last_dot(v@) == -1,
        },
{
    let mut i: usize = v.len();
    assert(v@.subrange(0, v.len() as int) =~= v@);
    while i > 0
        invariant
            i <= v.len(),
            last_dot(v@) == last_dot(v@.subrange(0, i as int)),
        decreases i,
    {
        assert(v@.subrange(0, i as int).drop_last() =~= v@.subrange(0, i - 1));
        if v[i - 1] == '.' {
            return Some(i - 1);
        }
        i = i - 1;
    }
    assert(v@.subrange(0, 0) =~= Seq::<char>::empty());
    None
}

/// The name an upload is first stored under: its file name made safe, or
/// `upload_file` when it has none.
pub fn upload_name(raw: Option<&str>) -> (r: String)
    ensures
        raw is None ==> r@ == fallback_name(),
        raw is Some ==> forall|i: int| 0 <= i < r@.len() ==> r@[i] != '/' && r@[i] != '\\',
        raw is Some ==> r@ != seq!['.'] && r@ != seq!['.', '.'],
        raw matches Some(n) ==> (plain_name(n@) ==> r@ == n@),
{
    match raw {
        Some(n) => sanitize_name(n),
        None => {
            let v: Vec<char> = vec!['u', 'p', 'l', 'o', 'a', 'd', '_', 'f', 'i', 'l', 'e'];
            assert(v@ =~= fallback_name());
            string_of(&v)
        },
    }
}

/// The next name to try when `current` is already taken.
pub fn copy_name(current: &str, counter: u32) -> (r: String)
    ensures
        r@ == copy_name_spec(current@, counter as nat),
{
    let v = chars_of(current);
    let dot = find_last_dot(&v);
    let dotdot = v.len() == 2 && v[0] == '.' && v[1] == '.';
    proof {
        if v@.len() == 2 && v@[0] == '.' && v@[1] == '.' {
            assert(v@ =~= seq!['.', '.']);
        }
    }
    let split: Option<usize> = match dot {
        Some(d) => if dotdot || d == 0 {
            None
        } else {
            Some(d)
        },
        None => None,
    };
    let mut out: Vec<char> = Vec::new();
    match split {
        None => {
            extend_chars(&mut out, &v, 0, v.len());
            assert(v@.subrange(0, v.len() as int) =~= v@);
        },
        Some(d) => {
            extend_chars(&mut out, &v, 0, d);
        },
    }
    assert(out@ =~= stem_of(current@));
    out.push('-');
    out.push('c');
    out.push('o');
    out.push('p');
    out.push('y');
    let digits = decimal_chars(counter);
    extend_chars(&mut out, &digits, 0, digits.len());
    assert(digits@.subrange(0, digits.len() as int) =~= digits@);
    assert(out@ =~= stem_of(current@) + seq!['-', 'c', 'o', 'p', 'y'] + decimal(counter as nat));
    match split {
        Some(d) => {
            if d + 1 < v.len() {
                out.push('.');
                extend_chars(&mut out, &v, d + 1, v.len());
            }
        },
        None => {},
    }
    assert(out@ =~= copy_name_spec(current@, counter as nat));
    string_of(&out)
}

/// The public path an image stored as `name` is served from.
pub fn asset_path(name: &str) -> (r: String)
    ensures
        r@ == asset_prefix() + name@,
{
    let mut out: Vec<char> = vec!['/', 'a', 's', 's', 'e', 't', 's', '/'];
    let v = chars_of(name);
    extend_chars(&mut out, &v, 0, v.len());
    assert(v@.subrange(0, v.len() as int) =~= v@);
    string_of(&out)
}

/// The public path of the stored image named `wanted`, or the empty text
/// when no stored image has that name.
pub fn find_image(names: &Vec<String>, wanted: &str) -> (r: String)
    ensures
        (exists|i: int| 0 <= i < names@.len() && #[trigger] names@[i]@ == wanted@) ==> r@ == asset_prefix()
            + wanted@,
        !(exists|i: int| 0 <= i < names@.len() && #[trigger] names@[i]@ == wanted@) ==> r@.len() == 0,
{
    let w = chars_of(wanted);
    let mut i: usize = 0;
    while i < names.len()
        invariant
            i <= names.len(),
            w@ == wanted@,
            forall|j: int| 0 <= j < i ==> #[trigger] names@[j]@ != wanted@,
        decreases names.len() - i,
    {
        let n = chars_of(names[i].as_str());
        if vec_eq(&n, &w) {
            return asset_path(wanted);
        }
        i = i + 1;
    }
    String::new()
}

fn vec_eq(a: &Vec<char>, b: &Vec<char>) -> (r: bool)
    ensures
        r == (a@ == b@),
{
    if a.len() != b.len() {
        return false;
    }
    let mut i: usize = 0;
    while i < a.len()
        invariant
            i <= a.len() == b.len(),
            forall|j: int| 0 <= j < i ==> a@[j] == b@[j],
        decreases a.len() - i,
    {
        if a[i] != b[i] {
            return false;
        }
        i = i + 1;
    }
    assert(a@ =~= b@);
    true
}

} // verus!
