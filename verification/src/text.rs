//! Building the text of error messages: numbers in decimal and hexadecimal,
//! and comparing strings.
use vstd::prelude::*;

verus! {

/// The character of the digit `d` (below 16), lower-case for 10 and above.
pub open spec fn spec_digit(d: nat) -> char {
    if d < 10 {
        (48 + d) as char
    } else {
        (87 + d) as char
    }
}

/// `x` in decimal, without leading zeros.
pub open spec fn spec_decimal(x: nat) -> Seq<char>
    decreases x,
{
    if x < 10 {
        seq![spec_digit(x)]
    } else {
        spec_decimal(x / 10).push(spec_digit(x % 10))
    }
}

/// `x` in lower-case hexadecimal, without leading zeros.
pub open spec fn spec_hex(x: nat) -> Seq<char>
    decreases x,
{
    if x < 16 {
        seq![spec_digit(x)]
    } else {
        spec_hex(x / 16).push(spec_digit(x % 16))
    }
}

/// `String::push`: appends the character `c`.
#[verifier::external_body]
pub(crate) fn push_char(s: &mut String, c: char)
    ensures
        final(s)@ == old(s)@.push(c),
{
    s.push(c);
}

/// Appends the string `t`.
pub(crate) fn push_str(s: &mut String, t: &str)
    ensures
        final(s)@ == old(s)@ + t@,
{
    s.append(t);
}

fn digit_char(d: u64) -> (c: char)
    requires
        d < 16,
    ensures
        c == spec_digit(d as nat),
{
    let b: u8 = if d < 10 { 48 + d as u8 } else { 87 + d as u8 };
    b as char
}

/// Appends `x` in decimal.
pub fn push_decimal(s: &mut String, x: u64)
    ensures
        final(s)@ == old(s)@ + spec_decimal(x as nat),
    decreases x,
{
    if x >= 10 {
        push_decimal(s, x / 10);
    }
    push_char(s, digit_char(x % 10));
    assert(s@ =~= old(s)@ + spec_decimal(x as nat));
}

/// Appends `x` in lower-case hexadecimal.
pub fn push_hex(s: &mut String, x: u64)
    ensures
        final(s)@ == old(s)@ + spec_hex(x as nat),
    decreases x,
{
    if x >= 16 {
        push_hex(s, x / 16);
    }
    push_char(s, digit_char(x % 16));
    assert(s@ =~= old(s)@ + spec_hex(x as nat));
}

/// Whether the two strings hold the same characters.
pub fn str_eq(a: &str, b: &str) -> (r: bool)
    ensures
        r == (a@ == b@),
{
    let n = a.unicode_len();
    if n != b.unicode_len() {
        return false;
    }
    let mut i: usize = 0;
    while i < n
        invariant
            n == a@.len(),
            n == b@.len(),
            i <= n,
            forall|j: int| 0 <= j < i ==> a@[j] == b@[j],
        decreases n - i,
    {
        if a.get_char(i) != b.get_char(i) {
            return false;
        }
        i = i + 1;
    }
    assert(a@ =~= b@);
    true
}

/// The characters of the ASCII bytes `b`, one for one.
pub open spec fn spec_ascii_chars(b: Seq<u8>) -> Seq<char> {
    b.map_values(|x: u8| x as char)
}

/// Whether the bytes `v` spell the characters of `s`, one byte each.
pub open spec fn spec_bytes_match(v: Seq<u8>, s: Seq<char>) -> bool {
    &&& v.len() == s.len()
    &&& forall|i: int| 0 <= i < v.len() ==> v[i] as int == s[i] as int
}

/// Whether the bytes `v` spell the characters of `s`, one byte each.
pub fn bytes_match(v: &[u8], s: &str) -> (r: bool)
    ensures
        r == spec_bytes_match(v@, s@),
{
    let n = s.unicode_len();
    if v.len() != n {
        return false;
    }
    let mut i: usize = 0;
    while i < n
        invariant
            n == s@.len(),
            n == v@.len(),
            i <= n,
            forall|j: int| 0 <= j < i ==> v@[j] as int == s@[j] as int,
        decreases n - i,
    {
        let c = s.get_char(i);
        if (v[i] as u32) != (c as u32) {
            return false;
        }
        i = i + 1;
    }
    true
}

/// A string of the characters of the ASCII bytes `b`.
pub fn ascii_string(b: &[u8]) -> (s: String)
    ensures
        s@ == spec_ascii_chars(b@),
{
    let mut s = String::new();
    let mut i: usize = 0;
    while i < b.len()
        invariant
            i <= b@.len(),
            s@ == spec_ascii_chars(b@.take(i as int)),
        decreases b@.len() - i,
    {
        push_char(&mut s, b[i] as char);
        i = i + 1;
        assert(spec_ascii_chars(b@.take(i as int)) =~= spec_ascii_chars(b@.take((i - 1) as int)).push(
            b@[i - 1] as char,
        ));
    }
    assert(b@.take(b@.len() as int) =~= b@);
    s
}

/// The bytes `b` written as a list: `[` then each byte in decimal,
/// separated by `, `, then `]`.
pub open spec fn spec_debug_bytes(b: Seq<u8>) -> Seq<char> {
    "["@ + spec_join_decimal(b) + "]"@
}

/// Each byte of `b` in decimal, separated by `, `.
pub open spec fn spec_join_decimal(b: Seq<u8>) -> Seq<char>
    decreases b.len(),
{
    if b.len() == 0 {
        Seq::empty()
    } else if b.len() == 1 {
        spec_decimal(b[0] as nat)
    } else {
        spec_join_decimal(b.drop_last()) + ", "@ + spec_decimal(b.last() as nat)
    }
}

/// The bytes `b` written as a list, as `[1, 2, 3]`.
pub fn debug_bytes(b: &[u8]) -> (s: String)
    ensures
        s@ == spec_debug_bytes(b@),
{
    let mut s = "[".to_owned();
    let mut i: usize = 0;
    while i < b.len()
        invariant
            i <= b@.len(),
            s@ == "["@ + spec_join_decimal(b@.take(i as int)),
        decreases b@.len() - i,
    {
        let ghost before = s@;
        if i > 0 {
            push_str(&mut s, ", ");
        }
        push_decimal(&mut s, b[i] as u64);
        i = i + 1;
        let ghost t = b@.take(i as int);
        assert(t.drop_last() =~= b@.take(i - 1));
        if i == 1 {
            assert(s@ =~= "["@ + spec_join_decimal(t));
        } else {
            assert(s@ =~= "["@ + spec_join_decimal(t));
        }
    }
    assert(b@.take(b@.len() as int) =~= b@);
    push_str(&mut s, "]");
    s
}

/// Whether the two byte strings are equal.
pub fn bytes_eq(a: &[u8], b: &[u8]) -> (r: bool)
    ensures
        r == (a@ == b@),
{
    if a.len() != b.len() {
        return false;
    }
    let mut i: usize = 0;
    while i < a.len()
        invariant
            a@.len() == b@.len(),
            i <= a@.len(),
            forall|j: int| 0 <= j < i ==> a@[j] == b@[j],
        decreases a@.len() - i,
    {
        if a[i] != b[i] {
            return false;
        }
        i = i + 1;
    }
    assert(a@ =~= b@);
    true
}

/// The characters of `s` as bytes, one byte each.
pub open spec fn spec_char_bytes(s: Seq<char>) -> Seq<u8> {
    s.map_values(|c: char| c as u8)
}

/// The characters of `s` as bytes, one byte each.
pub fn char_bytes(s: &str) -> (v: Vec<u8>)
    ensures
        v@ == spec_char_bytes(s@),
{
    let n = s.unicode_len();
    let mut v: Vec<u8> = Vec::new();
    let mut i: usize = 0;
    while i < n
        invariant
            n == s@.len(),
            i <= n,
            v@ == spec_char_bytes(s@.take(i as int)),
        decreases n - i,
    {
        let c = s.get_char(i);
        v.push(c as u8);
        i = i + 1;
        assert(spec_char_bytes(s@.take(i as int)) =~= spec_char_bytes(s@.take((i - 1) as int)).push(c as u8));
    }
    assert(s@.take(n as int) =~= s@);
    v
}

} // verus!
