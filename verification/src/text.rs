//! Small string helpers shared by the other modules.

use vstd::prelude::*;

verus! {

/// `needle` occurs in `haystack` as a contiguous run of characters.
pub open spec fn is_substring(needle: Seq<char>, haystack: Seq<char>) -> bool {
    exists|i: int|
        0 <= i && i + needle.len() <= haystack.len() && #[trigger] haystack.subrange(
            i,
            i + needle.len(),
        ) == needle
}

/// Calls `str::contains` with a string pattern. Trusted: the result is true
/// exactly when the pattern occurs somewhere in the text as a contiguous run
/// of characters.
#[verifier::external_body]
pub(crate) fn str_contains(haystack: &str, needle: &str) -> (found: bool)
    ensures
        found == is_substring(needle@, haystack@),
{
    haystack.contains(needle)
}

/// Whether two string slices hold the same characters.
pub fn str_equals(a: &str, b: &str) -> (same: bool)
    ensures
        same == (a@ == b@),
{
    let left = String::from_str(a);
    let right = String::from_str(b);
    left == right
}

/// A path with `name` adjoined: an absolute `name` stands alone; otherwise
/// it follows `base`, after a `/` unless `base` is empty or ends in one.
pub open spec fn joined(base: Seq<char>, name: Seq<char>) -> Seq<char> {
    if name.len() > 0 && name[0] == '/' {
        name
    } else if base.len() == 0 || base.last() == '/' {
        base + name
    } else {
        base + seq!['/'] + name
    }
}

/// Adjoins `name` to the path `base`.
pub fn join_path(base: &str, name: &str) -> (path: String)
    ensures
        path@ == joined(base@, name@),
{
    let name_len: usize = name.unicode_len();
    if name_len > 0 && name.get_char(0) == '/' {
        return String::from_str(name);
    }
    let base_len: usize = base.unicode_len();
    let mut path = String::from_str(base);
    if base_len > 0 && base.get_char(base_len - 1) != '/' {
        proof {
            reveal_strlit("/");
            assert("/"@ =~= seq!['/']);
        }
        path.append("/");
    }
    path.append(name);
    path
}

/// The views of a list of strings.
pub open spec fn texts(list: Seq<String>) -> Seq<Seq<char>> {
    list.map_values(|s: String| s@)
}

/// Some string of the list reads `text`.
pub open spec fn listed(list: Seq<String>, text: Seq<char>) -> bool {
    exists|i: int| 0 <= i < list.len() && (#[trigger] list[i])@ == text
}

/// Whether some string of the list reads `text`.
pub fn is_listed(list: &Vec<String>, text: &str) -> (found: bool)
    ensures
        found == listed(list@, text@),
{
    let mut i: usize = 0;
    while i < list.len()
        invariant
            i <= list.len(),
            forall|j: int| 0 <= j < i ==> (#[trigger] list@[j])@ != text@,
        decreases list.len() - i,
    {
        if str_equals(list[i].as_str(), text) {
            return true;
        }
        i += 1;
    }
    false
}

/// The digit for a value below sixteen, in lower case.
pub open spec fn digit_char(d: int) -> char {
    if d == 0 {
        '0'
    } else if d == 1 {
        '1'
    } else if d == 2 {
        '2'
    } else if d == 3 {
        '3'
    } else if d == 4 {
        '4'
    } else if d == 5 {
        '5'
    } else if d == 6 {
        '6'
    } else if d == 7 {
        '7'
    } else if d == 8 {
        '8'
    } else if d == 9 {
        '9'
    } else if d == 10 {
        'a'
    } else if d == 11 {
        'b'
    } else if d == 12 {
        'c'
    } else if d == 13 {
        'd'
    } else if d == 14 {
        'e'
    } else {
        'f'
    }
}

fn low_digit_text(d: u8) -> (s: &'static str)
    requires
        d < 8,
    ensures
        s@ == seq![digit_char(d as int)],
{
    proof {
        reveal_strlit("0");
        reveal_strlit("1");
        reveal_strlit("2");
        reveal_strlit("3");
        reveal_strlit("4");
        reveal_strlit("5");
        reveal_strlit("6");
        reveal_strlit("7");
    }
    let s = if d == 0 {
        "0"
    } else if d == 1 {
        "1"
    } else if d == 2 {
        "2"
    } else if d == 3 {
        "3"
    } else if d == 4 {
        "4"
    } else if d == 5 {
        "5"
    } else if d == 6 {
        "6"
    } else {
        "7"
    };
    assert(s@ =~= seq![digit_char(d as int)]);
    s
}

fn high_digit_text(d: u8) -> (s: &'static str)
    requires
        8 <= d < 16,
    ensures
        s@ == seq![digit_char(d as int)],
{
    proof {
        reveal_strlit("8");
        reveal_strlit("9");
        reveal_strlit("a");
        reveal_strlit("b");
        reveal_strlit("c");
        reveal_strlit("d");
        reveal_strlit("e");
        reveal_strlit("f");
    }
    let s = if d == 8 {
        "8"
    } else if d == 9 {
        "9"
    } else if d == 10 {
        "a"
    } else if d == 11 {
        "b"
    } else if d == 12 {
        "c"
    } else if d == 13 {
        "d"
    } else if d == 14 {
        "e"
    } else {
        "f"
    };
    assert(s@ =~= seq![digit_char(d as int)]);
    s
}

/// The one-character text of a digit below sixteen.
pub(crate) fn digit_text(d: u8) -> (s: &'static str)
    requires
        d < 16,
    ensures
        s@ == seq![digit_char(d as int)],
{
    if d < 8 {
        low_digit_text(d)
    } else {
        high_digit_text(d)
    }
}

/// A number written in decimal, without leading zeros.
pub open spec fn decimal(n: nat) -> Seq<char>
    decreases n,
{
    if n < 10 {
        seq![digit_char(n as int)]
    } else {
        decimal(n / 10) + seq![digit_char((n % 10) as int)]
    }
}

/// Writes a number in decimal.
pub fn decimal_string(n: u64) -> (s: String)
    ensures
        s@ == decimal(n as nat),
    decreases n,
{
    if n < 10 {
        String::from_str(digit_text(n as u8))
    } else {
        let mut s = decimal_string(n / 10);
        s.append(digit_text((n % 10) as u8));
        s
    }
}

/// Bytes written as two lower-case hexadecimal digits each.
pub open spec fn hex_of(bytes: Seq<u8>) -> Seq<char>
    decreases bytes.len(),
{
    if bytes.len() == 0 {
        Seq::empty()
    } else {
        hex_of(bytes.drop_last()) + seq![
            digit_char(bytes.last() as int / 16),
            digit_char(bytes.last() as int % 16),
        ]
    }
}

/// Each byte gives two digits.
pub proof fn lemma_hex_len(bytes: Seq<u8>)
    ensures
        hex_of(bytes).len() == 2 * bytes.len(),
    decreases bytes.len(),
{
    if bytes.len() > 0 {
        lemma_hex_len(bytes.drop_last());
    }
}

/// How many bytes `hex_prefix` writes: `count`, or all of them where there
/// are fewer.
pub open spec fn prefix_len(len: int, count: int) -> int {
    if count < len {
        count
    } else {
        len
    }
}

/// Writes the first `count` bytes in hexadecimal, or all of them where
/// there are fewer.
pub fn hex_prefix(bytes: &Vec<u8>, count: usize) -> (s: String)
    ensures
        s@ == hex_of(bytes@.take(prefix_len(bytes@.len() as int, count as int))),
{
    let n: usize = if count < bytes.len() {
        count
    } else {
        bytes.len()
    };
    let mut s = String::new();
    let mut i: usize = 0;
    assert(bytes@.take(0) =~= Seq::<u8>::empty());
    while i < n
        invariant
            i <= n <= bytes.len(),
            s@ == hex_of(bytes@.take(i as int)),
        decreases n - i,
    {
        let b: u8 = bytes[i];
        s.append(digit_text(b / 16));
        s.append(digit_text(b % 16));
        proof {
            let next = bytes@.take(i as int + 1);
            assert(next.drop_last() =~= bytes@.take(i as int));
            assert(next.last() == b);
            assert(s@ =~= hex_of(next));
        }
        i += 1;
    }
    s
}

} // verus!
