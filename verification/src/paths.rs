//! Path and text helpers shared by the pipelines.

use std::path::PathBuf;
use vstd::prelude::*;

verus! {

/// The character of a decimal digit.
pub open spec fn digit_char(d: nat) -> char
    recommends
        d < 10,
{
    (48 + d) as char
}

/// The decimal rendering of `n`, without sign or leading zeros.
pub open spec fn decimal(n: nat) -> Seq<char>
    decreases n,
{
    if n < 10 {
        seq![digit_char(n)]
    } else {
        decimal(n / 10) + seq![digit_char(n % 10)]
    }
}

/// The number that a text of decimal digits denotes, reading the digits from
/// the most significant one (`'0'` is character code 48).
pub open spec fn decimal_value(s: Seq<char>) -> int
    decreases s.len(),
{
    if s.len() == 0 {
        0
    } else {
        decimal_value(s.drop_last()) * 10 + (s.last() as int - 48)
    }
}

/// `decimal` is the standard base-10 rendering: it is a non-empty text of
/// the ASCII digits `'0'` to `'9'`, with no leading zero unless it is the
/// single digit of zero, and reading it back gives `n`.
pub proof fn lemma_decimal_reads_back(n: nat)
    ensures
        decimal(n).len() >= 1,
        forall|i: int| 0 <= i < decimal(n).len() ==> 48 <= #[trigger] (decimal(n)[i] as int) <= 57,
        n > 0 ==> decimal(n)[0] != '0',
        decimal_value(decimal(n)) == n,
    decreases n,
{
    if n >= 10 {
        lemma_decimal_reads_back(n / 10);
        let d = decimal(n / 10);
        let last = seq![digit_char(n % 10)];
        let s = decimal(n);
        assert(s == d + last);
        assert(s.drop_last() =~= d);
        assert(s.last() == digit_char(n % 10));
        assert forall|i: int| 0 <= i < s.len() implies 48 <= #[trigger] (s[i] as int) <= 57 by {
            if i < d.len() {
                assert(s[i] == d[i]);
            }
        }
        assert(s[0] == d[0]);
        assert(digit_char(n % 10) as int == 48 + n % 10);
        assert(decimal_value(s) == decimal_value(d) * 10 + (s.last() as int - 48));
        assert((n / 10) * 10 + n % 10 == n);
    } else {
        let s = decimal(n);
        assert(s.drop_last() =~= Seq::<char>::empty());
        assert(digit_char(n) as int == 48 + n);
        assert(decimal_value(s) == decimal_value(s.drop_last()) * 10 + (s.last() as int - 48));
    }
}

/// Distinct numbers have distinct decimal renderings.
pub proof fn lemma_decimal_injective(a: nat, b: nat)
    ensures
        decimal(a) == decimal(b) ==> a == b,
{
    lemma_decimal_reads_back(a);
    lemma_decimal_reads_back(b);
}

/// The text holds no path separator (`/` or a backslash).
pub open spec fn has_no_separator(s: Seq<char>) -> bool {
    forall|i: int| 0 <= i < s.len() ==> s[i] != '/' && s[i] != '\\'
}

/// A decimal rendering is digits only, so it holds no path separator.
pub proof fn lemma_decimal_has_no_separator(n: nat)
    ensures
        has_no_separator(decimal(n)),
    decreases n,
{
    if n >= 10 {
        lemma_decimal_has_no_separator(n / 10);
        let d = decimal(n / 10);
        let last = seq![digit_char(n % 10)];
        assert(decimal(n) == d + last);
        assert forall|i: int| 0 <= i < decimal(n).len() implies decimal(n)[i] != '/' && decimal(n)[i]
            != '\\' by {
            if i >= d.len() {
                assert(decimal(n)[i] == digit_char(n % 10));
            } else {
                assert(decimal(n)[i] == d[i]);
            }
        }
    }
}

fn digit_str(d: u32) -> (s: &'static str)
    requires
        d < 10,
    ensures
        s@ == seq![digit_char(d as nat)],
{
    proof {
        reveal_strlit("0");
        reveal_strlit("1");
        reveal_strlit("2");
        reveal_strlit("3");
        reveal_strlit("4");
        reveal_strlit("5");
        reveal_strlit("6");
        reveal_strlit("7");
        reveal_strlit("8");
        reveal_strlit("9");
    }
    if d == 0 {
        "0"
    } else if d == 1 {
        "1"
    } else if d == 2 {
        "2"
    } else if d == 3 {
        "3"
    } else if d == 4 {
        "4"
    } else if d == 5 {
        "5"
    } else if d == 6 {
        "6"
    } else if d == 7 {
        "7"
    } else if d == 8 {
        "8"
    } else {
        "9"
    }
}

/// Appends the decimal rendering of `n` to `s`.
pub fn push_decimal(s: &mut String, n: u32)
    ensures
        final(s)@ == old(s)@ + decimal(n as nat),
    decreases n,
{
    if n >= 10 {
        push_decimal(s, n / 10);
    }
    s.append(digit_str(n % 10));
}

/// The path that `PathBuf::push` (and so `Path::join`) makes of `base` and `part`.
pub uninterp spec fn pushed_path(base: Seq<char>, part: Seq<char>) -> Seq<char>;

/// The path that `Path::with_extension` makes of `path` and `extension`.
pub uninterp spec fn path_with_extension(path: Seq<char>, extension: Seq<char>) -> Seq<char>;

/// Joins `part` onto `base` with `std::path::PathBuf::push`; `Path::join` is
/// documented as this same operation on a copy. The result is the named
/// `pushed_path` of the two texts: how separators are placed, and that an
/// absolute `part` replaces `base`, is std's and is not restated here.
#[verifier::external_body]
pub fn path_join(base: &String, part: &String) -> (res: String)
    ensures
        res@ == pushed_path(base@, part@),
{
    let mut path = PathBuf::from(base.as_str());
    path.push(part.as_str());
    path.to_string_lossy().into_owned()
}

/// Replaces the extension of the last component of `path` with
/// `std::path::Path::with_extension`. The result is the named
/// `path_with_extension` of the two texts; how std finds the old extension is
/// not restated here. std panics on an extension that holds a path
/// separator, so such extensions are left out.
#[verifier::external_body]
pub fn path_set_extension(path: &String, extension: &String) -> (res: String)
    requires
        has_no_separator(extension@),
    ensures
        res@ == path_with_extension(path@, extension@),
{
    PathBuf::from(path.as_str()).with_extension(extension.as_str()).to_string_lossy().into_owned()
}

} // verus!
