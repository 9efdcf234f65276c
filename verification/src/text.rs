//! Character-level helpers on string slices: comparison, suffix tests and
//! the literal grammars that the settings store accepts.

use vstd::prelude::*;
use vstd::std_specs::iter::IteratorSpec;
use vstd::string::StringSliceAdditionalSpecFns;
use vstd::utf8::encode_utf8_decode_utf8;

verus! {

/// The characters of `s`, in order.
pub fn chars_of(s: &str) -> (v: Vec<char>)
    ensures
        v@ == s@,
{
    let mut v: Vec<char> = Vec::new();
    let chars = s.chars();
    for c in it: chars
        invariant
            it.seq() == s@,
            v@ == it.history(),
    {
        v.push(c);
    }
    assert(v@ =~= s@);
    v
}

/// Whether two string slices hold the same characters.
pub fn str_eq(a: &str, b: &str) -> (r: bool)
    ensures
        r == (a@ == b@),
{
    let x = a.as_bytes();
    let y = b.as_bytes();
    proof {
        encode_utf8_decode_utf8(a@);
        encode_utf8_decode_utf8(b@);
    }
    if x.len() != y.len() {
        return false;
    }
    let mut i: usize = 0;
    while i < x.len()
        invariant
            i <= x.len(),
            x.len() == y.len(),
            x@ == a.spec_bytes(),
            y@ == b.spec_bytes(),
            forall|k: int| 0 <= k < i ==> x@[k] == y@[k],
        decreases x.len() - i,
    {
        if x[i] != y[i] {
            return false;
        }
        i += 1;
    }
    assert(x@ =~= y@);
    true
}

/// `s` ends with `suffix`.
pub open spec fn has_suffix(s: Seq<char>, suffix: Seq<char>) -> bool {
    &&& suffix.len() <= s.len()
    &&& s.skip(s.len() - suffix.len()) == suffix
}

/// Whether `s` ends with `suffix`.
pub fn ends_with(s: &str, suffix: &str) -> (r: bool)
    ensures
        r == has_suffix(s@, suffix@),
{
    let a = chars_of(s);
    let b = chars_of(suffix);
    if b.len() > a.len() {
        return false;
    }
    let shift = a.len() - b.len();
    let mut i: usize = 0;
    while i < b.len()
        invariant
            i <= b.len(),
            shift + b.len() == a.len(),
            a@ == s@,
            b@ == suffix@,
            forall|k: int| 0 <= k < i ==> a@[shift + k] == b@[k],
        decreases b.len() - i,
    {
        if a[shift + i] != b[i] {
            assert(a@.skip(shift as int)[i as int] != b@[i as int]);
            return false;
        }
        i += 1;
    }
    assert(a@.skip(shift as int) =~= b@);
    true
}

/// The code of `c`, with the letters `A` to `Z` folded onto `a` to `z`.
pub open spec fn fold_case(c: char) -> int {
    if 'A' <= c && c <= 'Z' {
        c as int + 32
    } else {
        c as int
    }
}

/// `a` and `b` are equal up to the case of ASCII letters.
pub open spec fn same_ignoring_case(a: Seq<char>, b: Seq<char>) -> bool {
    &&& a.len() == b.len()
    &&& forall|i: int| 0 <= i < a.len() ==> fold_case(#[trigger] a[i]) == fold_case(b[i])
}

/// The code of `c` folded to lower case, for ASCII letters.
pub fn fold(c: char) -> (r: u32)
    ensures
        r == fold_case(c),
{
    if c >= 'A' && c <= 'Z' {
        c as u32 + 32
    } else {
        c as u32
    }
}

/// Whether what `v` holds from position `from` on equals `pattern` up to
/// the case of ASCII letters.
pub fn tail_matches_ignoring_case(v: &Vec<char>, from: usize, pattern: &str) -> (r: bool)
    requires
        from <= v.len(),
    ensures
        r == same_ignoring_case(v@.skip(from as int), pattern@),
{
    let p = chars_of(pattern);
    if v.len() - from != p.len() {
        return false;
    }
    let mut i: usize = 0;
    while i < p.len()
        invariant
            i <= p.len(),
            from + p.len() == v.len(),
            p@ == pattern@,
            forall|k: int| 0 <= k < i ==> fold_case(v@[from + k]) == fold_case(p@[k]),
        decreases p.len() - i,
    {
        if fold(v[from + i]) != fold(p[i]) {
            assert(v@.skip(from as int)[i as int] == v@[from + i]);
            return false;
        }
        i += 1;
    }
    assert forall|k: int| 0 <= k < p.len() implies fold_case(#[trigger] v@.skip(from as int)[k])
        == fold_case(p@[k]) by {
        assert(v@.skip(from as int)[k] == v@[from + k]);
    }
    true
}

/// Whether `a` and `b` are equal up to the case of ASCII letters.
pub fn eq_ignore_ascii_case(a: &str, b: &str) -> (r: bool)
    ensures
        r == same_ignoring_case(a@, b@),
{
    let v = chars_of(a);
    assert(v@.skip(0) =~= v@);
    tail_matches_ignoring_case(&v, 0, b)
}

} // verus!
