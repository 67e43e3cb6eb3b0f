use vstd::prelude::*;

verus! {

/// What `str::to_lowercase` returns for the characters `s`.
pub uninterp spec fn lower_of(s: Seq<char>) -> Seq<char>;

/// Relies on `str::to_lowercase` (std): its result depends on the characters
/// of `s` alone.
#[verifier::external_body]
pub(crate) fn lowercase(s: &str) -> (r: String)
    ensures
        r@ == lower_of(s@),
{
    s.to_lowercase()
}

/// Lexicographic comparison of `a` and `b` by code point, from position `i` on:
/// true when `a` comes first or the two are equal from `i` on.
pub open spec fn lex_le_from(a: Seq<char>, b: Seq<char>, i: nat) -> bool
    decreases a.len() - i,
{
    if i >= a.len() {
        true
    } else if i >= b.len() {
        false
    } else if (a[i as int] as u32) != (b[i as int] as u32) {
        (a[i as int] as u32) < (b[i as int] as u32)
    } else {
        lex_le_from(a, b, i + 1)
    }
}

/// `a` is not after `b` in lexicographic order by code point (the order of
/// `String`'s `cmp`, which compares UTF-8 bytes, and so code points).
pub open spec fn lex_le(a: Seq<char>, b: Seq<char>) -> bool {
    lex_le_from(a, b, 0)
}

/// Of any two sequences, one is not after the other.
pub proof fn lemma_lex_total(a: Seq<char>, b: Seq<char>, i: nat)
    ensures
        lex_le_from(a, b, i) || lex_le_from(b, a, i),
    decreases a.len() - i,
{
    if i < a.len() && i < b.len() && (a[i as int] as u32) == (b[i as int] as u32) {
        lemma_lex_total(a, b, i + 1);
    }
}

/// The lexicographic order is transitive.
pub proof fn lemma_lex_trans(a: Seq<char>, b: Seq<char>, c: Seq<char>, i: nat)
    requires
        lex_le_from(a, b, i),
        lex_le_from(b, c, i),
    ensures
        lex_le_from(a, c, i),
    decreases a.len() - i,
{
    if i < a.len() && i < b.len() && i < c.len() && (a[i as int] as u32) == (b[i as int] as u32)
        && (b[i as int] as u32) == (c[i as int] as u32) {
        lemma_lex_trans(a, b, c, i + 1);
    }
}

/// Compares `a` and `b` lexicographically by code point.
pub fn lex_le_exec(a: &Vec<char>, b: &Vec<char>) -> (r: bool)
    ensures
        r == lex_le(a@, b@),
{
    let mut i: usize = 0;
    while i < a.len() && i < b.len()
        invariant
            i <= a@.len(),
            i <= b@.len(),
            lex_le(a@, b@) == lex_le_from(a@, b@, i as nat),
        decreases a@.len() - i,
    {
        if (a[i] as u32) != (b[i] as u32) {
            return (a[i] as u32) < (b[i] as u32);
        }
        i = i + 1;
    }
    i >= a.len()
}

/// The order of a listing on (is a directory, lower-cased name): directories
/// first, then by name.
pub open spec fn key_le(a_dir: bool, a_key: Seq<char>, b_dir: bool, b_key: Seq<char>) -> bool {
    if a_dir != b_dir {
        a_dir
    } else {
        lex_le(a_key, b_key)
    }
}

/// Of any two keys, one is not after the other.
pub proof fn lemma_key_total(a_dir: bool, a_key: Seq<char>, b_dir: bool, b_key: Seq<char>)
    ensures
        key_le(a_dir, a_key, b_dir, b_key) || key_le(b_dir, b_key, a_dir, a_key),
{
    lemma_lex_total(a_key, b_key, 0);
}

/// The order on keys is transitive.
pub proof fn lemma_key_trans(
    a_dir: bool,
    a_key: Seq<char>,
    b_dir: bool,
    b_key: Seq<char>,
    c_dir: bool,
    c_key: Seq<char>,
)
    requires
        key_le(a_dir, a_key, b_dir, b_key),
        key_le(b_dir, b_key, c_dir, c_key),
    ensures
        key_le(a_dir, a_key, c_dir, c_key),
{
    if a_dir == b_dir && b_dir == c_dir {
        lemma_lex_trans(a_key, b_key, c_key, 0);
    }
}

/// Compares two keys in the order of a listing.
pub fn key_le_exec(a_dir: bool, a_key: &Vec<char>, b_dir: bool, b_key: &Vec<char>) -> (r: bool)
    ensures
        r == key_le(a_dir, a_key@, b_dir, b_key@),
{
    if a_dir != b_dir {
        a_dir
    } else {
        lex_le_exec(a_key, b_key)
    }
}

} // verus!
