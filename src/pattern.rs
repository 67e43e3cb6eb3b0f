use vstd::prelude::*;

use crate::text::{
    chars_of, contains_exec, contains_seq, ends_with_exec, ends_with_seq, has_star, strip_stars,
    without_stars,
};

verus! {

/// The pattern used when the caller gives none.
pub const DEFAULT_PATTERN: &'static str = "*.inkfinite.json";

/// The pattern in force: the caller's, else the default one.
pub open spec fn effective_pattern(pattern: Option<String>) -> Seq<char> {
    match pattern {
        Some(p) => p@,
        None => DEFAULT_PATTERN@,
    }
}

/// Whether a file named `name` passes `pattern`: with a `*` in the pattern,
/// the name holds the pattern without its stars; without one, the name ends
/// with the pattern. Both checks are case-sensitive.
pub open spec fn pattern_matches(name: Seq<char>, pattern: Seq<char>) -> bool {
    if pattern.contains('*') {
        contains_seq(name, without_stars(pattern))
    } else {
        ends_with_seq(name, pattern)
    }
}

/// Checks a file name against a pattern.
pub fn matches_pattern(name: &str, pattern: &str) -> (r: bool)
    ensures
        r == pattern_matches(name@, pattern@),
{
    let n = chars_of(name);
    let p = chars_of(pattern);
    if has_star(&p) {
        let core = strip_stars(&p);
        contains_exec(&n, &core)
    } else {
        ends_with_exec(&n, &p)
    }
}

/// A sequence without `*` loses nothing when its stars are taken out.
proof fn lemma_without_stars_identity(s: Seq<char>)
    requires
        !s.contains('*'),
    ensures
        without_stars(s) == s,
    decreases s.len(),
{
    if s.len() > 0 {
        let init = s.drop_last();
        assert(!init.contains('*')) by {
            if init.contains('*') {
                let k = choose|k: int| 0 <= k < init.len() && init[k] == '*';
                assert(s[k] == '*');
            }
        }
        lemma_without_stars_identity(init);
        init.lemma_filter_push(s.last(), |c: char| c != '*');
        assert(init.push(s.last()) =~= s);
    }
}

/// Taking the stars out of `*`, `mid`, `*` leaves `mid` when `mid` has none.
proof fn lemma_without_outer_stars(mid: Seq<char>)
    requires
        !mid.contains('*'),
    ensures
        without_stars(seq!['*'] + mid + seq!['*']) == mid,
{
    let q = seq!['*'] + mid;
    lemma_without_stars_identity(mid);
    mid.lemma_filter_prepend('*', |c: char| c != '*');
    assert(without_stars(q) =~= mid);
    q.lemma_filter_push('*', |c: char| c != '*');
    assert(q.push('*') =~= seq!['*'] + mid + seq!['*']);
}

/// A pattern without `*` passes exactly the names that end with it; a pattern
/// made of a `*`, a text without `*`, and a `*` passes exactly the names that
/// hold that text.
pub proof fn lemma_pattern_kinds(name: Seq<char>, suffix: Seq<char>, mid: Seq<char>)
    requires
        !suffix.contains('*'),
        !mid.contains('*'),
    ensures
        pattern_matches(name, suffix) == ends_with_seq(name, suffix),
        pattern_matches(name, seq!['*'] + mid + seq!['*']) == contains_seq(name, mid),
{
    let p = seq!['*'] + mid + seq!['*'];
    assert(p[0] == '*');
    lemma_without_outer_stars(mid);
}

} // verus!
