use vstd::prelude::*;

verus! {

/// Index of the first occurrence of `c` in `t` at or after position `i`,
/// or `t.len()` when `c` does not occur there.
pub open spec fn find_char_from(t: Seq<char>, c: char, i: int) -> int
    recommends
        0 <= i <= t.len(),
    decreases t.len() - i when 0 <= i <= t.len()
{
    if i >= t.len() {
        t.len() as int
    } else if t[i] == c {
        i
    } else {
        find_char_from(t, c, i + 1)
    }
}

/// `c` occurs somewhere in `t`.
pub open spec fn has_char(t: Seq<char>, c: char) -> bool {
    find_char_from(t, c, 0) < t.len()
}

/// What `find_char_from` returns: the first hit, with no occurrence of `c`
/// before it.
pub proof fn lemma_find_char_from(t: Seq<char>, c: char, i: int)
    requires
        0 <= i <= t.len(),
    ensures
        i <= find_char_from(t, c, i) <= t.len(),
        forall|j: int| i <= j < find_char_from(t, c, i) ==> t[j] != c,
        find_char_from(t, c, i) < t.len() ==> t[find_char_from(t, c, i)] == c,
    decreases t.len() - i,
{
    if i < t.len() && t[i] != c {
        lemma_find_char_from(t, c, i + 1);
    }
}

/// Finds the first occurrence of `c` in `s` at or after character position
/// `from`, counting in characters, not bytes.
pub fn find_char(s: &str, c: char, from: usize) -> (r: usize)
    requires
        from <= s@.len(),
    ensures
        r == find_char_from(s@, c, from as int),
{
    let n = s.unicode_len();
    let mut i = from;
    while i < n
        invariant
            from <= i <= n,
            n == s@.len(),
            find_char_from(s@, c, from as int) == find_char_from(s@, c, i as int),
        decreases n - i,
    {
        if s.get_char(i) == c {
            return i;
        }
        i = i + 1;
    }
    i
}

} // verus!
