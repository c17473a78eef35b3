use vstd::prelude::*;

verus! {

/// An ASCII decimal digit.
pub open spec fn is_digit(c: char) -> bool {
    '0' <= c && c <= '9'
}

/// `s` is a release version `<digits>.<digits>.<digits>`: it holds exactly
/// two dots, at `i` and `j`, every other character is a digit, and each of
/// the three components is non-empty.
pub open spec fn is_release(s: Seq<char>) -> bool {
    exists|i: int, j: int| #[trigger] release_dots(s, i, j)
}

/// The dots of a release version stand at `i` and `j`.
pub open spec fn release_dots(s: Seq<char>, i: int, j: int) -> bool {
    &&& 0 < i
    &&& i + 1 < j
    &&& j + 1 < s.len()
    &&& s[i] == '.'
    &&& s[j] == '.'
    &&& forall|k: int| 0 <= k < s.len() && k != i && k != j ==> is_digit(#[trigger] s[k])
}

/// What a release version never holds: a character that is neither a digit
/// nor a dot (a letter, or the `-` or `+` of a pre-release or build suffix),
/// or a third dot (an extra component).
pub proof fn lemma_release_rejects(s: Seq<char>)
    ensures
        (exists|k: int| 0 <= k < s.len() && !is_digit(#[trigger] s[k]) && s[k] != '.')
            ==> !is_release(s),
        (exists|a: int, b: int, c: int|
            0 <= a < b && b < c && c < s.len() && #[trigger] s[a] == '.' && #[trigger] s[b]
                == '.' && #[trigger] s[c] == '.') ==> !is_release(s),
{
    assert forall|i: int, j: int| #[trigger] release_dots(s, i, j) implies (forall|k: int|
        0 <= k < s.len() ==> is_digit(#[trigger] s[k]) || s[k] == '.') && (forall|a: int, b: int, c: int|
        0 <= a < b && b < c && c < s.len() && #[trigger] s[a] == '.' && #[trigger] s[b] == '.'
            && #[trigger] s[c] == '.' ==> false) by {
        assert forall|a: int, b: int, c: int|
            0 <= a < b && b < c && c < s.len() && #[trigger] s[a] == '.' && #[trigger] s[b] == '.'
                && #[trigger] s[c] == '.' implies false by {
            if a != i && a != j {
                assert(is_digit(s[a]));
            } else if b != i && b != j {
                assert(is_digit(s[b]));
            } else {
                assert(is_digit(s[c]));
            }
        }
    }
}

/// Tells whether `c` is an ASCII decimal digit.
pub(crate) fn is_ascii_digit(c: char) -> (r: bool)
    ensures
        r == is_digit(c),
{
    '0' <= c && c <= '9'
}

/// The end of the run of digits in `s` that starts at `from`.
fn digits_end(s: &str, from: usize) -> (end: usize)
    requires
        from <= s@.len(),
    ensures
        from <= end <= s@.len(),
        forall|k: int| from <= k < end ==> is_digit(#[trigger] s@[k]),
        end < s@.len() ==> !is_digit(s@[end as int]),
{
    let n = s.unicode_len();
    let mut i: usize = from;
    while i < n && is_ascii_digit(s.get_char(i))
        invariant
            n == s@.len(),
            from <= i <= n,
            forall|k: int| from <= k < i ==> is_digit(#[trigger] s@[k]),
        decreases n - i,
    {
        i = i + 1;
    }
    i
}

/// Tells whether `s` is a release version: three non-empty runs of ASCII
/// digits joined by dots, with nothing before, between or after them.
pub fn is_release_version(s: &str) -> (r: bool)
    ensures
        r == is_release(s@),
{
    let n = s.unicode_len();
    let first = digits_end(s, 0);
    if first == 0 || first >= n || s.get_char(first) != '.' {
        proof {
            assert forall|i: int, j: int| !release_dots(s@, i, j) by {
                if release_dots(s@, i, j) {
                    if first < i {
                        assert(!is_digit(s@[first as int]));
                    }
                }
            }
        }
        return false;
    }
    let second = digits_end(s, first + 1);
    if second == first + 1 || second >= n || s.get_char(second) != '.' {
        proof {
            assert forall|i: int, j: int| !release_dots(s@, i, j) by {
                if release_dots(s@, i, j) {
                    if first < i {
                        assert(!is_digit(s@[first as int]));
                    }
                    if i < first {
                        assert(is_digit(s@[i]));
                    }
                    if second < j {
                        assert(!is_digit(s@[second as int]));
                    }
                    if j < second {
                        assert(is_digit(s@[j]));
                    }
                }
            }
        }
        return false;
    }
    let third = digits_end(s, second + 1);
    let r = third > second + 1 && third == n;
    proof {
        if r {
            assert(release_dots(s@, first as int, second as int));
        } else {
            assert forall|i: int, j: int| !release_dots(s@, i, j) by {
                if release_dots(s@, i, j) {
                    if first < i {
                        assert(!is_digit(s@[first as int]));
                    }
                    if i < first {
                        assert(is_digit(s@[i]));
                    }
                    if second < j {
                        assert(!is_digit(s@[second as int]));
                    }
                    if j < second {
                        assert(is_digit(s@[j]));
                    }
                    if third < n {
                        assert(!is_digit(s@[third as int]));
                    }
                }
            }
        }
    }
    r
}

} // verus!
