//! Character-sequence helpers shared by the document codec and the command
//! grammar: first-occurrence search, line and word splitting, and the
//! well-formedness of the tokens that may stand in a document.

use vstd::prelude::*;

verus! {

/// A token character: anything but the two separators the document grammar
/// reserves (the space between fields and the newline between records).
pub open spec fn is_token_char(c: char) -> bool {
    c != ' ' && c != '\n'
}

/// A well-formed token: nonempty, and free of separators.
pub open spec fn wf_token(s: Seq<char>) -> bool {
    &&& s.len() > 0
    &&& forall|i: int| 0 <= i < s.len() ==> is_token_char(#[trigger] s[i])
}

/// Free text that can stand to the end of a record: any characters except a
/// newline; it may be empty and may contain spaces.
pub open spec fn wf_text(s: Seq<char>) -> bool {
    forall|i: int| 0 <= i < s.len() ==> #[trigger] s[i] != '\n'
}

/// Index of the first occurrence of `c` in `s`, or `-1` when `s` has none.
pub open spec fn find_char(s: Seq<char>, c: char) -> int
    decreases s.len(),
{
    if s.len() == 0 {
        -1
    } else if s[0] == c {
        0
    } else {
        let r = find_char(s.drop_first(), c);
        if r < 0 {
            -1
        } else {
            r + 1
        }
    }
}

/// What `find_char` returns: `-1` exactly when `c` does not occur, and
/// otherwise the least index holding `c`.
pub proof fn lemma_find_char(s: Seq<char>, c: char)
    ensures
        find_char(s, c) == -1 ==> forall|i: int| 0 <= i < s.len() ==> #[trigger] s[i] != c,
        find_char(s, c) != -1 ==> {
            &&& 0 <= find_char(s, c) < s.len()
            &&& s[find_char(s, c)] == c
            &&& forall|j: int| 0 <= j < find_char(s, c) ==> #[trigger] s[j] != c
        },
    decreases s.len(),
{
    if s.len() == 0 {
    } else if s[0] == c {
    } else {
        lemma_find_char(s.drop_first(), c);
        let r = find_char(s.drop_first(), c);
        if r == -1 {
            assert forall|i: int| 0 <= i < s.len() implies #[trigger] s[i] != c by {
                if i >= 1 {
                    assert(s.drop_first()[i - 1] != c);
                    assert(s.drop_first()[i - 1] == s[i]);
                }
            }
        } else {
            assert(s.drop_first()[r] == s[r + 1]);
            assert forall|j: int| 0 <= j < r + 1 implies #[trigger] s[j] != c by {
                if j >= 1 {
                    assert(s.drop_first()[j - 1] != c);
                    assert(s.drop_first()[j - 1] == s[j]);
                }
            }
        }
    }
}

/// The first occurrence is pinned: a position holding `c` with none before it
/// is what `find_char` returns.
pub proof fn lemma_find_char_is_first(s: Seq<char>, c: char, k: int)
    requires
        0 <= k < s.len(),
        s[k] == c,
        forall|j: int| 0 <= j < k ==> #[trigger] s[j] != c,
    ensures
        find_char(s, c) == k,
{
    lemma_find_char(s, c);
    let f = find_char(s, c);
    if f == -1 {
        assert(s[k] != c);
    } else {
        if f < k {
            assert(s[f] != c);
        }
        if k < f {
            assert(s[k] != c);
        }
    }
}

/// Searching a concatenation whose first part is free of `c` lands in the
/// second part, shifted by the first part's length.
pub proof fn lemma_find_char_append(a: Seq<char>, b: Seq<char>, c: char)
    requires
        forall|i: int| 0 <= i < a.len() ==> #[trigger] a[i] != c,
    ensures
        find_char(a + b, c) == (if find_char(b, c) == -1 {
            -1
        } else {
            a.len() + find_char(b, c)
        }),
{
    lemma_find_char(b, c);
    let fb = find_char(b, c);
    if fb == -1 {
        assert forall|i: int| 0 <= i < (a + b).len() implies #[trigger] (a + b)[i] != c by {
            if i < a.len() {
                assert((a + b)[i] == a[i]);
            } else {
                assert((a + b)[i] == b[i - a.len()]);
            }
        }
        lemma_find_char(a + b, c);
        if find_char(a + b, c) != -1 {
            assert((a + b)[find_char(a + b, c)] != c);
        }
    } else {
        let k = a.len() + fb;
        assert((a + b)[k] == b[fb]);
        assert forall|j: int| 0 <= j < k implies #[trigger] (a + b)[j] != c by {
            if j < a.len() {
                assert((a + b)[j] == a[j]);
            } else {
                assert((a + b)[j] == b[j - a.len()]);
            }
        }
        lemma_find_char_is_first(a + b, c, k);
    }
}

/// Finds the first occurrence of `c` in `s[from..to]`, reported as an
/// absolute index into `s`.
pub fn find_char_range(s: &str, c: char, from: usize, to: usize) -> (r: Option<usize>)
    requires
        from <= to <= s@.len(),
    ensures
        match r {
            Some(k) => {
                &&& from <= k < to
                &&& s@[k as int] == c
                &&& forall|j: int| from <= j < k ==> #[trigger] s@[j] != c
            },
            None => forall|j: int| from <= j < to ==> #[trigger] s@[j] != c,
        },
{
    let mut i: usize = from;
    while i < to
        invariant
            from <= i <= to <= s@.len(),
            forall|j: int| from <= j < i ==> #[trigger] s@[j] != c,
        decreases to - i,
    {
        if s.get_char(i) == c {
            return Some(i);
        }
        i = i + 1;
    }
    None
}

/// Ties the absolute-index search to `find_char` on the subrange searched.
pub proof fn lemma_find_char_range(s: Seq<char>, c: char, from: int, to: int, r: Option<usize>)
    requires
        0 <= from <= to <= s.len(),
        match r {
            Some(k) => {
                &&& from <= k < to
                &&& s[k as int] == c
                &&& forall|j: int| from <= j < k ==> #[trigger] s[j] != c
            },
            None => forall|j: int| from <= j < to ==> #[trigger] s[j] != c,
        },
    ensures
        match r {
            Some(k) => find_char(s.subrange(from, to), c) == k - from,
            None => find_char(s.subrange(from, to), c) == -1,
        },
{
    let t = s.subrange(from, to);
    match r {
        Some(k) => {
            assert(t[k - from] == s[k as int]);
            assert forall|j: int| 0 <= j < k - from implies #[trigger] t[j] != c by {
                assert(t[j] == s[j + from]);
            }
            lemma_find_char_is_first(t, c, k - from);
        },
        None => {
            lemma_find_char(t, c);
            if find_char(t, c) != -1 {
                let f = find_char(t, c);
                assert(t[f] == s[f + from]);
            }
        },
    }
}

/// Whether every character of `s` in `[from, to)` is a token character.
pub fn check_token_range(s: &str, from: usize, to: usize) -> (r: bool)
    requires
        from <= to <= s@.len(),
    ensures
        r == wf_token(s@.subrange(from as int, to as int)),
{
    if from == to {
        assert(!wf_token(s@.subrange(from as int, to as int)));
        return false;
    }
    let mut i: usize = from;
    while i < to
        invariant
            from <= i <= to <= s@.len(),
            forall|j: int| from <= j < i ==> is_token_char(#[trigger] s@[j]),
        decreases to - i,
    {
        let ch = s.get_char(i);
        if ch == ' ' || ch == '\n' {
            assert(!is_token_char(s@.subrange(from as int, to as int)[i - from]));
            return false;
        }
        i = i + 1;
    }
    assert forall|j: int| 0 <= j < to - from implies is_token_char(
        #[trigger] s@.subrange(from as int, to as int)[j],
    ) by {
        assert(s@.subrange(from as int, to as int)[j] == s@[j + from]);
    }
    true
}

/// Whether any character of `s` in `[from, to)` is a newline.
pub fn check_text_range(s: &str, from: usize, to: usize) -> (r: bool)
    requires
        from <= to <= s@.len(),
    ensures
        r == wf_text(s@.subrange(from as int, to as int)),
{
    let mut i: usize = from;
    while i < to
        invariant
            from <= i <= to <= s@.len(),
            forall|j: int| from <= j < i ==> #[trigger] s@[j] != '\n',
        decreases to - i,
    {
        if s.get_char(i) == '\n' {
            assert(s@.subrange(from as int, to as int)[i - from] == '\n');
            return false;
        }
        i = i + 1;
    }
    assert forall|j: int| 0 <= j < to - from implies #[trigger] s@.subrange(
        from as int,
        to as int,
    )[j] != '\n' by {
        assert(s@.subrange(from as int, to as int)[j] == s@[j + from]);
    }
    true
}

/// Copies `s[from..to]` into an owned string.
pub fn copy_range(s: &str, from: usize, to: usize) -> (r: String)
    requires
        from <= to <= s@.len(),
    ensures
        r@ == s@.subrange(from as int, to as int),
{
    let sub = s.substring_char(from, to);
    sub.to_owned()
}

/// Whether `p` occurs in `s` as a contiguous run.
pub open spec fn contains_seq(s: Seq<char>, p: Seq<char>) -> bool {
    exists|i: int| 0 <= i <= s.len() - p.len() && #[trigger] s.subrange(i, i + p.len() as int) == p
}

/// Substring search: whether `needle` occurs anywhere in `hay`.
pub fn contains_str(hay: &str, needle: &str) -> (r: bool)
    ensures
        r == contains_seq(hay@, needle@),
{
    let n = hay.unicode_len();
    let m = needle.unicode_len();
    if m > n {
        proof {
            if contains_seq(hay@, needle@) {
                let i = choose|i: int|
                    0 <= i <= hay@.len() - needle@.len() && #[trigger] hay@.subrange(
                        i,
                        i + needle@.len() as int,
                    ) == needle@;
            }
        }
        return false;
    }
    if m == 0 {
        proof {
            assert(hay@.subrange(0, 0 + needle@.len() as int) =~= needle@);
            assert(contains_seq(hay@, needle@));
        }
        return true;
    }
    let mut i: usize = 0;
    while i <= n - m
        invariant
            0 < m <= n,
            n == hay@.len(),
            m == needle@.len(),
            i <= n - m + 1,
            forall|j: int| 0 <= j < i ==> #[trigger] hay@.subrange(j, j + needle@.len() as int)
                != needle@,
        decreases n - i,
    {
        if range_eq_str(hay, i, i + m, needle) {
            assert(hay@.subrange(i as int, i as int + needle@.len() as int) == needle@);
            return true;
        }
        i = i + 1;
    }
    proof {
        if contains_seq(hay@, needle@) {
            let j = choose|j: int|
                0 <= j <= hay@.len() - needle@.len() && #[trigger] hay@.subrange(
                    j,
                    j + needle@.len() as int,
                ) == needle@;
            assert(hay@.subrange(j, j + needle@.len() as int) != needle@);
        }
    }
    false
}

/// Character-for-character equality of two string slices.
pub fn str_eq(a: &str, b: &str) -> (r: bool)
    ensures
        r == (a@ == b@),
{
    let an = a.unicode_len();
    let bn = b.unicode_len();
    if an != bn {
        assert(a@ != b@);
        return false;
    }
    let mut i: usize = 0;
    while i < an
        invariant
            an == a@.len(),
            bn == b@.len(),
            an == bn,
            i <= an,
            forall|j: int| 0 <= j < i ==> a@[j] == b@[j],
        decreases an - i,
    {
        if a.get_char(i) != b.get_char(i) {
            assert(a@[i as int] != b@[i as int]);
            assert(a@ != b@);
            return false;
        }
        i = i + 1;
    }
    assert(a@ =~= b@);
    true
}

/// Whether `s[from..to]` equals the whole of `t`.
pub fn range_eq_str(s: &str, from: usize, to: usize, t: &str) -> (r: bool)
    requires
        from <= to <= s@.len(),
    ensures
        r == (s@.subrange(from as int, to as int) == t@),
{
    let n = t.unicode_len();
    if to - from != n {
        assert(s@.subrange(from as int, to as int).len() != t@.len());
        return false;
    }
    let mut i: usize = 0;
    while i < n
        invariant
            i <= n,
            n == t@.len(),
            from <= to <= s@.len(),
            to - from == n,
            forall|j: int| 0 <= j < i ==> #[trigger] s@[from + j] == t@[j],
        decreases n - i,
    {
        if s.get_char(from + i) != t.get_char(i) {
            assert(s@.subrange(from as int, to as int)[i as int] != t@[i as int]);
            return false;
        }
        i = i + 1;
    }
    assert forall|j: int| 0 <= j < n implies #[trigger] s@.subrange(from as int, to as int)[j]
        == t@[j] by {
        assert(s@.subrange(from as int, to as int)[j] == s@[from + j]);
    }
    assert(s@.subrange(from as int, to as int) =~= t@);
    true
}

} // verus!
