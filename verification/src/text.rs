//! Verified text utilities for the report parser: whitespace handling,
//! first-occurrence search, trimming and whitespace-splitting, each exec
//! function proved against a recursive specification of the same operation.

use vstd::prelude::*;

verus! {

/// The whitespace characters the parser recognizes.
pub open spec fn is_ws(c: char) -> bool {
    c == ' ' || c == '\t' || c == '\r' || c == '\n'
}

/// Runtime test of `is_ws`.
pub fn is_ws_exec(c: char) -> (b: bool)
    ensures
        b == is_ws(c),
{
    c == ' ' || c == '\t' || c == '\r' || c == '\n'
}

/// Index of the first occurrence of `c`, if any.
pub open spec fn find_char_spec(s: Seq<char>, c: char) -> Option<int>
    decreases s.len(),
{
    if s.len() == 0 {
        None
    } else if s[0] == c {
        Some(0int)
    } else {
        match find_char_spec(s.drop_first(), c) {
            Some(i) => Some(i + 1),
            None => None,
        }
    }
}

/// Index of the first occurrence of the two-character sequence `c0 c1`.
pub open spec fn find_pair_spec(s: Seq<char>, c0: char, c1: char) -> Option<int>
    decreases s.len(),
{
    if s.len() < 2 {
        None
    } else if s[0] == c0 && s[1] == c1 {
        Some(0int)
    } else {
        match find_pair_spec(s.drop_first(), c0, c1) {
            Some(i) => Some(i + 1),
            None => None,
        }
    }
}

/// Index of the first occurrence of the three-character sequence
/// `c0 c1 c2`.
pub open spec fn find_triple_spec(s: Seq<char>, c0: char, c1: char, c2: char) -> Option<int>
    decreases s.len(),
{
    if s.len() < 3 {
        None
    } else if s[0] == c0 && s[1] == c1 && s[2] == c2 {
        Some(0int)
    } else {
        match find_triple_spec(s.drop_first(), c0, c1, c2) {
            Some(i) => Some(i + 1),
            None => None,
        }
    }
}

/// `find_char_spec` returns exactly the first matching index.
proof fn lemma_find_char_at(s: Seq<char>, c: char, i: int)
    requires
        0 <= i <= s.len(),
        forall|k: int| 0 <= k < i ==> s[k] != c,
        i == s.len() || s[i] == c,
    ensures
        i < s.len() ==> find_char_spec(s, c) == Some(i),
        i == s.len() ==> find_char_spec(s, c) is None,
    decreases s.len(),
{
    if s.len() == 0 {
    } else if s[0] == c {
        assert(i == 0);
    } else {
        assert(i >= 1);
        lemma_find_char_at(s.drop_first(), c, i - 1);
    }
}

/// `find_pair_spec` returns exactly the first matching index.
proof fn lemma_find_pair_at(s: Seq<char>, c0: char, c1: char, i: int)
    requires
        0 <= i,
        i + 1 <= s.len(),
        forall|k: int| 0 <= k < i ==> !((#[trigger] s[k]) == c0 && s[k + 1] == c1),
        i + 1 == s.len() || (s[i] == c0 && s[i + 1] == c1),
    ensures
        i + 1 < s.len() ==> find_pair_spec(s, c0, c1) == Some(i),
        i + 1 == s.len() ==> find_pair_spec(s, c0, c1) is None,
    decreases s.len(),
{
    if s.len() < 2 {
    } else if s[0] == c0 && s[1] == c1 {
        assert(i == 0);
    } else {
        assert(i >= 1);
        lemma_find_pair_at(s.drop_first(), c0, c1, i - 1);
    }
}

/// A pair is never found in a sequence shorter than two characters.
proof fn lemma_find_pair_short(s: Seq<char>, c0: char, c1: char)
    requires
        s.len() < 2,
    ensures
        find_pair_spec(s, c0, c1) is None,
{
}

/// `find_triple_spec` returns exactly the first matching index.
proof fn lemma_find_triple_at(s: Seq<char>, c0: char, c1: char, c2: char, i: int)
    requires
        0 <= i,
        i + 2 <= s.len(),
        forall|k: int| 0 <= k < i ==> !((#[trigger] s[k]) == c0 && s[k + 1] == c1 && s[k + 2] == c2),
        i + 2 == s.len() || (s[i] == c0 && s[i + 1] == c1 && s[i + 2] == c2),
    ensures
        i + 2 < s.len() ==> find_triple_spec(s, c0, c1, c2) == Some(i),
        i + 2 == s.len() ==> find_triple_spec(s, c0, c1, c2) is None,
    decreases s.len(),
{
    if s.len() < 3 {
    } else if s[0] == c0 && s[1] == c1 && s[2] == c2 {
        assert(i == 0);
    } else {
        assert(i >= 1);
        lemma_find_triple_at(s.drop_first(), c0, c1, c2, i - 1);
    }
}

/// A triple is never found in a sequence shorter than three characters.
proof fn lemma_find_triple_short(s: Seq<char>, c0: char, c1: char, c2: char)
    requires
        s.len() < 3,
    ensures
        find_triple_spec(s, c0, c1, c2) is None,
{
}

/// Find the first occurrence of `c` at or after `from`.
pub fn find_char_from(s: &str, from: usize, c: char) -> (r: Option<usize>)
    requires
        from <= s@.len(),
    ensures
        match r {
            Some(i) => from <= i && i < s@.len() && s@[i as int] == c && (forall|k: int|
                from <= k < i ==> s@[k] != c) && find_char_spec(s@.skip(from as int), c) == Some(
                i - from,
            ),
            None => (forall|k: int| from <= k < s@.len() ==> s@[k] != c) && find_char_spec(
                s@.skip(from as int),
                c,
            ) is None,
        },
{
    let n: usize = s.unicode_len();
    let mut i: usize = from;
    while i < n
        invariant
            from <= i <= n,
            n == s@.len(),
            forall|k: int| from <= k < i ==> s@[k] != c,
        decreases n - i,
    {
        if s.get_char(i) == c {
            proof {
                let t = s@.skip(from as int);
                assert forall|k: int| 0 <= k < i - from implies t[k] != c by {
                    assert(t[k] == s@[k + from]);
                }
                lemma_find_char_at(t, c, i - from);
            }
            return Some(i);
        }
        i = i + 1;
    }
    proof {
        let t = s@.skip(from as int);
        assert forall|k: int| 0 <= k < t.len() implies t[k] != c by {
            assert(t[k] == s@[k + from]);
        }
        lemma_find_char_at(t, c, t.len() as int);
    }
    None
}

/// Find the first occurrence of the pair `c0 c1` at or after `from`.
pub fn find_pair_from(s: &str, from: usize, c0: char, c1: char) -> (r: Option<usize>)
    requires
        from <= s@.len(),
    ensures
        match r {
            Some(i) => from <= i && i + 1 < s@.len() && s@[i as int] == c0 && s@[i + 1] == c1 && (
            forall|k: int|
                from <= k < i ==> !((#[trigger] s@[k]) == c0 && s@[k + 1] == c1)) && find_pair_spec(
                s@.skip(from as int),
                c0,
                c1,
            ) == Some(i - from),
            None => (forall|k: int|
                from <= k && k + 1 < s@.len() ==> !((#[trigger] s@[k]) == c0 && s@[k + 1] == c1))
                && find_pair_spec(s@.skip(from as int), c0, c1) is None,
        },
{
    let n: usize = s.unicode_len();
    if n - from < 2 {
        proof {
            lemma_find_pair_short(s@.skip(from as int), c0, c1);
        }
        return None;
    }
    let mut i: usize = from;
    while i + 1 < n
        invariant
            from <= i,
            i + 1 <= n,
            n == s@.len(),
            forall|k: int| from <= k < i ==> !((#[trigger] s@[k]) == c0 && s@[k + 1] == c1),
        decreases n - i,
    {
        if s.get_char(i) == c0 && s.get_char(i + 1) == c1 {
            proof {
                let t = s@.skip(from as int);
                assert forall|k: int| 0 <= k < i - from implies !((#[trigger] t[k]) == c0 && t[k + 1] == c1) by {
                    assert(t[k] == s@[k + from]);
                    assert(t[k + 1] == s@[k + from + 1]);
                }
                assert(t[i - from] == s@[i as int]);
                assert(t[i - from + 1] == s@[i + 1]);
                lemma_find_pair_at(t, c0, c1, i - from);
            }
            return Some(i);
        }
        i = i + 1;
    }
    proof {
        let t = s@.skip(from as int);
        assert forall|k: int| 0 <= k < t.len() - 1 implies !((#[trigger] t[k]) == c0 && t[k + 1] == c1) by {
            assert(t[k] == s@[k + from]);
            assert(t[k + 1] == s@[k + from + 1]);
        }
        lemma_find_pair_at(t, c0, c1, t.len() - 1);
    }
    None
}

/// Find the first occurrence of the triple `c0 c1 c2` at or after `from`.
pub fn find_triple_from(s: &str, from: usize, c0: char, c1: char, c2: char) -> (r: Option<usize>)
    requires
        from <= s@.len(),
    ensures
        match r {
            Some(i) => from <= i && i + 2 < s@.len() && s@[i as int] == c0 && s@[i + 1] == c1
                && s@[i + 2] == c2 && (forall|k: int|
                from <= k < i ==> !((#[trigger] s@[k]) == c0 && s@[k + 1] == c1 && s@[k + 2] == c2))
                && find_triple_spec(s@.skip(from as int), c0, c1, c2) == Some(i - from),
            None => (forall|k: int|
                from <= k && k + 2 < s@.len() ==> !((#[trigger] s@[k]) == c0 && s@[k + 1] == c1
                    && s@[k + 2] == c2)) && find_triple_spec(s@.skip(from as int), c0, c1, c2) is None,
        },
{
    let n: usize = s.unicode_len();
    if n - from < 3 {
        proof {
            lemma_find_triple_short(s@.skip(from as int), c0, c1, c2);
        }
        return None;
    }
    let mut i: usize = from;
    while i + 2 < n
        invariant
            from <= i,
            i + 2 <= n,
            n == s@.len(),
            forall|k: int| from <= k < i ==> !((#[trigger] s@[k]) == c0 && s@[k + 1] == c1 && s@[k + 2] == c2),
        decreases n - i,
    {
        if s.get_char(i) == c0 && s.get_char(i + 1) == c1 && s.get_char(i + 2) == c2 {
            proof {
                let t = s@.skip(from as int);
                assert forall|k: int| 0 <= k < i - from implies !((#[trigger] t[k]) == c0 && t[k + 1] == c1
                    && t[k + 2] == c2) by {
                    assert(t[k] == s@[k + from]);
                    assert(t[k + 1] == s@[k + from + 1]);
                    assert(t[k + 2] == s@[k + from + 2]);
                }
                assert(t[i - from] == s@[i as int]);
                assert(t[i - from + 1] == s@[i + 1]);
                assert(t[i - from + 2] == s@[i + 2]);
                lemma_find_triple_at(t, c0, c1, c2, i - from);
            }
            return Some(i);
        }
        i = i + 1;
    }
    proof {
        let t = s@.skip(from as int);
        assert forall|k: int| 0 <= k < t.len() - 2 implies !((#[trigger] t[k]) == c0 && t[k + 1] == c1
            && t[k + 2] == c2) by {
            assert(t[k] == s@[k + from]);
            assert(t[k + 1] == s@[k + from + 1]);
            assert(t[k + 2] == s@[k + from + 2]);
        }
        lemma_find_triple_at(t, c0, c1, c2, t.len() - 2);
    }
    None
}


/// A found character index is in range and matches.
pub proof fn lemma_find_char_range(s: Seq<char>, c: char)
    ensures
        match find_char_spec(s, c) {
            Some(i) => 0 <= i < s.len() && s[i] == c,
            None => true,
        },
    decreases s.len(),
{
    if s.len() == 0 {
    } else if s[0] == c {
    } else {
        lemma_find_char_range(s.drop_first(), c);
    }
}

/// A found pair index is in range and matches.
pub proof fn lemma_find_pair_range(s: Seq<char>, c0: char, c1: char)
    ensures
        match find_pair_spec(s, c0, c1) {
            Some(i) => 0 <= i && i + 1 < s.len() && s[i] == c0 && s[i + 1] == c1,
            None => true,
        },
    decreases s.len(),
{
    if s.len() < 2 {
    } else if s[0] == c0 && s[1] == c1 {
    } else {
        lemma_find_pair_range(s.drop_first(), c0, c1);
    }
}

/// A found triple index is in range and matches.
pub proof fn lemma_find_triple_range(s: Seq<char>, c0: char, c1: char, c2: char)
    ensures
        match find_triple_spec(s, c0, c1, c2) {
            Some(i) => 0 <= i && i + 2 < s.len() && s[i] == c0 && s[i + 1] == c1 && s[i + 2] == c2,
            None => true,
        },
    decreases s.len(),
{
    if s.len() < 3 {
    } else if s[0] == c0 && s[1] == c1 && s[2] == c2 {
    } else {
        lemma_find_triple_range(s.drop_first(), c0, c1, c2);
    }
}

/// How many whitespace characters the sequence starts with.
pub open spec fn ws_prefix_spec(s: Seq<char>) -> int
    decreases s.len(),
{
    if s.len() == 0 {
        0
    } else if !is_ws(s[0]) {
        0
    } else {
        1 + ws_prefix_spec(s.drop_first())
    }
}

/// How many whitespace characters the sequence ends with.
pub open spec fn ws_suffix_spec(s: Seq<char>) -> int
    decreases s.len(),
{
    if s.len() == 0 {
        0
    } else if !is_ws(s.last()) {
        0
    } else {
        1 + ws_suffix_spec(s.drop_last())
    }
}

/// The sequence with leading and trailing whitespace removed.
pub open spec fn trim_spec(s: Seq<char>) -> Seq<char> {
    let a = ws_prefix_spec(s);
    if a == s.len() {
        Seq::empty()
    } else {
        s.subrange(a, s.len() - ws_suffix_spec(s))
    }
}

/// The whitespace prefix is exactly the first run of whitespace.
proof fn lemma_ws_prefix_at(s: Seq<char>, i: int)
    requires
        0 <= i <= s.len(),
        forall|k: int| 0 <= k < i ==> is_ws(s[k]),
        i == s.len() || !is_ws(s[i]),
    ensures
        ws_prefix_spec(s) == i,
    decreases s.len(),
{
    if s.len() == 0 {
    } else if !is_ws(s[0]) {
        assert(i == 0);
    } else {
        assert(i >= 1);
        lemma_ws_prefix_at(s.drop_first(), i - 1);
    }
}

/// The whitespace suffix is exactly the final run of whitespace.
proof fn lemma_ws_suffix_at(s: Seq<char>, j: int)
    requires
        0 <= j <= s.len(),
        forall|k: int| j <= k < s.len() ==> is_ws(s[k]),
        j == 0 || !is_ws(s[j - 1]),
    ensures
        ws_suffix_spec(s) == s.len() - j,
    decreases s.len(),
{
    if s.len() == 0 {
    } else if !is_ws(s.last()) {
        assert(j == s.len());
    } else {
        assert(j < s.len());
        lemma_ws_suffix_at(s.drop_last(), j);
    }
}

/// Remove leading and trailing whitespace.
pub fn trim(s: &str) -> (r: &str)
    ensures
        r@ == trim_spec(s@),
{
    let n: usize = s.unicode_len();
    let mut a: usize = 0;
    while a < n && is_ws_exec(s.get_char(a))
        invariant
            a <= n,
            n == s@.len(),
            forall|k: int| 0 <= k < a ==> is_ws(s@[k]),
        decreases n - a,
    {
        a = a + 1;
    }
    proof {
        lemma_ws_prefix_at(s@, a as int);
    }
    if a == n {
        let r = s.substring_char(n, n);
        proof {
            assert(r@ =~= trim_spec(s@));
        }
        return r;
    }
    let mut b: usize = n;
    while b > 0 && is_ws_exec(s.get_char(b - 1))
        invariant
            b <= n,
            n == s@.len(),
            forall|k: int| b <= k < n ==> is_ws(s@[k]),
        decreases b,
    {
        b = b - 1;
    }
    proof {
        lemma_ws_suffix_at(s@, b as int);
        assert(!is_ws(s@[a as int]));
        assert(b > a);
    }
    let r = s.substring_char(a, b);
    proof {
        assert(r@ =~= trim_spec(s@));
    }
    r
}

/// The whitespace-separated tokens of the sequence, with `cur` the token
/// read so far.
pub open spec fn tokens_acc_spec(s: Seq<char>, cur: Seq<char>) -> Seq<Seq<char>>
    decreases s.len(),
{
    if s.len() == 0 {
        if cur.len() == 0 {
            Seq::empty()
        } else {
            seq![cur]
        }
    } else if is_ws(s[0]) {
        if cur.len() == 0 {
            tokens_acc_spec(s.drop_first(), Seq::empty())
        } else {
            seq![cur] + tokens_acc_spec(s.drop_first(), Seq::empty())
        }
    } else {
        tokens_acc_spec(s.drop_first(), cur.push(s[0]))
    }
}

/// The whitespace-separated tokens of the sequence.
pub open spec fn tokens_spec(s: Seq<char>) -> Seq<Seq<char>> {
    tokens_acc_spec(s, Seq::empty())
}

/// Split on whitespace, producing the tokens `tokens_spec` names.
pub fn split_ws(s: &str) -> (r: Vec<String>)
    ensures
        r@.map_values(|t: String| t@) == tokens_spec(s@),
{
    let n: usize = s.unicode_len();
    let mut out: Vec<String> = Vec::new();
    let mut start: usize = 0;
    let mut in_token: bool = false;
    proof {
        assert(s@.skip(0) =~= s@);
        assert(out@.map_values(|t: String| t@) + tokens_acc_spec(s@, Seq::<char>::empty())
            =~= tokens_acc_spec(s@, Seq::<char>::empty()));
    }
    for i in 0..n
        invariant
            n == s@.len(),
            in_token ==> start < i || (start == i && false),
            in_token ==> start < n && !is_ws(s@[start as int]),
            in_token ==> forall|k: int| start <= k < i ==> !is_ws(s@[k]),
            in_token ==> start <= i,
            tokens_spec(s@) == out@.map_values(|t: String| t@) + tokens_acc_spec(
                s@.skip(i as int),
                if in_token {
                    s@.subrange(start as int, i as int)
                } else {
                    Seq::<char>::empty()
                },
            ),
    {
        let ghost cur: Seq<char> = if in_token {
            s@.subrange(start as int, i as int)
        } else {
            Seq::<char>::empty()
        };
        proof {
            assert(s@.skip(i as int).drop_first() =~= s@.skip(i + 1));
            assert(s@.skip(i as int)[0] == s@[i as int]);
        }
        let c: char = s.get_char(i);
        if is_ws_exec(c) {
            if in_token {
                let tok = s.substring_char(start, i);
                let towned = tok.to_owned();
                out.push(towned);
                in_token = false;
                proof {
                    assert(out@.map_values(|t: String| t@) =~= out@.drop_last().map_values(
                        |t: String| t@,
                    ) + seq![cur]);
                    assert(out@.drop_last() =~= out@.subrange(0, out@.len() - 1));
                    assert(tokens_acc_spec(s@.skip(i as int), cur) =~= seq![cur]
                        + tokens_acc_spec(s@.skip(i + 1), Seq::<char>::empty()));
                    assert(out@.map_values(|t: String| t@) + tokens_acc_spec(
                        s@.skip(i + 1),
                        Seq::<char>::empty(),
                    ) =~= out@.drop_last().map_values(|t: String| t@) + tokens_acc_spec(
                        s@.skip(i as int),
                        cur,
                    ));
                }
            }
        } else {
            if !in_token {
                start = i;
                in_token = true;
                proof {
                    assert(s@.subrange(i as int, i + 1) =~= Seq::<char>::empty().push(s@[i as int]));
                }
            } else {
                proof {
                    assert(s@.subrange(start as int, i + 1) =~= cur.push(s@[i as int]));
                }
            }
        }
    }
    if in_token {
        let tok = s.substring_char(start, n);
        let towned = tok.to_owned();
        out.push(towned);
        proof {
            let ghost cur = s@.subrange(start as int, n as int);
            assert(s@.skip(n as int).len() == 0);
            assert(tokens_acc_spec(s@.skip(n as int), cur) =~= seq![cur]);
            assert(out@.map_values(|t: String| t@) =~= out@.drop_last().map_values(|t: String| t@)
                + seq![cur]);
            assert(out@.drop_last() =~= out@.subrange(0, out@.len() - 1));
        }
    } else {
        proof {
            assert(tokens_acc_spec(s@.skip(n as int), Seq::<char>::empty()) =~= Seq::<
                Seq<char>,
            >::empty());
        }
    }
    proof {
        assert(tokens_spec(s@) =~= out@.map_values(|t: String| t@));
    }
    out
}

} // verus!
