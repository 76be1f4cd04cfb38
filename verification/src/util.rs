use vstd::prelude::*;

use vstd::string::StrSliceExecFns;
use vstd::string::StringExecFns;

verus! {

/// The character views of a vector of strings.
pub open spec fn views_of(v: Seq<String>) -> Seq<Seq<char>> {
    v.map_values(|p: String| p@)
}

/// The whitespace characters that trimming strips.
pub open spec fn is_trim_char(c: char) -> bool {
    c == ' ' || c == '\t' || c == '\n' || c == '\r'
}

/// `s` without leading whitespace.
pub open spec fn trim_start_spec(s: Seq<char>) -> Seq<char>
    decreases s.len(),
{
    if s.len() == 0 {
        s
    } else if is_trim_char(s[0]) {
        trim_start_spec(s.drop_first())
    } else {
        s
    }
}

/// `s` without trailing whitespace.
pub open spec fn trim_end_spec(s: Seq<char>) -> Seq<char>
    decreases s.len(),
{
    if s.len() == 0 {
        s
    } else if is_trim_char(s[s.len() - 1]) {
        trim_end_spec(s.drop_last())
    } else {
        s
    }
}

/// `s` without leading or trailing whitespace.
pub open spec fn trim_spec(s: Seq<char>) -> Seq<char> {
    trim_end_spec(trim_start_spec(s))
}

/// Splitting `s` at every `sep`, with `cur` the piece read so far.
pub open spec fn split_acc(s: Seq<char>, sep: char, cur: Seq<char>) -> Seq<Seq<char>>
    decreases s.len(),
{
    if s.len() == 0 {
        seq![cur]
    } else if s[0] == sep {
        seq![cur] + split_acc(s.drop_first(), sep, seq![])
    } else {
        split_acc(s.drop_first(), sep, cur.push(s[0]))
    }
}

/// The pieces of `s` between occurrences of `sep`; one more piece than
/// there are separators, empty pieces kept.
pub open spec fn split_chars(s: Seq<char>, sep: char) -> Seq<Seq<char>> {
    split_acc(s, sep, seq![])
}

/// Case-insensitive match of a character against a lower-case letter.
pub open spec fn eq_icase(c: char, lower: char) -> bool {
    c == lower || (c as u32) + 32 == lower as u32
}

/// The position of the first `c` at or after `from`, or the length.
pub open spec fn find_from(s: Seq<char>, from: int, c: char) -> int
    decreases s.len() - from,
{
    if from < 0 || from >= s.len() {
        s.len() as int
    } else if s[from] == c {
        from
    } else {
        find_from(s, from + 1, c)
    }
}

/// Trimming never grows a sequence, and splitting the trim out of a range
/// leaves a subrange.
pub proof fn lemma_trim_start_bounds(s: Seq<char>, k: int)
    requires
        0 <= k <= s.len(),
        forall|i: int| 0 <= i < k ==> is_trim_char(s[i]),
        k < s.len() ==> !is_trim_char(s[k]),
    ensures
        trim_start_spec(s) =~= s.subrange(k, s.len() as int),
    decreases k,
{
    if k == 0 {
        if s.len() == 0 {
        } else {
            assert(trim_start_spec(s) == s);
            assert(s =~= s.subrange(0, s.len() as int));
        }
    } else {
        assert(is_trim_char(s[0]));
        let t = s.drop_first();
        assert(forall|i: int| 0 <= i < k - 1 ==> is_trim_char(#[trigger] t[i]));
        lemma_trim_start_bounds(t, k - 1);
        assert(t.subrange(k - 1, t.len() as int) =~= s.subrange(k, s.len() as int));
    }
}

/// The mirror image for trailing whitespace.
pub proof fn lemma_trim_end_bounds(s: Seq<char>, k: int)
    requires
        0 <= k <= s.len(),
        forall|i: int| k <= i < s.len() ==> is_trim_char(s[i]),
        k > 0 ==> !is_trim_char(s[k - 1]),
    ensures
        trim_end_spec(s) =~= s.subrange(0, k),
    decreases s.len() - k,
{
    if k == s.len() {
        if s.len() == 0 {
        } else {
            assert(!is_trim_char(s[s.len() - 1]));
            assert(trim_end_spec(s) == s);
            assert(s =~= s.subrange(0, s.len() as int));
        }
    } else {
        assert(is_trim_char(s[s.len() - 1]));
        let t = s.drop_last();
        assert(forall|i: int| k <= i < t.len() ==> is_trim_char(#[trigger] t[i]));
        lemma_trim_end_bounds(t, k);
        assert(t.subrange(0, k) =~= s.subrange(0, k));
    }
}

/// The trimmed copy of a string slice.
pub fn trim_str(s: &str) -> (r: String)
    ensures
        r@ == trim_spec(s@),
{
    let n = s.unicode_len();
    let mut lo: usize = 0;
    while lo < n && is_trim_char_exec(s.get_char(lo))
        invariant
            n == s@.len(),
            lo <= n,
            forall|i: int| 0 <= i < lo ==> is_trim_char(s@[i]),
        decreases n - lo,
    {
        lo = lo + 1;
    }
    proof {
        lemma_trim_start_bounds(s@, lo as int);
    }
    let mut hi: usize = n;
    while hi > lo && is_trim_char_exec(s.get_char(hi - 1))
        invariant
            n == s@.len(),
            lo <= hi <= n,
            forall|i: int| 0 <= i < lo ==> is_trim_char(s@[i]),
            lo < s@.len() ==> !is_trim_char(s@[lo as int]),
            forall|i: int| hi <= i < n ==> is_trim_char(s@[i]),
        decreases hi,
    {
        hi = hi - 1;
    }
    let piece = s.substring_char(lo, hi);
    proof {
        let t = trim_start_spec(s@);
        assert(t == s@.subrange(lo as int, n as int));
        assert(forall|i: int|
            hi - lo <= i < t.len() ==> is_trim_char(#[trigger] t[i]) && t[i] == s@[i + lo]);
        if hi > lo {
            assert(!is_trim_char(s@[hi - 1]));
            assert(t[hi - lo - 1] == s@[hi - 1]);
        }
        lemma_trim_end_bounds(t, hi - lo);
        assert(trim_spec(s@) =~= s@.subrange(lo as int, hi as int));
    }
    piece.to_owned()
}

/// Executable form of `is_trim_char`.
pub fn is_trim_char_exec(c: char) -> (r: bool)
    ensures
        r == is_trim_char(c),
{
    c == ' ' || c == '\t' || c == '\n' || c == '\r'
}

/// Executable form of `eq_icase`.
pub fn eq_icase_exec(c: char, lower: char) -> (r: bool)
    ensures
        r == eq_icase(c, lower),
{
    c == lower || (c as u32) + 32 == (lower as u32)
}

/// Split `s` at every occurrence of `sep`, keeping empty pieces.
pub fn split_str(s: &str, sep: char) -> (r: Vec<String>)
    ensures
        r@.map_values(|p: String| p@) == split_chars(s@, sep),
{
    let n = s.unicode_len();
    let mut parts: Vec<String> = Vec::new();
    let mut start: usize = 0;
    let mut i: usize = 0;
    proof {
        assert(s@.skip(0) =~= s@);
        assert(s@.subrange(0, 0) =~= Seq::<char>::empty());
        assert(parts@.map_values(|p: String| p@) + split_acc(s@, sep, Seq::<char>::empty())
            =~= split_chars(s@, sep));
    }
    while i < n
        invariant
            n == s@.len(),
            start <= i <= n,
            split_chars(s@, sep) == parts@.map_values(|p: String| p@) + split_acc(
                s@.skip(i as int),
                sep,
                s@.subrange(start as int, i as int),
            ),
        decreases n - i,
    {
        let ghost prev_parts = parts@;
        let c = s.get_char(i);
        if c == sep {
            let piece = s.substring_char(start, i);
            parts.push(piece.to_owned());
            proof {
                assert(s@.skip(i as int)[0] == sep);
                assert(s@.skip(i as int).drop_first() =~= s@.skip(i + 1));
                assert(split_acc(s@.skip(i as int), sep, s@.subrange(start as int, i as int))
                    == seq![s@.subrange(start as int, i as int)] + split_acc(
                    s@.skip(i + 1),
                    sep,
                    seq![],
                ));
                assert(Seq::<char>::empty() =~= s@.subrange(i + 1, i + 1));
                assert(parts@.map_values(|p: String| p@) =~= prev_parts.map_values(
                    |p: String| p@,
                ).push(s@.subrange(start as int, i as int)));
                assert(prev_parts.map_values(|p: String| p@) + split_acc(
                    s@.skip(i as int),
                    sep,
                    s@.subrange(start as int, i as int),
                ) =~= parts@.map_values(|p: String| p@) + split_acc(s@.skip(i + 1), sep, seq![]));
            }
            start = i + 1;
        } else {
            proof {
                assert(s@.skip(i as int)[0] == s@[i as int]);
                assert(s@.skip(i as int).drop_first() =~= s@.skip(i + 1));
                assert(s@.subrange(start as int, i as int).push(s@[i as int]) =~= s@.subrange(
                    start as int,
                    i + 1,
                ));
            }
        }
        i = i + 1;
    }
    let piece = s.substring_char(start, n);
    parts.push(piece.to_owned());
    proof {
        let ghost all = parts@;
        assert(split_acc(s@.skip(n as int), sep, s@.subrange(start as int, n as int))
            == seq![s@.subrange(start as int, n as int)]);
        assert(parts@.map_values(|p: String| p@) =~= split_chars(s@, sep));
    }
    parts
}

/// String-slice equality, stated over the character views.
pub fn str_eq(a: &str, b: &str) -> (r: bool)
    ensures
        r == (a@ == b@),
{
    let owned_a: String = a.to_owned();
    let owned_b: String = b.to_owned();
    owned_a == owned_b
}

/// The first `n` bytes of `v`, as an owned vector.
pub fn bytes_prefix(v: &Vec<u8>, n: usize) -> (r: Vec<u8>)
    requires
        n <= v@.len(),
    ensures
        r@ == v@.subrange(0, n as int),
{
    let mut out: Vec<u8> = Vec::new();
    let mut i: usize = 0;
    while i < n
        invariant
            i <= n <= v@.len(),
            out@ == v@.subrange(0, i as int),
        decreases n - i,
    {
        out.push(v[i]);
        i = i + 1;
        proof {
            assert(out@ =~= v@.subrange(0, i as int));
        }
    }
    out
}

} // verus!
