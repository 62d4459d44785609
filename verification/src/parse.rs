//! Pure command-line text handling: trimming surrounding whitespace,
//! splitting a line into `;`-separated commands, and whitespace-tokenizing
//! each command.

use vstd::prelude::*;

verus! {

/// ASCII whitespace as the console sees it.
pub open spec fn is_ws(b: u8) -> bool {
    b == 32 || b == 9 || b == 13 || b == 10
}

/// `s` without leading whitespace.
pub open spec fn trim_front_spec(s: Seq<u8>) -> Seq<u8>
    decreases s.len(),
{
    if s.len() > 0 && is_ws(s[0]) {
        trim_front_spec(s.skip(1))
    } else {
        s
    }
}

/// `s` without trailing whitespace.
pub open spec fn trim_back_spec(s: Seq<u8>) -> Seq<u8>
    decreases s.len(),
{
    if s.len() > 0 && is_ws(s.last()) {
        trim_back_spec(s.drop_last())
    } else {
        s
    }
}

/// `s` without surrounding whitespace.
pub open spec fn trim_spec(s: Seq<u8>) -> Seq<u8> {
    trim_back_spec(trim_front_spec(s))
}

/// Trimming the front never lengthens a byte string.
proof fn lemma_trim_front_len(s: Seq<u8>)
    ensures
        trim_front_spec(s).len() <= s.len(),
    decreases s.len(),
{
    if s.len() > 0 && is_ws(s[0]) {
        lemma_trim_front_len(s.skip(1));
    }
}

/// Trimming the back never lengthens a byte string.
proof fn lemma_trim_back_len(s: Seq<u8>)
    ensures
        trim_back_spec(s).len() <= s.len(),
    decreases s.len(),
{
    if s.len() > 0 && is_ws(s.last()) {
        lemma_trim_back_len(s.drop_last());
    }
}

/// Trimming never lengthens a byte string.
pub proof fn lemma_trim_spec_len(s: Seq<u8>)
    ensures
        trim_spec(s).len() <= s.len(),
{
    lemma_trim_front_len(s);
    lemma_trim_back_len(trim_front_spec(s));
}

/// A subrange whose prefix is all whitespace and that does not start in the
/// middle of it trims to the same bytes.
proof fn lemma_trim_front_range(s: Seq<u8>, i: int)
    requires
        0 <= i <= s.len(),
        forall|k: int| 0 <= k < i ==> is_ws(#[trigger] s[k]),
        i == s.len() || !is_ws(s[i]),
    ensures
        trim_front_spec(s) == s.subrange(i, s.len() as int),
    decreases i,
{
    if i == 0 {
        if s.len() == 0 || !is_ws(s[0]) {
            assert(s.subrange(0, s.len() as int) =~= s);
        }
    } else {
        assert(is_ws(s[0]));
        let t = s.skip(1);
        assert(forall|k: int| 0 <= k < i - 1 ==> is_ws(#[trigger] t[k]));
        lemma_trim_front_range(t, i - 1);
        assert(t.subrange(i - 1, t.len() as int) =~= s.subrange(i, s.len() as int));
    }
}

/// A subrange whose suffix is all whitespace and that does not end in the
/// middle of it trims to the same bytes.
proof fn lemma_trim_back_range(s: Seq<u8>, j: int)
    requires
        0 <= j <= s.len(),
        forall|k: int| j <= k < s.len() ==> is_ws(#[trigger] s[k]),
        j == 0 || !is_ws(s[j - 1]),
    ensures
        trim_back_spec(s) == s.subrange(0, j),
    decreases s.len() - j,
{
    if j == s.len() {
        if s.len() == 0 || !is_ws(s.last()) {
            assert(s.subrange(0, j) =~= s);
        }
    } else {
        assert(is_ws(s.last()));
        let t = s.drop_last();
        assert(forall|k: int| j <= k < t.len() ==> is_ws(#[trigger] t[k]));
        lemma_trim_back_range(t, j);
        assert(t.subrange(0, j) =~= s.subrange(0, j));
    }
}

/// Copy `s` without its surrounding ASCII whitespace.
pub fn trim(s: &Vec<u8>) -> (r: Vec<u8>)
    ensures
        r@ == trim_spec(s@),
{
    let mut start: usize = 0;
    while start < s.len() && (s[start] == 32 || s[start] == 9 || s[start] == 13 || s[start] == 10)
        invariant
            start <= s@.len(),
            forall|k: int| 0 <= k < start ==> is_ws(#[trigger] s@[k]),
        decreases s@.len() - start,
    {
        start += 1;
    }
    let mut end: usize = s.len();
    while end > start && (s[end - 1] == 32 || s[end - 1] == 9 || s[end - 1] == 13 || s[end - 1]
        == 10)
        invariant
            start <= end <= s@.len(),
            forall|k: int| 0 <= k < start ==> is_ws(#[trigger] s@[k]),
            forall|k: int| end <= k < s@.len() ==> is_ws(#[trigger] s@[k]),
        decreases end,
    {
        end -= 1;
    }
    let mut r: Vec<u8> = Vec::new();
    let mut i: usize = start;
    while i < end
        invariant
            start <= i <= end <= s@.len(),
            r@ == s@.subrange(start as int, i as int),
        decreases end - i,
    {
        r.push(s[i]);
        proof {
            assert(r@ =~= s@.subrange(start as int, i + 1));
        }
        i += 1;
    }
    proof {
        lemma_trim_front_range(s@, start as int);
        let t = s@.subrange(start as int, s@.len() as int);
        assert(forall|k: int|
            end - start <= k < t.len() ==> is_ws(#[trigger] t[k]) && t[k] == s@[k + start]);
        if end > start {
            assert(!is_ws(t[end - start - 1]));
        }
        lemma_trim_back_range(t, end - start);
        assert(t.subrange(0, end - start) =~= s@.subrange(start as int, end as int));
        assert(r@ =~= trim_spec(s@));
    }
    r
}

/// Position of the first byte satisfying "is the separator", or the length.
pub open spec fn first_at(s: Seq<u8>, sep: u8) -> int
    decreases s.len(),
{
    if s.len() == 0 {
        0
    } else if s[0] == sep {
        0
    } else {
        1 + first_at(s.skip(1), sep)
    }
}

/// `first_at` is the unique position with no separator before it and either
/// the end or a separator at it.
proof fn lemma_first_at(s: Seq<u8>, sep: u8, i: int)
    requires
        0 <= i <= s.len(),
        forall|k: int| 0 <= k < i ==> #[trigger] s[k] != sep,
        i == s.len() || s[i] == sep,
    ensures
        first_at(s, sep) == i,
    decreases i,
{
    if i > 0 {
        let t = s.skip(1);
        assert(forall|k: int| 0 <= k < i - 1 ==> #[trigger] t[k] != sep);
        lemma_first_at(t, sep, i - 1);
    }
}

/// The `sep`-separated pieces of `s`, in order; `n` pieces for `n - 1`
/// separators, pieces may be empty.
pub open spec fn split_spec(s: Seq<u8>, sep: u8) -> Seq<Seq<u8>>
    decreases s.len(),
    via split_spec_decreases
{
    let i = first_at(s, sep);
    if i == s.len() {
        seq![s]
    } else {
        seq![s.subrange(0, i)] + split_spec(s.skip(i + 1), sep)
    }
}

/// `first_at` never passes the end.
proof fn lemma_first_at_bound(s: Seq<u8>, sep: u8)
    ensures
        0 <= first_at(s, sep) <= s.len(),
    decreases s.len(),
{
    if s.len() > 0 && s[0] != sep {
        lemma_first_at_bound(s.skip(1), sep);
    }
}

#[via_fn]
proof fn split_spec_decreases(s: Seq<u8>, sep: u8) {
    lemma_first_at_bound(s, sep);
    if s.len() > 0 {
        lemma_first_at_bound(s.skip(1), sep);
    }
}

/// Split `s` on the separator byte.
pub fn split_on(s: &Vec<u8>, sep: u8) -> (r: Vec<Vec<u8>>)
    ensures
        r@.map_values(|v: Vec<u8>| v@) == split_spec(s@, sep),
{
    let mut r: Vec<Vec<u8>> = Vec::new();
    let mut piece: Vec<u8> = Vec::new();
    let mut i: usize = 0;
    let ghost whole = s@;
    proof {
        assert(s@.skip(0) =~= s@);
        assert(r@.map_values(|v: Vec<u8>| v@) =~= Seq::<Seq<u8>>::empty());
        assert(piece@ =~= s@.subrange(0, 0));
    }
    while i < s.len()
        invariant
            i <= s@.len(),
            piece@.len() <= i,
            piece@ == s@.subrange(i - piece@.len(), i as int),
            forall|k: int| i - piece@.len() <= k < i ==> #[trigger] s@[k] != sep,
            i == piece@.len() || s@[i - piece@.len() - 1] == sep,
            split_spec(whole, sep) == r@.map_values(|v: Vec<u8>| v@) + split_spec(
                s@.skip(i - piece@.len()),
                sep,
            ),
        decreases s@.len() - i,
    {
        let b = s[i];
        if b == sep {
            let ghost rpre = r@;
            let ghost rem = s@.skip(i - piece@.len());
            let done = piece;
            r.push(done);
            piece = Vec::new();
            proof {
                let pl = i - (s@.len() - rem.len());
                assert(forall|k: int| 0 <= k < rem.len() ==> rem[k] == s@[s@.len() - rem.len() + k]);
                assert(forall|k: int| 0 <= k < pl ==> #[trigger] rem[k] != sep);
                assert(rem[pl] == sep);
                lemma_first_at(rem, sep, pl);
                assert(rem.subrange(0, pl) =~= s@.subrange(s@.len() - rem.len(), i as int));
                assert(split_spec(rem, sep) == seq![rem.subrange(0, pl)] + split_spec(
                    rem.skip(pl + 1),
                    sep,
                ));
                assert(rem.skip(pl + 1) =~= s@.skip(i + 1));
                assert(r@.map_values(|v: Vec<u8>| v@) =~= rpre.map_values(|v: Vec<u8>| v@) + seq![
                    s@.subrange(s@.len() - rem.len(), i as int)]);
                assert(split_spec(whole, sep) == r@.map_values(|v: Vec<u8>| v@) + split_spec(
                    s@.skip(i + 1),
                    sep,
                ));
            }
            i += 1;
        } else {
            piece.push(b);
            proof {
                assert(piece@ =~= s@.subrange(i + 1 - piece@.len(), i + 1));
            }
            i += 1;
        }
    }
    proof {
        let rem = s@.skip(i - piece@.len());
        let pl = piece@.len() as int;
        assert(forall|k: int| 0 <= k < rem.len() ==> rem[k] == s@[s@.len() - rem.len() + k]);
        assert(forall|k: int| 0 <= k < pl ==> #[trigger] rem[k] != sep);
        lemma_first_at(rem, sep, pl);
        assert(split_spec(rem, sep) == seq![rem]);
        assert(piece@ =~= rem);
    }
    r.push(piece);
    proof {
        assert(r@.map_values(|v: Vec<u8>| v@) =~= split_spec(whole, sep));
    }
    r
}

/// Position of the first whitespace byte, or the length.
pub open spec fn first_ws(s: Seq<u8>) -> int
    decreases s.len(),
{
    if s.len() == 0 {
        0
    } else if is_ws(s[0]) {
        0
    } else {
        1 + first_ws(s.skip(1))
    }
}

/// `first_ws` never passes the end.
proof fn lemma_first_ws_bound(s: Seq<u8>)
    ensures
        0 <= first_ws(s) <= s.len(),
    decreases s.len(),
{
    if s.len() > 0 && !is_ws(s[0]) {
        lemma_first_ws_bound(s.skip(1));
    }
}

/// The whitespace-separated words of `s`, in order, each nonempty.
pub open spec fn tokenize_spec(s: Seq<u8>) -> Seq<Seq<u8>>
    decreases s.len(),
    via tokenize_spec_decreases
{
    if s.len() == 0 {
        Seq::<Seq<u8>>::empty()
    } else if is_ws(s[0]) {
        tokenize_spec(s.skip(1))
    } else {
        let i = first_ws(s);
        seq![s.subrange(0, i)] + tokenize_spec(s.skip(i))
    }
}

#[via_fn]
proof fn tokenize_spec_decreases(s: Seq<u8>) {
    lemma_first_ws_bound(s);
    if s.len() > 0 {
        lemma_first_ws_bound(s.skip(1));
    }
}

/// `first_ws` is the unique position with no whitespace before it and either
/// the end or whitespace at it.
proof fn lemma_first_ws(s: Seq<u8>, i: int)
    requires
        0 <= i <= s.len(),
        forall|k: int| 0 <= k < i ==> !is_ws(#[trigger] s[k]),
        i == s.len() || is_ws(s[i]),
    ensures
        first_ws(s) == i,
    decreases i,
{
    if i > 0 {
        let t = s.skip(1);
        assert(forall|k: int| 0 <= k < i - 1 ==> !is_ws(#[trigger] t[k]));
        lemma_first_ws(t, i - 1);
    }
}

/// Split `s` into its whitespace-separated words.
pub fn tokenize(s: &Vec<u8>) -> (r: Vec<Vec<u8>>)
    ensures
        r@.map_values(|v: Vec<u8>| v@) == tokenize_spec(s@),
{
    let mut r: Vec<Vec<u8>> = Vec::new();
    let mut i: usize = 0;
    let ghost whole = s@;
    proof {
        assert(s@.skip(0) =~= s@);
        assert(r@.map_values(|v: Vec<u8>| v@) =~= Seq::<Seq<u8>>::empty());
    }
    while i < s.len()
        invariant
            i <= s@.len(),
            tokenize_spec(whole) == r@.map_values(|v: Vec<u8>| v@) + tokenize_spec(
                s@.skip(i as int),
            ),
        decreases s@.len() - i,
    {
        let b = s[i];
        if b == 32 || b == 9 || b == 13 || b == 10 {
            proof {
                assert(s@.skip(i as int)[0] == s@[i as int]);
                assert(s@.skip(i as int).skip(1) =~= s@.skip(i + 1));
            }
            i += 1;
        } else {
            let start = i;
            let mut j = i + 1;
            while j < s.len() && !(s[j] == 32 || s[j] == 9 || s[j] == 13 || s[j] == 10)
                invariant
                    start < j <= s@.len(),
                    forall|k: int| start <= k < j ==> !is_ws(#[trigger] s@[k]),
                decreases s@.len() - j,
            {
                j += 1;
            }
            let mut word: Vec<u8> = Vec::new();
            let mut k = start;
            while k < j
                invariant
                    start <= k <= j <= s@.len(),
                    word@ == s@.subrange(start as int, k as int),
                decreases j - k,
            {
                word.push(s[k]);
                proof {
                    assert(word@ =~= s@.subrange(start as int, k + 1));
                }
                k += 1;
            }
            let ghost rpre = r@;
            r.push(word);
            proof {
                let rem = s@.skip(start as int);
                assert(forall|k: int| 0 <= k < rem.len() ==> rem[k] == s@[k + start]);
                assert(!is_ws(rem[0]));
                assert(forall|k: int| 0 <= k < j - start ==> !is_ws(#[trigger] rem[k]));
                lemma_first_ws(rem, j - start);
                assert(tokenize_spec(rem) == seq![rem.subrange(0, j - start)] + tokenize_spec(
                    rem.skip(j - start),
                ));
                assert(rem.subrange(0, j - start) =~= s@.subrange(start as int, j as int));
                assert(rem.skip(j - start) =~= s@.skip(j as int));
                assert(r@.map_values(|v: Vec<u8>| v@) =~= rpre.map_values(|v: Vec<u8>| v@) + seq![
                    s@.subrange(start as int, j as int)]);
            }
            i = j;
        }
    }
    proof {
        assert(s@.skip(i as int) =~= Seq::<u8>::empty());
        assert(r@.map_values(|v: Vec<u8>| v@) =~= tokenize_spec(whole));
    }
    r
}

} // verus!
