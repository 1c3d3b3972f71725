//! Byte-slice searching and splitting: the primitives behind every decoder in
//! this crate. A response datagram is cut into tokens at delimiter bytes
//! (`0x00` for the query protocol, `b';'` for RakNet pong payloads), and the
//! Full-Stat player section is located by searching for a fixed marker.

use vstd::prelude::*;

verus! {

/// Whether `needle` occurs in `hay` starting at index `i`.
pub open spec fn matches_at(hay: Seq<u8>, needle: Seq<u8>, i: int) -> bool {
    &&& 0 <= i
    &&& i + needle.len() <= hay.len()
    &&& hay.subrange(i, i + needle.len() as int) == needle
}

/// The index of the first occurrence of `needle` in `hay`, if any.
pub open spec fn find_sub(hay: Seq<u8>, needle: Seq<u8>) -> Option<int>
    decreases hay.len(),
{
    if needle.len() > hay.len() {
        None
    } else if hay.subrange(0, needle.len() as int) == needle {
        Some(0)
    } else if hay.len() == 0 {
        None
    } else {
        match find_sub(hay.skip(1), needle) {
            None => None,
            Some(i) => Some(i + 1),
        }
    }
}

/// `find_sub` returns the first index at which `needle` occurs, and `None`
/// exactly when it occurs nowhere.
pub proof fn lemma_find_sub(hay: Seq<u8>, needle: Seq<u8>)
    ensures
        match find_sub(hay, needle) {
            Some(i) => matches_at(hay, needle, i) && forall|j: int|
                0 <= j < i ==> !matches_at(hay, needle, j),
            None => forall|j: int| !matches_at(hay, needle, j),
        },
    decreases hay.len(),
{
    if needle.len() > hay.len() {
        assert(forall|j: int| !matches_at(hay, needle, j));
    } else if hay.subrange(0, needle.len() as int) == needle {
        assert(matches_at(hay, needle, 0));
    } else if hay.len() == 0 {
        assert(forall|j: int| !matches_at(hay, needle, j));
    } else {
        lemma_find_sub(hay.skip(1), needle);
        assert forall|j: int| 1 <= j implies (matches_at(hay, needle, j) <==> matches_at(
            hay.skip(1),
            needle,
            j - 1,
        )) by {
            if j - 1 + needle.len() <= hay.skip(1).len() {
                assert(hay.skip(1).subrange(j - 1, j - 1 + needle.len() as int) =~= hay.subrange(
                    j,
                    j + needle.len() as int,
                ));
            }
        }
        assert(!matches_at(hay, needle, 0));
        match find_sub(hay.skip(1), needle) {
            None => {
                assert forall|j: int| !matches_at(hay, needle, j) by {
                    if j >= 1 {
                        assert(!matches_at(hay.skip(1), needle, j - 1));
                    }
                }
            },
            Some(i) => {
                assert(matches_at(hay.skip(1), needle, i));
                assert(matches_at(hay, needle, i + 1));
                assert forall|j: int| 0 <= j < i + 1 implies !matches_at(hay, needle, j) by {
                    if j >= 1 {
                        assert(!matches_at(hay.skip(1), needle, j - 1));
                    }
                }
            },
        }
    }
}

/// Whether `needle` occurs in `buf` starting at index `i`, comparing byte by
/// byte.
fn starts_with_at(buf: &[u8], needle: &[u8], i: usize) -> (r: bool)
    requires
        i + needle@.len() <= buf@.len(),
    ensures
        r == matches_at(buf@, needle@, i as int),
{
    let n = needle.len();
    let blen = buf.len();
    let mut k: usize = 0;
    while k < n
        invariant
            n == needle@.len(),
            blen == buf@.len(),
            i + n <= blen,
            k <= n,
            forall|m: int| 0 <= m < k ==> buf@[i + m] == needle@[m],
        decreases n - k,
    {
        if buf[i + k] != needle[k] {
            assert(buf@.subrange(i as int, i + needle@.len() as int)[k as int] == buf@[i + k]);
            return false;
        }
        k += 1;
    }
    assert(buf@.subrange(i as int, i + needle@.len() as int) =~= needle@);
    true
}

/// The index of the first occurrence of `needle` in `buf`, or `None` when
/// `needle` occurs nowhere in `buf`.
pub fn slice_index(buf: &[u8], needle: &[u8]) -> (r: Option<usize>)
    ensures
        r matches Some(i) ==> find_sub(buf@, needle@) == Some(i as int),
        r is None ==> find_sub(buf@, needle@) is None,
        r matches Some(i) ==> matches_at(buf@, needle@, i as int) && forall|j: int|
            0 <= j < i ==> !matches_at(buf@, needle@, j),
        r is None ==> forall|j: int| !matches_at(buf@, needle@, j),
{
    proof {
        lemma_find_sub(buf@, needle@);
    }
    if needle.len() > buf.len() {
        return None;
    }
    if needle.len() == 0 {
        assert(buf@.subrange(0, 0) =~= needle@);
        assert(matches_at(buf@, needle@, 0));
        return Some(0);
    }
    let blen = buf.len();
    let bound = blen - needle.len();
    let mut i: usize = 0;
    while i <= bound
        invariant
            1 <= needle@.len() <= buf@.len(),
            blen == buf@.len(),
            bound == buf@.len() - needle@.len(),
            i <= bound + 1,
            forall|j: int| 0 <= j < i ==> !matches_at(buf@, needle@, j),
        decreases bound + 1 - i,
    {
        if starts_with_at(buf, needle, i) {
            proof {
                lemma_find_sub(buf@, needle@);
                if let Some(f) = find_sub(buf@, needle@) {
                    assert(f == i as int) by {
                        if f < i {
                            assert(!matches_at(buf@, needle@, f));
                        }
                        if f > i {
                            assert(!matches_at(buf@, needle@, i as int));
                        }
                    }
                } else {
                    assert(!matches_at(buf@, needle@, i as int));
                }
            }
            return Some(i);
        }
        i += 1;
    }
    proof {
        lemma_find_sub(buf@, needle@);
        assert forall|j: int| !matches_at(buf@, needle@, j) by {
            if 0 <= j <= bound {
                assert(!matches_at(buf@, needle@, j));
            } else {
                assert(!matches_at(buf@, needle@, j));
            }
        }
        if let Some(f) = find_sub(buf@, needle@) {
            assert(matches_at(buf@, needle@, f));
        }
    }
    None
}

/// The index of the first `d` in `s`, if any.
pub open spec fn find_byte(s: Seq<u8>, d: u8) -> Option<int>
    decreases s.len(),
{
    if s.len() == 0 {
        None
    } else if s[0] == d {
        Some(0)
    } else {
        match find_byte(s.skip(1), d) {
            None => None,
            Some(i) => Some(i + 1),
        }
    }
}

/// `find_byte` returns the first index holding `d`, and `None` exactly when
/// `d` occurs nowhere.
pub proof fn lemma_find_byte(s: Seq<u8>, d: u8)
    ensures
        match find_byte(s, d) {
            Some(i) => 0 <= i < s.len() && s[i] == d && forall|j: int| 0 <= j < i ==> s[j] != d,
            None => forall|j: int| 0 <= j < s.len() ==> s[j] != d,
        },
    decreases s.len(),
{
    if s.len() == 0 {
    } else if s[0] == d {
    } else {
        lemma_find_byte(s.skip(1), d);
        assert(forall|j: int| 1 <= j < s.len() ==> s[j] == s.skip(1)[j - 1]);
        match find_byte(s.skip(1), d) {
            None => {
                assert forall|j: int| 0 <= j < s.len() implies s[j] != d by {
                    if j >= 1 {
                        assert(s.skip(1)[j - 1] != d);
                    }
                }
            },
            Some(i) => {
                assert(s[i + 1] == s.skip(1)[i]);
                assert forall|j: int| 0 <= j < i + 1 implies s[j] != d by {
                    if j >= 1 {
                        assert(s.skip(1)[j - 1] != d);
                    }
                }
            },
        }
    }
}

/// When `s[k]` is the first occurrence of `d`, `find_byte` returns exactly `k`.
pub proof fn lemma_find_byte_exact(s: Seq<u8>, d: u8, k: int)
    requires
        0 <= k < s.len(),
        s[k] == d,
        forall|j: int| 0 <= j < k ==> s[j] != d,
    ensures
        find_byte(s, d) == Some(k),
{
    lemma_find_byte(s, d);
    match find_byte(s, d) {
        Some(i) => {
            if i < k {
                assert(s[i] != d);
            }
            if i > k {
                assert(s[k] != d);
            }
        },
        None => {
            assert(s[k] != d);
        },
    }
}

/// The tokens of `s` between occurrences of the delimiter `d`: splitting an
/// empty sequence gives one empty token, and every delimiter ends the token
/// before it, so `n` delimiters give `n + 1` tokens.
pub open spec fn split_on(s: Seq<u8>, d: u8) -> Seq<Seq<u8>>
    decreases s.len(),
    via split_on_decreases
{
    match find_byte(s, d) {
        None => seq![s],
        Some(i) => seq![s.subrange(0, i)] + split_on(s.skip(i + 1), d),
    }
}

#[via_fn]
proof fn split_on_decreases(s: Seq<u8>, d: u8) {
    lemma_find_byte(s, d);
}

/// Splitting never yields an empty token list.
pub proof fn lemma_split_on_len(s: Seq<u8>, d: u8)
    ensures
        split_on(s, d).len() >= 1,
    decreases s.len(),
{
    lemma_find_byte(s, d);
    match find_byte(s, d) {
        None => {},
        Some(i) => lemma_split_on_len(s.skip(i + 1), d),
    }
}

/// The first index holding `d` at or after `from`, or `None` when no such
/// index exists; phrased over `find_byte` of the tail starting at `from`.
pub fn find_byte_from(s: &[u8], d: u8, from: usize) -> (r: Option<usize>)
    requires
        from <= s@.len(),
    ensures
        match find_byte(s@.skip(from as int), d) {
            Some(i) => r == Some((from + i) as usize),
            None => r is None,
        },
{
    let n = s.len();
    let mut i: usize = from;
    while i < n
        invariant
            from <= i <= n,
            n == s@.len(),
            forall|j: int| from <= j < i ==> s@[j] != d,
        decreases n - i,
    {
        if s[i] == d {
            proof {
                let t = s@.skip(from as int);
                lemma_find_byte(t, d);
                let k = find_byte(t, d);
                assert(t[i - from] == d);
                match k {
                    Some(f) => {
                        assert(t[f] == d);
                        if f < i - from {
                            assert(s@[from + f] != d);
                            assert(t[f] == s@[from + f]);
                        }
                        if f > i - from {
                            assert(t[i - from] != d);
                        }
                    },
                    None => {
                        assert(t[i - from] != d);
                    },
                }
            }
            return Some(i);
        }
        i += 1;
    }
    proof {
        let t = s@.skip(from as int);
        lemma_find_byte(t, d);
        if let Some(f) = find_byte(t, d) {
            assert(t[f] == s@[from + f]);
            assert(s@[from + f] != d);
        }
    }
    None
}

/// Whether two byte slices hold the same bytes.
pub fn bytes_eq(a: &[u8], b: &[u8]) -> (r: bool)
    ensures
        r == (a@ == b@),
{
    let n = a.len();
    if n != b.len() {
        return false;
    }
    let mut i: usize = 0;
    while i < n
        invariant
            n == a@.len() == b@.len(),
            i <= n,
            forall|j: int| 0 <= j < i ==> a@[j] == b@[j],
        decreases n - i,
    {
        if a[i] != b[i] {
            return false;
        }
        i += 1;
    }
    assert(a@ =~= b@);
    true
}

/// Copies `s[i..j]` into a fresh vector.
pub fn copy_range(s: &[u8], i: usize, j: usize) -> (r: Vec<u8>)
    requires
        i <= j <= s@.len(),
    ensures
        r@ == s@.subrange(i as int, j as int),
{
    let sub = vstd::slice::slice_subrange(s, i, j);
    vstd::slice::slice_to_vec(sub)
}

/// The views of the byte vectors in `v`, in order.
pub open spec fn views_of(v: Seq<Vec<u8>>) -> Seq<Seq<u8>> {
    v.map_values(|t: Vec<u8>| t@)
}

/// Splits `s[from..]` into the tokens between occurrences of the delimiter
/// `d`, exactly as `split_on` describes.
pub fn split_bytes_from(s: &[u8], d: u8, from: usize) -> (r: Vec<Vec<u8>>)
    requires
        from <= s@.len(),
    ensures
        views_of(r@) == split_on(s@.skip(from as int), d),
{
    let n = s.len();
    let mut r: Vec<Vec<u8>> = Vec::new();
    let mut pos: usize = from;
    loop
        invariant
            n == s@.len(),
            from <= pos <= s@.len(),
            split_on(s@.skip(from as int), d) =~= views_of(r@) + split_on(s@.skip(pos as int), d),
        decreases s@.len() - pos + 1,
    {
        let ghost tail = s@.skip(pos as int);
        proof {
            lemma_find_byte(tail, d);
        }
        match find_byte_from(s, d, pos) {
            Some(i) => {
                let token = copy_range(s, pos, i);
                proof {
                    let fi = (i - pos) as int;
                    assert(find_byte(tail, d) == Some(fi));
                    assert(tail.subrange(0, fi) =~= s@.subrange(pos as int, i as int));
                    assert(tail.skip(fi + 1) =~= s@.skip(i + 1));
                    assert(split_on(tail, d) == seq![token@] + split_on(s@.skip(i + 1), d));
                    assert(views_of(r@.push(token)) =~= views_of(r@).push(token@));
                }
                r.push(token);
                pos = i + 1;
                proof {
                    assert(split_on(s@.skip(from as int), d) =~= views_of(r@) + split_on(
                        s@.skip(pos as int),
                        d,
                    ));
                }
            },
            None => {
                let token = copy_range(s, pos, s.len());
                proof {
                    assert(find_byte(tail, d) is None);
                    assert(tail =~= s@.subrange(pos as int, s@.len() as int));
                    assert(split_on(tail, d) == seq![tail]);
                    assert(views_of(r@.push(token)) =~= views_of(r@).push(token@));
                }
                r.push(token);
                proof {
                    assert(split_on(s@.skip(from as int), d) =~= views_of(r@));
                }
                return r;
            },
        }
    }
}

} // verus!
