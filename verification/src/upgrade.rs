//! Which protocol upgrade an HTTP message asks for.
use vstd::prelude::*;
use vstd::slice::slice_to_vec;

verus! {

/// Bytes `http::HeaderValue::to_str` accepts: visible ASCII and tab.
pub open spec fn visible_ascii(bs: Seq<u8>) -> bool {
    forall|i: int| 0 <= i < bs.len() ==> ((32 <= #[trigger] bs[i] && bs[i] < 127) || bs[i] == 9)
}

/// The whitespace `str::trim` removes from visible ASCII: space and tab.
pub open spec fn is_ws(b: u8) -> bool {
    b == 32 || b == 9
}

/// ASCII lowercase.
pub open spec fn lower(b: u8) -> u8 {
    if 65 <= b <= 90 { (b + 32) as u8 } else { b }
}

/// The bytes of "upgrade".
pub open spec fn upgrade_word() -> Seq<u8> {
    seq![117u8, 112u8, 103u8, 114u8, 97u8, 100u8, 101u8]
}

/// "upgrade", in any case, stands at `a` in `seg` with only whitespace around it.
pub open spec fn upgrade_at(seg: Seq<u8>, a: int) -> bool {
    &&& 0 <= a && a + 7 <= seg.len()
    &&& forall|i: int| 0 <= i < a ==> is_ws(#[trigger] seg[i])
    &&& forall|i: int| a + 7 <= i < seg.len() ==> is_ws(#[trigger] seg[i])
    &&& forall|i: int| 0 <= i < 7 ==> lower(#[trigger] seg.subrange(a, a + 7)[i]) == upgrade_word()[i]
}

/// A segment that, once trimmed, is "upgrade" in any case.
pub open spec fn trims_to_upgrade(seg: Seq<u8>) -> bool {
    exists|a: int| upgrade_at(seg, a)
}

/// `s[i..j)` is one of the pieces that splitting `s` at its commas gives.
pub open spec fn is_segment(s: Seq<u8>, i: int, j: int) -> bool {
    &&& 0 <= i <= j <= s.len()
    &&& i == 0 || s[i - 1] == 44
    &&& j == s.len() || s[j] == 44
    &&& forall|k: int| i <= k < j ==> s[k] != 44
}

/// One of the comma-separated segments of `s` trims to "upgrade".
pub open spec fn has_upgrade_segment(s: Seq<u8>) -> bool {
    exists|i: int, j: int| is_segment(s, i, j) && trims_to_upgrade(#[trigger] s.subrange(i, j))
}

/// The bytes a header value holds, where there is one.
pub open spec fn bytes_opt(o: Option<&[u8]>) -> Option<Seq<u8>> {
    match o {
        Some(b) => Some(b@),
        None => None,
    }
}

/// The upgrade a message asks for: the value of its `Upgrade` header, when
/// its `Connection` header lists "upgrade" and that value is visible ASCII.
pub open spec fn upgrade_type(connection: Option<Seq<u8>>, upgrade: Option<Seq<u8>>) -> Option<Seq<u8>> {
    let listed = match connection {
        Some(c) => visible_ascii(c) && has_upgrade_segment(c),
        None => false,
    };
    if listed {
        match upgrade {
            Some(u) => if visible_ascii(u) { Some(u) } else { None },
            None => None,
        }
    } else {
        None
    }
}

fn is_visible_ascii(bs: &[u8]) -> (r: bool)
    ensures
        r == visible_ascii(bs@),
{
    let mut i: usize = 0;
    while i < bs.len()
        invariant
            i <= bs@.len(),
            forall|k: int| 0 <= k < i ==> ((32 <= #[trigger] bs@[k] && bs@[k] < 127) || bs@[k] == 9),
        decreases bs.len() - i,
    {
        let b = bs[i];
        if !((32 <= b && b < 127) || b == 9) {
            return false;
        }
        i = i + 1;
    }
    true
}

/// Where the whitespace around a segment ends, "upgrade" can only stand there.
proof fn lemma_trimmed_bounds(seg: Seq<u8>, a: int, b: int)
    requires
        0 <= a <= b <= seg.len(),
        forall|i: int| 0 <= i < a ==> is_ws(#[trigger] seg[i]),
        forall|i: int| b <= i < seg.len() ==> is_ws(#[trigger] seg[i]),
        a < b ==> !is_ws(seg[a]) && !is_ws(seg[b - 1]),
    ensures
        trims_to_upgrade(seg) <==> (b - a == 7 && forall|i: int| 0 <= i < 7 ==> lower(#[trigger] seg[a + i]) == upgrade_word()[i]),
{
    let w = upgrade_word();
    if b - a == 7 && forall|i: int| 0 <= i < 7 ==> lower(#[trigger] seg[a + i]) == w[i] {
        assert forall|i: int| 0 <= i < 7 implies lower(#[trigger] seg.subrange(a, a + 7)[i]) == w[i] by {
            assert(seg.subrange(a, a + 7)[i] == seg[a + i]);
        }
        assert(upgrade_at(seg, a));
    }
    if trims_to_upgrade(seg) {
        let x = choose|x: int| upgrade_at(seg, x);
        let sub = seg.subrange(x, x + 7);
        assert(lower(sub[0]) == w[0]);
        assert(lower(sub[6]) == w[6]);
        assert(sub[0] == seg[x]);
        assert(sub[6] == seg[x + 6]);
        assert(!is_ws(seg[x]));
        assert(!is_ws(seg[x + 6]));
        if x < a {
            assert(is_ws(seg[x]));
        }
        assert(a < b) by {
            if a == b {
                if x < a {
                    assert(is_ws(seg[x]));
                } else {
                    assert(is_ws(seg[x]));
                }
            }
        }
        if x > a {
            assert(is_ws(seg[a]));
        }
        assert(x == a);
        if b > x + 7 {
            assert(is_ws(seg[b - 1]));
        }
        if b < x + 7 {
            assert(is_ws(seg[x + 6]));
        }
        assert(b == x + 7);
        assert forall|i: int| 0 <= i < 7 implies lower(#[trigger] seg[a + i]) == w[i] by {
            assert(sub[i] == seg[a + i]);
            assert(lower(sub[i]) == w[i]);
        }
    }
}

/// Whether the segment `s[p..q)` trims to "upgrade".
fn segment_is_upgrade(s: &[u8], p: usize, q: usize) -> (r: bool)
    requires
        p <= q <= s@.len(),
    ensures
        r == trims_to_upgrade(s@.subrange(p as int, q as int)),
{
    let ghost seg = s@.subrange(p as int, q as int);
    let mut a = p;
    while a < q && (s[a] == 32 || s[a] == 9)
        invariant
            p <= a <= q,
            q <= s@.len(),
            forall|i: int| p <= i < a ==> is_ws(s@[i]),
        decreases q - a,
    {
        a = a + 1;
    }
    let mut b = q;
    while b > a && (s[b - 1] == 32 || s[b - 1] == 9)
        invariant
            p <= a <= b <= q,
            q <= s@.len(),
            a < q ==> !is_ws(s@[a as int]),
            forall|i: int| b <= i < q ==> is_ws(s@[i]),
        decreases b - a,
    {
        b = b - 1;
    }
    proof {
        assert forall|i: int| 0 <= i < a - p implies is_ws(#[trigger] seg[i]) by {
            assert(seg[i] == s@[p + i]);
        }
        assert forall|i: int| b - p <= i < seg.len() implies is_ws(#[trigger] seg[i]) by {
            assert(seg[i] == s@[p + i]);
        }
        if a < b {
            assert(seg[a - p] == s@[a as int]);
            assert(seg[b - 1 - p] == s@[b - 1]);
        }
        lemma_trimmed_bounds(seg, a - p, b - p);
    }
    if b - a != 7 {
        return false;
    }
    let word: [u8; 7] = [117u8, 112u8, 103u8, 114u8, 97u8, 100u8, 101u8];
    let ghost w = upgrade_word();
    assert(word@ =~= w);
    let mut k: usize = 0;
    while k < 7
        invariant
            k <= 7,
            p <= a,
            b == a + 7,
            b <= q <= s@.len(),
            seg == s@.subrange(p as int, q as int),
            word@ == w,
            forall|i: int| 0 <= i < k ==> lower(#[trigger] seg[a - p + i]) == w[i],
            trims_to_upgrade(seg) <==> forall|i: int| 0 <= i < 7 ==> lower(#[trigger] seg[a - p + i]) == w[i],
        decreases 7 - k,
    {
        let c = s[a + k];
        assert(seg[a - p + k] == c);
        let l = if 65 <= c && c <= 90 { c + 32 } else { c };
        if l != word[k] {
            assert(lower(seg[a - p + k]) != w[k as int]);
            return false;
        }
        k = k + 1;
    }
    true
}

/// A piece that ends no later than the comma (or the end) at `j`, and no
/// earlier than `start`, is the piece `s[start..j)`.
proof fn lemma_segment_here(s: Seq<u8>, start: int, j: int, i2: int, j2: int)
    requires
        0 <= start <= j <= s.len(),
        start == 0 || s[start - 1] == 44,
        forall|k: int| start <= k < j ==> s[k] != 44,
        j == s.len() || s[j] == 44,
        is_segment(s, i2, j2),
        start <= j2 <= j,
    ensures
        i2 == start,
        j2 == j,
{
    if j2 < j {
        assert(s[j2] == 44);
    }
    if i2 < start {
        assert(s[start - 1] == 44);
    }
    if i2 > start {
        assert(s[i2 - 1] == 44);
    }
}

/// Whether splitting `s` at its commas gives a piece that trims to "upgrade".
fn lists_upgrade(s: &[u8]) -> (r: bool)
    ensures
        r == has_upgrade_segment(s@),
{
    let len = s.len();
    let mut start: usize = 0;
    let mut j: usize = 0;
    loop
        invariant
            start <= j <= len,
            len == s@.len(),
            start == 0 || s@[start - 1] == 44,
            forall|k: int| start <= k < j ==> s@[k] != 44,
            forall|i2: int, j2: int| is_segment(s@, i2, j2) && j2 < start ==> !trims_to_upgrade(#[trigger] s@.subrange(i2, j2)),
        decreases len - j,
    {
        if j == len || s[j] == 44 {
            if segment_is_upgrade(s, start, j) {
                assert(is_segment(s@, start as int, j as int));
                return true;
            }
            proof {
                assert forall|i2: int, j2: int| is_segment(s@, i2, j2) && j2 < j + 1 implies !trims_to_upgrade(#[trigger] s@.subrange(i2, j2)) by {
                    if j2 >= start {
                        lemma_segment_here(s@, start as int, j as int, i2, j2);
                    }
                }
            }
            if j == len {
                return false;
            }
            start = j + 1;
        }
        j = j + 1;
    }
}

/// Reads `Connection` and `Upgrade` header values, as bytes, and returns the
/// protocol that the message asks to switch to, if any.
pub fn get_upgrade_type(connection: Option<&[u8]>, upgrade: Option<&[u8]>) -> (r: Option<Vec<u8>>)
    ensures
        match r {
            Some(v) => upgrade_type(bytes_opt(connection), bytes_opt(upgrade)) == Some(v@),
            None => upgrade_type(bytes_opt(connection), bytes_opt(upgrade)) is None,
        },
{
    let listed = match connection {
        Some(c) => is_visible_ascii(c) && lists_upgrade(c),
        None => false,
    };
    if !listed {
        return None;
    }
    match upgrade {
        Some(u) => if is_visible_ascii(u) { Some(slice_to_vec(u)) } else { None },
        None => None,
    }
}

} // verus!
