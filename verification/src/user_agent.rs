//! The `User-Agent` stamp a worker's outbound requests carry.
use vstd::prelude::*;
use vstd::slice::slice_to_vec;
use vstd::string::StringSliceAdditionalSpecFns;

verus! {

/// A byte that may stand in an HTTP header value: visible ASCII, any byte
/// from 0x80 on, space, or tab.
pub open spec fn header_byte_ok(b: u8) -> bool {
    (b >= 32 && b != 127) || b == 9
}

/// Bytes that form a valid HTTP header value.
pub open spec fn header_value_ok(bs: Seq<u8>) -> bool {
    forall|i: int| 0 <= i < bs.len() ==> header_byte_ok(#[trigger] bs[i])
}

/// Whether `http::HeaderValue::from_bytes` accepts `bytes`; it accepts
/// exactly the bytes that each pass its validity test, which this states.
#[verifier::external_body]
fn header_value_from_bytes_ok(bytes: &[u8]) -> (ok: bool)
    ensures
        ok == header_value_ok(bytes@),
{
    http::HeaderValue::from_bytes(bytes).is_ok()
}

/// Whether `http::HeaderValue::from_str` accepts `s`; it tests the bytes of
/// `s` as `from_bytes` does, which this states.
#[verifier::external_body]
fn header_value_from_str_ok(s: &str) -> (ok: bool)
    ensures
        ok == header_value_ok(s.spec_bytes()),
{
    http::HeaderValue::from_str(s).is_ok()
}

/// `needle` occurs in `hay` as a run of consecutive bytes.
pub open spec fn contains_window(hay: Seq<u8>, needle: Seq<u8>) -> bool {
    exists|i: int| 0 <= i && i + needle.len() <= hay.len() && #[trigger] hay.subrange(i, i + needle.len()) == needle
}

/// The `User-Agent` after stamping `comment` on it: none set stays none
/// (`None`: leave the headers as they are); an empty one becomes the comment;
/// one that holds the comment already is left alone; any other gets a space
/// and the comment appended, provided the result is a valid header value.
pub open spec fn stamped(current: Option<Seq<u8>>, comment: Seq<u8>) -> Option<Seq<u8>> {
    match current {
        None => None,
        Some(cur) => if cur.len() == 0 {
            Some(comment)
        } else if contains_window(cur, comment) {
            None
        } else if header_value_ok(cur + seq![32u8] + comment) {
            Some(cur + seq![32u8] + comment)
        } else {
            None
        },
    }
}

/// The bytes an optional slice holds.
pub open spec fn bytes_view(b: Option<&[u8]>) -> Option<Seq<u8>> {
    match b {
        Some(s) => Some(s@),
        None => None,
    }
}

fn bytes_eq_at(hay: &[u8], start: usize, needle: &[u8]) -> (r: bool)
    requires
        start + needle@.len() <= hay@.len(),
    ensures
        r == (hay@.subrange(start as int, start + needle@.len()) == needle@),
{
    let hl = hay.len();
    let mut j: usize = 0;
    while j < needle.len()
        invariant
            hl == hay@.len(),
            start + needle@.len() <= hay@.len(),
            j <= needle@.len(),
            forall|k: int| 0 <= k < j ==> hay@[start + k] == needle@[k],
        decreases needle.len() - j,
    {
        if hay[start + j] != needle[j] {
            assert(hay@.subrange(start as int, start + needle@.len())[j as int] != needle@[j as int]);
            return false;
        }
        j = j + 1;
    }
    assert(hay@.subrange(start as int, start + needle@.len()) =~= needle@);
    true
}

fn has_window(hay: &[u8], needle: &[u8]) -> (r: bool)
    requires
        needle@.len() > 0,
    ensures
        r == contains_window(hay@, needle@),
{
    if needle.len() > hay.len() {
        return false;
    }
    let last = hay.len() - needle.len();
    let mut i: usize = 0;
    while i <= last
        invariant
            needle@.len() > 0,
            hay@.len() == hay.len(),
            last == hay@.len() - needle@.len(),
            i <= last + 1,
            forall|k: int| 0 <= k < i ==> #[trigger] hay@.subrange(k, k + needle@.len()) != needle@,
        decreases last + 1 - i,
    {
        if bytes_eq_at(hay, i, needle) {
            return true;
        }
        i = i + 1;
    }
    assert forall|k: int| 0 <= k && k + needle@.len() <= hay@.len() implies #[trigger] hay@.subrange(k, k + needle@.len()) != needle@ by {
        assert(k < i);
    }
    false
}

/// The `User-Agent` to set after stamping `comment` (non-empty, as
/// `stamping_hook` makes sure) on the one a request set, if any; `None`
/// leaves the headers as they are.
pub fn append_user_agent_comment(current: Option<&[u8]>, comment: &[u8]) -> (r: Option<Vec<u8>>)
    requires
        comment@.len() > 0,
    ensures
        match r {
            Some(v) => stamped(bytes_view(current), comment@) == Some(v@),
            None => stamped(bytes_view(current), comment@) is None,
        },
{
    let cur = match current {
        None => return None,
        Some(c) => c,
    };
    if cur.len() == 0 {
        return Some(slice_to_vec(comment));
    }
    if has_window(cur, comment) {
        return None;
    }
    let mut value: Vec<u8> = Vec::new();
    let mut i: usize = 0;
    while i < cur.len()
        invariant
            i <= cur@.len(),
            value@ == cur@.subrange(0, i as int),
        decreases cur.len() - i,
    {
        value.push(cur[i]);
        i = i + 1;
        assert(value@ =~= cur@.subrange(0, i as int));
    }
    value.push(32u8);
    let mut j: usize = 0;
    while j < comment.len()
        invariant
            j <= comment@.len(),
            value@ == cur@ + seq![32u8] + comment@.subrange(0, j as int),
        decreases comment.len() - j,
    {
        value.push(comment[j]);
        j = j + 1;
        assert(value@ =~= cur@ + seq![32u8] + comment@.subrange(0, j as int));
    }
    assert(comment@.subrange(0, comment@.len() as int) =~= comment@);
    if header_value_from_bytes_ok(value.as_slice()) {
        Some(value)
    } else {
        None
    }
}

/// The comment a worker's requests are stamped with: the bytes of `comment`
/// when it is a valid, non-empty header value; none otherwise.
pub fn stamping_hook(comment: &str) -> (r: Option<Vec<u8>>)
    ensures
        match r {
            Some(v) => header_value_ok(comment.spec_bytes()) && comment@.len() > 0 && v@ == comment.spec_bytes(),
            None => !header_value_ok(comment.spec_bytes()) || comment@.len() == 0,
        },
{
    if !header_value_from_str_ok(comment) {
        return None;
    }
    if comment.is_empty() {
        return None;
    }
    Some(slice_to_vec(comment.as_bytes()))
}

/// Stamping is done once: a stamped `User-Agent` holds the comment, so
/// stamping it again leaves it as it is.
pub proof fn lemma_stamp_idempotent(current: Seq<u8>, comment: Seq<u8>)
    requires
        comment.len() > 0,
        stamped(Some(current), comment) is Some,
    ensures
        contains_window(stamped(Some(current), comment)->0, comment),
        stamped(Some(stamped(Some(current), comment)->0), comment) is None,
{
    let v = stamped(Some(current), comment)->0;
    let start: int = if current.len() == 0 { 0 } else { current.len() as int + 1 };
    assert(v.subrange(start, start + comment.len()) =~= comment);
    assert(0 <= start && start + comment.len() <= v.len());
    assert(contains_window(v, comment));
    assert(v.len() > 0);
}

/// A request that sets its own `User-Agent` keeps what it set and cannot
/// shed the comment: whatever the stamp does to a valid header value, the
/// value sent holds the comment and starts with what the request set.
pub proof fn lemma_stamp_keeps_comment(current: Seq<u8>, comment: Seq<u8>)
    requires
        comment.len() > 0,
        header_value_ok(current),
        header_value_ok(comment),
    ensures
        ({
            let sent = match stamped(Some(current), comment) {
                Some(v) => v,
                None => current,
            };
            &&& contains_window(sent, comment)
            &&& sent.subrange(0, current.len() as int) == current
        }),
{
    if current.len() == 0 {
        assert(comment.subrange(0int, 0int + comment.len()) =~= comment);
        assert(contains_window(comment, comment));
        assert(comment.subrange(0, 0) =~= current);
    } else if contains_window(current, comment) {
        assert(current.subrange(0, current.len() as int) =~= current);
    } else {
        let joined = current + seq![32u8] + comment;
        assert forall|i: int| 0 <= i < joined.len() implies header_byte_ok(#[trigger] joined[i]) by {
            if i < current.len() {
                assert(joined[i] == current[i]);
            } else if i == current.len() {
            } else {
                assert(joined[i] == comment[i - current.len() - 1]);
            }
        }
        lemma_stamp_idempotent(current, comment);
        assert(joined.subrange(0, current.len() as int) =~= current);
    }
}

} // verus!
