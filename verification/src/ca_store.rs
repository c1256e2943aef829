//! The root certificate stores a runtime trusts, chosen by the text of
//! `DENO_TLS_CA_STORE`.
use vstd::prelude::*;
use crate::runtime::{split_at_char, split_on};
use vstd::string::{StrSliceExecFns, StringExecFns};

verus! {

/// A root certificate store.
#[derive(Debug, Clone, Copy, PartialEq, Eq, Structural)]
pub enum CaStore {
    /// The Mozilla roots that ship with the runtime.
    Mozilla,
    /// The roots of the platform.
    System,
}

/// Whether `c` has the Unicode property `White_Space`, as
/// `char::is_whitespace` tests.
pub open spec fn is_white_space(c: char) -> bool {
    let n = c as int;
    ||| 0x9 <= n <= 0xd
    ||| n == 0x20
    ||| n == 0x85
    ||| n == 0xa0
    ||| n == 0x1680
    ||| 0x2000 <= n <= 0x200a
    ||| n == 0x2028
    ||| n == 0x2029
    ||| n == 0x202f
    ||| n == 0x205f
    ||| n == 0x3000
}

/// `s` without its leading white space.
pub open spec fn trim_start(s: Seq<char>) -> Seq<char>
    decreases s.len(),
{
    if s.len() > 0 && is_white_space(s[0]) {
        trim_start(s.drop_first())
    } else {
        s
    }
}

/// `s` without its trailing white space.
pub open spec fn trim_end(s: Seq<char>) -> Seq<char>
    decreases s.len(),
{
    if s.len() > 0 && is_white_space(s.last()) {
        trim_end(s.drop_last())
    } else {
        s
    }
}

/// `s` without white space at either end, as `str::trim` gives it.
pub open spec fn trim(s: Seq<char>) -> Seq<char> {
    trim_end(trim_start(s))
}

/// The pieces, trimmed, leaving out those that are empty once trimmed.
pub open spec fn trimmed_names(pieces: Seq<Seq<char>>) -> Seq<Seq<char>>
    decreases pieces.len(),
{
    if pieces.len() == 0 {
        Seq::empty()
    } else {
        let rest = trimmed_names(pieces.drop_last());
        let t = trim(pieces.last());
        if t.len() == 0 {
            rest
        } else {
            rest.push(t)
        }
    }
}

/// The store names that the variable's text asks for: the comma-separated,
/// trimmed, non-empty names when it is set, else `mozilla` alone.
pub open spec fn ca_store_names(env: Option<Seq<char>>) -> Seq<Seq<char>> {
    match env {
        Some(text) => trimmed_names(split_on(text, ',')),
        None => seq!["mozilla"@],
    }
}

/// The store a name stands for, if it names one.
pub open spec fn store_named(name: Seq<char>) -> Option<CaStore> {
    if name == "mozilla"@ {
        Some(CaStore::Mozilla)
    } else if name == "system"@ {
        Some(CaStore::System)
    } else {
        None
    }
}

/// The stores that the names stand for, in order, or the first name that
/// stands for none.
pub open spec fn stores_named(names: Seq<Seq<char>>) -> Result<Seq<CaStore>, Seq<char>>
    decreases names.len(),
{
    if names.len() == 0 {
        Ok(Seq::empty())
    } else {
        match stores_named(names.drop_last()) {
            Err(unknown) => Err(unknown),
            Ok(stores) => match store_named(names.last()) {
                Some(store) => Ok(stores.push(store)),
                None => Err(names.last()),
            },
        }
    }
}

/// The error that an unknown store name is answered with.
pub open spec fn unknown_store_message(name: Seq<char>) -> Seq<char> {
    "Unknown certificate store \""@ + name + "\" specified (allowed: \"system,mozilla\")"@
}

/// The view of an optional `&str`.
pub open spec fn text_of(env: Option<&str>) -> Option<Seq<char>> {
    match env {
        Some(s) => Some(s@),
        None => None,
    }
}

/// Whether `c` is white space.
fn is_white_space_char(c: char) -> (b: bool)
    ensures
        b == is_white_space(c),
{
    let n = c as u32;
    (0x9 <= n && n <= 0xd) || n == 0x20 || n == 0x85 || n == 0xa0 || n == 0x1680
        || (0x2000 <= n && n <= 0x200a) || n == 0x2028 || n == 0x2029 || n == 0x202f
        || n == 0x205f || n == 0x3000
}

/// `s` without white space at either end.
pub fn trim_white_space(s: &str) -> (t: &str)
    ensures
        t@ == trim(s@),
{
    let n = s.unicode_len();
    let mut lo: usize = 0;
    proof {
        assert(s@.subrange(0, n as int) =~= s@);
    }
    while lo < n && is_white_space_char(s.get_char(lo))
        invariant
            lo <= n,
            n == s@.len(),
            trim_start(s@) == trim_start(s@.subrange(lo as int, n as int)),
        decreases n - lo,
    {
        assert(s@.subrange(lo as int, n as int).drop_first() =~= s@.subrange(lo + 1, n as int));
        lo = lo + 1;
    }
    let mut hi: usize = n;
    while hi > lo && is_white_space_char(s.get_char(hi - 1))
        invariant
            lo <= hi <= n,
            n == s@.len(),
            trim_start(s@) == s@.subrange(lo as int, n as int),
            trim(s@) == trim_end(s@.subrange(lo as int, hi as int)),
        decreases hi - lo,
    {
        assert(s@.subrange(lo as int, hi as int).drop_last() =~= s@.subrange(lo as int, hi - 1));
        hi = hi - 1;
    }
    s.substring_char(lo, hi)
}

/// The error message for an unknown store name.
fn unknown_store_error(name: &str) -> (e: String)
    ensures
        e@ == unknown_store_message(name@),
{
    let mut e = String::from_str("Unknown certificate store \"");
    e.append(name);
    e.append("\" specified (allowed: \"system,mozilla\")");
    e
}

/// The root certificate stores for the text of `DENO_TLS_CA_STORE` (`None`
/// where it is unset), in the order named, or the error for the first name
/// that is neither `mozilla` nor `system`.
pub fn ca_stores(env: Option<&str>) -> (r: Result<Vec<CaStore>, String>)
    ensures
        match stores_named(ca_store_names(text_of(env))) {
            Ok(stores) => r is Ok && r->Ok_0@ == stores,
            Err(name) => r is Err && r->Err_0@ == unknown_store_message(name),
        },
{
    let text = match env {
        None => {
            let mut stores: Vec<CaStore> = Vec::new();
            stores.push(CaStore::Mozilla);
            proof {
                let names = ca_store_names(text_of(env));
                assert(names.drop_last() =~= Seq::<Seq<char>>::empty());
                assert(stores_named(names.drop_last()) == Ok::<Seq<CaStore>, Seq<char>>(Seq::empty()));
                assert(store_named(names.last()) == Some(CaStore::Mozilla));
                assert(stores@ =~= Seq::<CaStore>::empty().push(CaStore::Mozilla));
            }
            return Ok(stores);
        },
        Some(text) => text,
    };
    let pieces = split_at_char(text, ',');
    let ghost views = pieces@.map_values(|p: String| p@);
    assert(ca_store_names(text_of(env)) == trimmed_names(views));
    let mut stores: Vec<CaStore> = Vec::new();
    let mut i: usize = 0;
    proof {
        assert(views.take(0) =~= Seq::<Seq<char>>::empty());
    }
    while i < pieces.len()
        invariant
            i <= pieces@.len(),
            views == pieces@.map_values(|p: String| p@),
            views == split_on(text@, ','),
            ca_store_names(text_of(env)) == trimmed_names(views),
            stores_named(trimmed_names(views.take(i as int))) == Ok::<Seq<CaStore>, Seq<char>>(stores@),
        decreases pieces@.len() - i,
    {
        let ghost done = trimmed_names(views.take(i as int));
        assert(views.take(i + 1).drop_last() =~= views.take(i as int));
        assert(views.take(i + 1).last() == pieces@[i as int]@);
        let name = trim_white_space(pieces[i].as_str());
        if name.unicode_len() > 0 {
            assert(trimmed_names(views.take(i + 1)) == done.push(name@));
            assert(done.push(name@).drop_last() =~= done);
            let owned = String::from_str(name);
            if owned == String::from_str("mozilla") {
                stores.push(CaStore::Mozilla);
            } else if owned == String::from_str("system") {
                stores.push(CaStore::System);
            } else {
                proof {
                    assert(store_named(name@) is None);
                    assert(stores_named(trimmed_names(views.take(i + 1))) == Err::<Seq<CaStore>, Seq<char>>(name@));
                    assert(views.take(pieces@.len() as int) =~= views);
                    lemma_unknown_stays(views, i as int + 1);
                }
                let e = unknown_store_error(name);
                assert(stores_named(ca_store_names(text_of(env))) == Err::<Seq<CaStore>, Seq<char>>(name@));
                return Err(e);
            }
        } else {
            assert(trimmed_names(views.take(i + 1)) == done);
        }
        i = i + 1;
    }
    proof {
        assert(views.take(pieces@.len() as int) =~= views);
    }
    Ok(stores)
}

/// Once a prefix of the pieces names an unknown store, so do all the pieces.
proof fn lemma_unknown_stays(pieces: Seq<Seq<char>>, k: int)
    requires
        0 <= k <= pieces.len(),
        stores_named(trimmed_names(pieces.take(k))) is Err,
    ensures
        stores_named(trimmed_names(pieces)) == stores_named(trimmed_names(pieces.take(k))),
    decreases pieces.len() - k,
{
    if k == pieces.len() {
        assert(pieces.take(k) =~= pieces);
    } else {
        let next = pieces.take(k + 1);
        assert(next.drop_last() =~= pieces.take(k));
        let before = trimmed_names(pieces.take(k));
        let t = trim(next.last());
        if t.len() > 0 {
            assert(before.push(t).drop_last() =~= before);
        }
        lemma_unknown_stays(pieces, k + 1);
    }
}

} // verus!
