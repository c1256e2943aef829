//! Which environment variable names and values a worker may read and write.
use vstd::prelude::*;
use vstd::string::{StrSliceExecFns, StringExecFns};
use crate::assoc::{assoc, in_keys, unique_keys, lemma_assoc_push, lemma_assoc_update};
use crate::worker::{push_uuid, uuid_text};

verus! {

/// Why a worker's access to an environment variable was refused.
#[derive(Debug, Clone, Copy, PartialEq, Eq, Structural)]
pub enum EnvVarError {
    /// "Key is an empty string."
    EmptyKey,
    /// "Key contains invalid characters": an `=` or a NUL in the name.
    InvalidKey,
    /// "Value contains invalid characters": a NUL in the value.
    InvalidValue,
}

/// A name the environment cannot hold: it has an `=` or a NUL.
pub open spec fn bad_key_chars(key: Seq<char>) -> bool {
    key.contains('=') || key.contains('\0')
}

/// What reading or writing the variable `key` is refused for, if anything.
pub open spec fn key_error(key: Seq<char>) -> Option<EnvVarError> {
    if key.len() == 0 {
        Some(EnvVarError::EmptyKey)
    } else if bad_key_chars(key) {
        Some(EnvVarError::InvalidKey)
    } else {
        None
    }
}

/// Whether `s` holds the character `c`.
fn has_char(s: &str, c: char) -> (b: bool)
    ensures
        b == s@.contains(c),
{
    let n = s.unicode_len();
    let mut i: usize = 0;
    while i < n
        invariant
            i <= n,
            n == s@.len(),
            forall|j: int| 0 <= j < i ==> s@[j] != c,
        decreases n - i,
    {
        if s.get_char(i) == c {
            return true;
        }
        i = i + 1;
    }
    false
}

/// Checks the name of a variable to read.
pub fn check_get_env(key: &str) -> (r: Result<(), EnvVarError>)
    ensures
        r == (match key_error(key@) {
            Some(e) => Err(e),
            None => Ok(()),
        }),
{
    if key.unicode_len() == 0 {
        return Err(EnvVarError::EmptyKey);
    }
    if has_char(key, '=') || has_char(key, '\0') {
        return Err(EnvVarError::InvalidKey);
    }
    Ok(())
}

/// Checks the name and the value of a variable to set.
pub fn check_set_env(key: &str, value: &str) -> (r: Result<(), EnvVarError>)
    ensures
        r == (match key_error(key@) {
            Some(e) => Err(e),
            None => if value@.contains('\0') { Err(EnvVarError::InvalidValue) } else { Ok(()) },
        }),
{
    match check_get_env(key) {
        Err(e) => Err(e),
        Ok(()) => if has_char(value, '\0') { Err(EnvVarError::InvalidValue) } else { Ok(()) },
    }
}

/// Checks the name of a variable to delete: an empty name is refused as
/// one with invalid characters.
pub fn check_delete_env(key: &str) -> (r: Result<(), EnvVarError>)
    ensures
        r == (if key@.len() == 0 || bad_key_chars(key@) { Err(EnvVarError::InvalidKey) } else { Ok(()) }),
{
    if key.unicode_len() == 0 || has_char(key, '=') || has_char(key, '\0') {
        Err(EnvVarError::InvalidKey)
    } else {
        Ok(())
    }
}

/// The names a worker may delete are the names it may read, and it may set
/// a variable exactly when it may read it and the value holds no NUL.
pub proof fn lemma_env_names_agree(key: Seq<char>, value: Seq<char>)
    ensures
        (key.len() == 0 || bad_key_chars(key)) <==> key_error(key) is Some,
        (key_error(key) is None && !value.contains('\0')) <==> (match key_error(key) {
            Some(e) => Err::<(), EnvVarError>(e),
            None => if value.contains('\0') { Err(EnvVarError::InvalidValue) } else { Ok(()) },
        }) is Ok,
{
}

/// A worker's variables as name-value pairs.
pub open spec fn env_pairs(env: Seq<(String, String)>) -> Seq<(Seq<char>, Seq<char>)> {
    env.map_values(|p: (String, String)| (p.0@, p.1@))
}

/// The variables a worker sees: those it is given and, for a user worker,
/// `SB_EXECUTION_ID` set to its key in hyphenated form (empty without a
/// key). The main worker is given the whole process environment; a user
/// worker only what the main worker passes it.
pub open spec fn worker_env(
    given: Map<Seq<char>, Seq<char>>,
    is_user_worker: bool,
    key: Option<u128>,
) -> Map<Seq<char>, Seq<char>> {
    if is_user_worker {
        given.insert("SB_EXECUTION_ID"@, match key {
            Some(k) => uuid_text(k),
            None => Seq::empty(),
        })
    } else {
        given
    }
}

/// The variables a worker's runtime is set up with (see `worker_env`).
pub fn worker_env_vars(env_vars: Vec<(String, String)>, is_user_worker: bool, key: Option<u128>) -> (env: Vec<(String, String)>)
    requires
        unique_keys(env_pairs(env_vars@)),
    ensures
        unique_keys(env_pairs(env@)),
        assoc(env_pairs(env@)) == worker_env(assoc(env_pairs(env_vars@)), is_user_worker, key),
{
    let mut env = env_vars;
    if !is_user_worker {
        return env;
    }
    let mut value = String::new();
    match key {
        Some(k) => push_uuid(&mut value, k),
        None => {},
    }
    assert(value@ == (match key {
        Some(k) => uuid_text(k),
        None => Seq::<char>::empty(),
    }));
    let name = String::from_str("SB_EXECUTION_ID");
    let ghost ps = env_pairs(env@);
    let mut i: usize = 0;
    while i < env.len()
        invariant
            i <= env@.len(),
            env@ == env_vars@,
            ps == env_pairs(env@),
            ps.len() == env@.len(),
            unique_keys(ps),
            name@ == "SB_EXECUTION_ID"@,
            value@ == (match key {
                Some(k) => uuid_text(k),
                None => Seq::<char>::empty(),
            }),
            is_user_worker,
            forall|j: int| 0 <= j < i ==> ps[j].0 != name@,
        decreases env@.len() - i,
    {
        assert(ps[i as int] == (env@[i as int].0@, env@[i as int].1@));
        if env[i].0 == name {
            let ghost v = value@;
            env.set(i, (name, value));
            proof {
                assert(ps[i as int].0 == "SB_EXECUTION_ID"@);
                lemma_assoc_update(ps, i as int, v);
                assert(env_pairs(env@) =~= ps.update(i as int, (ps[i as int].0, v)));
            }
            return env;
        }
        i = i + 1;
    }
    proof {
        assert(!in_keys(ps, name@));
        lemma_assoc_push(ps, name@, value@);
    }
    let ghost nv = (name@, value@);
    env.push((name, value));
    proof {
        assert(env_pairs(env@) =~= ps.push(nv));
    }
    env
}

/// The main worker sees every variable it is given; a user worker sees the
/// variables the main worker gives it, and besides them only its execution
/// id.
pub proof fn lemma_worker_env_visibility(given: Map<Seq<char>, Seq<char>>, key: Option<u128>, name: Seq<char>)
    ensures
        worker_env(given, false, key) == given,
        worker_env(given, true, key).contains_key("SB_EXECUTION_ID"@),
        name != "SB_EXECUTION_ID"@ ==> (worker_env(given, true, key).contains_key(name) <==> given.contains_key(name)),
        name != "SB_EXECUTION_ID"@ && given.contains_key(name) ==> worker_env(given, true, key)[name] == given[name],
{
}

} // verus!
