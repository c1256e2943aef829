use edge_runtime_core::env_vars::{check_delete_env, check_get_env, check_set_env, worker_env_vars, EnvVarError};

#[test]
fn env_names_must_be_plain() {
    assert_eq!(check_get_env("HOME"), Ok(()));
    assert_eq!(check_get_env(""), Err(EnvVarError::EmptyKey));
    assert_eq!(check_get_env("A=B"), Err(EnvVarError::InvalidKey));
    assert_eq!(check_get_env("A\0"), Err(EnvVarError::InvalidKey));
}

#[test]
fn env_values_must_hold_no_nul() {
    assert_eq!(check_set_env("KEY", "value with = and ü"), Ok(()));
    assert_eq!(check_set_env("KEY", "bad\0value"), Err(EnvVarError::InvalidValue));
    assert_eq!(check_set_env("", "bad\0value"), Err(EnvVarError::EmptyKey));
    assert_eq!(check_set_env("K=", "v"), Err(EnvVarError::InvalidKey));
}

#[test]
fn deleting_refuses_empty_names_as_invalid() {
    assert_eq!(check_delete_env("KEY"), Ok(()));
    assert_eq!(check_delete_env(""), Err(EnvVarError::InvalidKey));
    assert_eq!(check_delete_env("a=b"), Err(EnvVarError::InvalidKey));
}

fn pairs(v: &[(&str, &str)]) -> Vec<(String, String)> {
    v.iter().map(|(k, x)| (k.to_string(), x.to_string())).collect()
}

#[test]
fn main_worker_sees_what_it_is_given() {
    let given = pairs(&[("HOME", "/root"), ("PATH", "/bin")]);
    assert_eq!(worker_env_vars(given.clone(), false, Some(7)), given);
}

#[test]
fn user_worker_gets_its_execution_id() {
    let given = pairs(&[("FOO", "bar")]);
    assert_eq!(
        worker_env_vars(given.clone(), true, Some(0x67e55044_10b1_426f_9247_bb680e5fe0c8)),
        pairs(&[("FOO", "bar"), ("SB_EXECUTION_ID", "67e55044-10b1-426f-9247-bb680e5fe0c8")])
    );
    assert_eq!(worker_env_vars(given, true, None), pairs(&[("FOO", "bar"), ("SB_EXECUTION_ID", "")]));
}

#[test]
fn user_worker_execution_id_replaces_a_given_one() {
    let given = pairs(&[("SB_EXECUTION_ID", "forged"), ("A", "1")]);
    assert_eq!(worker_env_vars(given, true, Some(1)), pairs(&[("SB_EXECUTION_ID", "00000000-0000-0000-0000-000000000001"), ("A", "1")]));
}
