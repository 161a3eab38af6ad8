use orbflow::subjects::{
    encode_pool_name, plugin_reload_subject, result_subject, safe_result_subject,
    safe_task_subject, stream_subject, task_subject, try_result_subject, try_task_subject,
    validate_pool_name,
};

#[test]
fn test_task_subject() {
    assert_eq!(task_subject("default"), "orbflow.tasks.default");
    assert_eq!(task_subject("gpu"), "orbflow.tasks.gpu");
}

#[test]
fn test_result_subject() {
    assert_eq!(result_subject("default"), "orbflow.results.default");
}

#[test]
fn pool_validation_accepts_single_subject_tokens() {
    assert!(validate_pool_name("default").is_ok());
    assert!(validate_pool_name("gpu_pool-1").is_ok());
    assert_eq!(
        try_task_subject("gpu_pool-1").unwrap(),
        "orbflow.tasks.gpu_pool-1"
    );
}

#[test]
fn pool_validation_rejects_subject_wildcards_and_dots() {
    assert!(validate_pool_name("").is_err());
    assert!(validate_pool_name("prod.us").is_err());
    assert!(validate_pool_name("prod>").is_err());
    assert!(validate_pool_name("prod*").is_err());
    assert!(validate_pool_name("prod us").is_err());
}

#[test]
fn pool_encoding_is_deterministic_and_safe() {
    let encoded = encode_pool_name("prod.us");
    assert_eq!(encoded, encode_pool_name("prod.us"));
    assert_eq!(
        safe_result_subject("prod.us"),
        format!("orbflow.results.{encoded}")
    );
    assert!(validate_pool_name(&encoded).is_ok());
    assert!(validate_pool_name(&encode_pool_name(&"x.".repeat(80))).is_ok());
}

#[test]
fn test_stream_subject() {
    assert_eq!(
        stream_subject("inst-1", "node-2"),
        "orbflow.stream.inst-1.node-2"
    );
}

#[test]
fn test_plugin_reload_subject() {
    assert_eq!(plugin_reload_subject(), "orbflow.worker.reload-plugins");
}

#[test]
fn pool_errors_name_what_is_wrong() {
    assert_eq!(
        validate_pool_name("").unwrap_err().to_string(),
        "worker pool name must not be empty"
    );
    assert_eq!(
        validate_pool_name(&"p".repeat(65)).unwrap_err().to_string(),
        "worker pool name must be at most 64 characters"
    );
    assert_eq!(
        validate_pool_name("prod.us").unwrap_err().to_string(),
        "worker pool name contains invalid character '.' at byte 4; use ASCII letters, digits, '_' or '-'"
    );
    assert!(validate_pool_name(&"p".repeat(64)).is_ok());
}

#[test]
fn encoded_pools_are_hashed_tokens() {
    // FNV-1a over the one byte of "." is af63a34c86018bb1.
    assert_eq!(encode_pool_name("."), "pool_af63a34c86018bb1");
    assert_eq!(encode_pool_name("gpu"), "gpu");
    let encoded = encode_pool_name("prod us");
    assert_eq!(encode_pool_name(&encoded), encoded);
}

#[test]
fn pool_subjects_tell_pools_apart() {
    assert_ne!(task_subject("a"), task_subject("b"));
    assert_ne!(task_subject("a"), result_subject("a"));
    assert_eq!(safe_task_subject("gpu"), "orbflow.tasks.gpu");
    assert_eq!(
        try_result_subject("gpu").unwrap(),
        "orbflow.results.gpu"
    );
    assert!(try_result_subject("g pu").is_err());
}
