use crawler::args::Args;

#[test]
fn args_success() {
    let args = vec![
        "file".to_string(),
        "http://example.com".to_string(),
        "./crawlings".to_string(),
        "6".to_string(),
    ];
    assert_eq!(
        Args::new(&args).unwrap(),
        Args {
            url: "http://example.com".to_string(),
            out_dir: "./crawlings".to_string(),
            num_threads: 6,
        }
    );
}

#[test]
fn args_failure_missing_arguments() {
    let args = vec!["file".to_string()];
    assert!(Args::new(&args).unwrap_err().message().contains("Usage:"));
}

#[test]
fn args_large_thread_count() {
    let args = vec![
        "file".to_string(),
        "http://example.com".to_string(),
        "./out".to_string(),
        "128".to_string(),
    ];
    assert_eq!(Args::new(&args).unwrap().num_threads, 128);
}

#[test]
fn args_failure_too_many_arguments() {
    let args = vec![
        "file".to_string(),
        "http://example.com".to_string(),
        "./out".to_string(),
        "6".to_string(),
        "extra".to_string(),
    ];
    assert!(Args::new(&args).unwrap_err().message().contains("Usage:"));
}
