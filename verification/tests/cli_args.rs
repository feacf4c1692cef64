use payload_dumper::args::Args;
use std::path::PathBuf;

fn args() -> Args {
    Args {
        payload_path: PathBuf::from("payload.bin"),
        out: PathBuf::from("output"),
        user_agent: None,
        cookies: None,
        images: String::new(),
        threads: None,
        list: false,
        metadata: None,
        no_parallel: false,
        skip_verification: false,
        prefetch: false,
        quiet: false,
    }
}

#[test]
fn thread_counts() {
    let mut a = args();
    assert_eq!(a.thread_count_for(8), 8);
    assert!(a.thread_count() >= 1);
    a.threads = Some(3);
    assert_eq!(a.thread_count_for(8), 3);
    assert_eq!(a.thread_count(), 3);
    a.no_parallel = true;
    assert_eq!(a.thread_count_for(8), 1);
    assert_eq!(a.thread_count(), 1);
}

#[test]
fn metadata_modes() {
    let mut a = args();
    assert!(!a.full_metadata());
    a.metadata = Some("compact".to_string());
    assert!(!a.full_metadata());
    a.metadata = Some("full".to_string());
    assert!(a.full_metadata());
}
