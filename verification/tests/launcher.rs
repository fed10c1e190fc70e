use port_browser::launcher::{launch, launch_all, launch_https, LaunchError};
use port_browser::timer::PerfTimer;

#[test]
fn test_launch_builds_url() {
    assert_eq!(launch(3000).unwrap(), "http://localhost:3000");
    assert_eq!(launch(65535).unwrap(), "http://localhost:65535");
}

#[test]
fn test_launch_rejects_zero() {
    assert!(matches!(launch(0), Err(LaunchError::InvalidPort)));
    assert!(matches!(launch_https(0), Err(LaunchError::InvalidPort)));
}

#[test]
fn test_launch_https_scheme() {
    assert_eq!(launch_https(8443).unwrap(), "https://localhost:8443");
}

#[test]
fn test_launch_all_no_fail_fast() {
    let ports = vec![3000, 0, 8080];
    let results = launch_all(&ports);
    assert_eq!(results.len(), 3);
    assert_eq!(results[0].as_ref().unwrap(), "http://localhost:3000");
    assert!(matches!(results[1], Err(LaunchError::InvalidPort)));
    assert_eq!(results[2].as_ref().unwrap(), "http://localhost:8080");
}

#[test]
fn test_perf_timer() {
    let t = PerfTimer::new("startup");
    assert_eq!(t.label().as_str(), "startup");
    let d = t.elapsed();
    assert!(d.as_nanos() < u128::MAX);
}
