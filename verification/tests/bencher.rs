use dataprep::bencher::{Bencher, Measurement};

#[test]
fn new_bencher_is_empty() {
    let b = Bencher::new();
    assert!(b.id.is_none());
    assert!(b.output.is_none());
    assert!(b.measurement.is_none());
}

#[test]
fn with_id_and_output_chain() {
    let mut b = Bencher::new();
    b.with_id("pack".to_string()).with_output("results".to_string());
    assert_eq!(b.id.as_deref(), Some("pack"));
    assert_eq!(b.output.as_deref(), Some("results"));
    assert!(b.measurement.is_none());
}

#[test]
fn with_id_replaces_previous_id() {
    let mut b = Bencher::new();
    b.with_id("first".to_string());
    b.with_id("second".to_string());
    assert_eq!(b.id.as_deref(), Some("second"));
}

#[test]
fn default_path_without_id() {
    let b = Bencher::new();
    assert_eq!(b.get_path(), "../target/benchmarks/benchmark.json");
}

#[test]
fn default_path_with_id() {
    let mut b = Bencher::new();
    b.with_id("simple".to_string());
    assert_eq!(b.get_path(), "../target/benchmarks/simple.json");
}

#[test]
fn path_in_output_dir() {
    let mut b = Bencher::new();
    b.with_output("out".to_string()).with_id("deep".to_string());
    assert_eq!(b.get_path(), "out/deep.json");
}

#[test]
fn path_in_output_dir_without_id() {
    let mut b = Bencher::new();
    b.with_output("/tmp/bench/".to_string());
    assert_eq!(b.get_path(), "/tmp/bench/benchmark.json");
}

#[test]
fn record_throughput_keeps_size_and_seconds() {
    let mut b = Bencher::new();
    b.with_id("x".to_string());
    b.record_throughput(1024, 7);
    assert_eq!(b.measurement, Some(Measurement::Throughput(1024, 7)));
    assert_eq!(b.id.as_deref(), Some("x"));
}

#[test]
fn run_records_throughput_of_the_given_size() {
    let mut b = Bencher::new();
    b.with_id("run".to_string());
    let mut calls = 0;
    let _elapsed = b.run(Measurement::Throughput(4096, 0), || calls += 1);
    assert_eq!(calls, 1);
    match b.measurement {
        Some(Measurement::Throughput(size, secs)) => {
            assert_eq!(size, 4096);
            assert_eq!(secs, 0);
        }
        None => panic!("no measurement recorded"),
    }
    assert_eq!(b.id.as_deref(), Some("run"));
}

#[test]
fn run_replaces_an_earlier_measurement() {
    let mut b = Bencher::new();
    b.with_id("again".to_string());
    b.record_throughput(1, 99);
    let _ = b.run(Measurement::Throughput(2, 5), || {});
    assert_eq!(b.measurement, Some(Measurement::Throughput(2, 0)));
}

#[test]
fn measurement_displays_its_kind() {
    assert_eq!(Measurement::Throughput(3, 4).to_string(), "Throughput");
}
