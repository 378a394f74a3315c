use entanglement_rs::options::{BenchCommand, PerfOptions, SoakOptions, StressOptions};

fn args(words: &[&str]) -> Vec<String> {
    let mut all = vec![String::from("program")];
    for w in words {
        all.push(String::from(*w));
    }
    all
}

#[test]
fn soak_options() {
    let o = SoakOptions::from_args(&args(&[]));
    assert_eq!((o.duration_secs, o.port), (10, 19876));
    let o = SoakOptions::from_args(&args(&["60", "1234"]));
    assert_eq!((o.duration_secs, o.port), (60, 1234));
    let o = SoakOptions::from_args(&args(&["x", "65536"]));
    assert_eq!((o.duration_secs, o.port), (10, 19876));
}

#[test]
fn perf_options() {
    let o = PerfOptions::from_args(&args(&[]));
    assert_eq!((o.duration_secs, o.num_clients, o.payload_size, o.burst), (10, 4, 1100, 32));
    let o = PerfOptions::from_args(&args(&["1", "2", "-3", "+4"]));
    assert_eq!((o.duration_secs, o.num_clients, o.payload_size, o.burst), (1, 2, 1100, 4));
}

#[test]
fn bench_modes() {
    assert!(matches!(BenchCommand::from_args(&args(&[])), BenchCommand::Usage));
    assert!(matches!(BenchCommand::from_args(&Vec::new()), BenchCommand::Usage));
    assert!(matches!(
        BenchCommand::from_args(&args(&["server"])),
        BenchCommand::Server { port: 19877, workers: 4, sockets: 4 }
    ));
    assert!(matches!(
        BenchCommand::from_args(&args(&["server", "1", "-2", "x"])),
        BenchCommand::Server { port: 1, workers: -2, sockets: 4 }
    ));
    match BenchCommand::from_args(&args(&["client"])) {
        BenchCommand::Client {
            server_ip,
            port,
            num_clients,
            duration_secs,
            payload_size,
            burst,
            coalesced,
        } => {
            assert_eq!(server_ip, "127.0.0.1");
            assert_eq!((port, num_clients, duration_secs), (19877, 4, 10));
            assert_eq!((payload_size, burst, coalesced), (1100, 32, false));
        }
        other => panic!("{:?}", other),
    }
    match BenchCommand::from_args(&args(&["client", "10.0.0.1", "5", "6", "7", "8", "9", "-1"])) {
        BenchCommand::Client {
            server_ip,
            port,
            num_clients,
            duration_secs,
            payload_size,
            burst,
            coalesced,
        } => {
            assert_eq!(server_ip, "10.0.0.1");
            assert_eq!((port, num_clients, duration_secs), (5, 6, 7));
            assert_eq!((payload_size, burst, coalesced), (8, 9, true));
        }
        other => panic!("{:?}", other),
    }
    assert!(matches!(
        BenchCommand::from_args(&args(&["Server"])),
        BenchCommand::UnknownMode(mode) if mode == "Server"
    ));
}

#[test]
fn stress_options() {
    let o = StressOptions::from_args(&args(&[]));
    assert_eq!(o.server_addr, "127.0.0.1");
    assert_eq!((o.port, o.num_clients, o.duration_secs, o.rate_hz), (9876, 100, 30, 10));
    assert!(!o.verbose);
    let o = StressOptions::from_args(&args(&[
        "-s", "h", "junk", "-p", "1", "-c", "2", "-t", "3", "-r", "4", "-v",
    ]));
    assert_eq!(o.server_addr, "h");
    assert_eq!((o.port, o.num_clients, o.duration_secs, o.rate_hz), (1, 2, 3, 4));
    assert!(o.verbose);
    let o = StressOptions::from_args(&args(&["-p", "7", "-p", "bad", "-s", "-v", "-r"]));
    assert_eq!(o.port, 9876);
    assert_eq!(o.server_addr, "-v");
    assert!(!o.verbose);
    assert_eq!(o.rate_hz, 10);
}
