use entanglement_rs::reporter::{Reporter, ReporterAction, ReporterInput, ReporterPhase};

#[test]
fn reports_come_once_a_second_and_add_up() {
    let mut r = Reporter::new(3_000_000_000);
    let totals = [(10u64, 4u64), (10, 9), (25, 20)];
    let mut sums = (0, 0);
    assert_eq!(r.step(ReporterInput::Done), ReporterAction::AskElapsed);
    for (k, (sent, echoed)) in totals.into_iter().enumerate() {
        let now = k as u128 * 1_000_000_000 + 5;
        assert_eq!(r.step(ReporterInput::Elapsed(now)), ReporterAction::Sleep(1_000_000_000));
        assert_eq!(r.step(ReporterInput::Done), ReporterAction::ReadTotals);
        match r.step(ReporterInput::Totals { sent, echoed }) {
            ReporterAction::Report { sent: s, echoed: e, more_sent, more_echoed } => {
                assert_eq!((s, e), (sent, echoed));
                sums = (sums.0 + more_sent, sums.1 + more_echoed);
                assert_eq!(sums, (sent, echoed));
            }
            other => panic!("{:?}", other),
        }
        assert_eq!(r.step(ReporterInput::Done), ReporterAction::AskElapsed);
    }
    assert_eq!(r.step(ReporterInput::Elapsed(3_000_000_005)), ReporterAction::Stop);
    assert_eq!(r.step(ReporterInput::Done), ReporterAction::ReadTotals);
    assert_eq!(
        r.step(ReporterInput::Totals { sent: 30, echoed: 20 }),
        ReporterAction::Finish { sent: 30, echoed: 20 }
    );
    assert_eq!(r.phase, ReporterPhase::Finished);
}

#[test]
fn a_benchmark_without_time_reports_nothing() {
    let mut r = Reporter::new(0);
    assert_eq!(r.step(ReporterInput::Done), ReporterAction::AskElapsed);
    assert_eq!(r.step(ReporterInput::Elapsed(0)), ReporterAction::Stop);
}
