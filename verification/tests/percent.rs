use entanglement_rs::percent::{fmt_pct, percent_text, rate_text};

fn reference(n: u64, d: u64) -> String {
    format!("{:.1}%", 100.0 * n as f64 / d as f64)
}

struct Lcg(u64);

impl Lcg {
    fn next(&mut self) -> u64 {
        self.0 = self.0.wrapping_mul(6364136223846793005).wrapping_add(1442695040888963407);
        let x = self.0;
        (x >> 33) ^ (x << 31) ^ x
    }
}

#[test]
fn no_percentage_of_nothing() {
    assert_eq!(fmt_pct(0, 0), "N/A");
    assert_eq!(fmt_pct(7, 0), "N/A");
    assert_eq!(rate_text(7, 0), "0.0%");
}

#[test]
fn common_percentages() {
    assert_eq!(fmt_pct(0, 5), "0.0%");
    assert_eq!(fmt_pct(1, 3), "33.3%");
    assert_eq!(fmt_pct(2, 3), "66.7%");
    assert_eq!(fmt_pct(1, 2), "50.0%");
    assert_eq!(fmt_pct(3, 2), "150.0%");
    assert_eq!(fmt_pct(999, 1000), "99.9%");
    assert_eq!(rate_text(999, 1000), "99.9%");
    assert_eq!(percent_text(1, 8), "12.5");
}

#[test]
fn ties_go_as_binary_fractions_do() {
    // 0.25 and 0.75 are ties; 0.15 lies below its tie and 0.05 above.
    assert_eq!(fmt_pct(1, 400), "0.2%");
    assert_eq!(fmt_pct(3, 400), "0.8%");
    assert_eq!(fmt_pct(3, 2000), "0.1%");
    assert_eq!(fmt_pct(1, 2000), "0.1%");
    for d in [400u64, 800, 1600, 2000, 4000, 10000, 20000] {
        for n in 0..=2 * d {
            assert_eq!(fmt_pct(n, d), reference(n, d), "{} of {}", n, d);
        }
    }
}

#[test]
fn extremes_agree_with_floating_point() {
    let edges = [
        1u64,
        2,
        3,
        99,
        100,
        101,
        (1 << 52) - 1,
        1 << 52,
        (1 << 53) - 1,
        1 << 53,
        (1 << 53) + 1,
        (1 << 53) + 3,
        (1 << 54) + 1,
        (1 << 54) + 2,
        (1 << 54) + 3,
        (1 << 63) - 1,
        1 << 63,
        (1 << 63) + 1024,
        (1 << 63) + 1025,
        u64::MAX - 1024,
        u64::MAX - 1,
        u64::MAX,
    ];
    for n in edges {
        assert_eq!(fmt_pct(0, n), "0.0%");
        for d in edges {
            assert_eq!(fmt_pct(n, d), reference(n, d), "{} of {}", n, d);
        }
    }
    assert_eq!(fmt_pct(u64::MAX, 1), "1844674407370955161600.0%");
}

#[test]
fn random_ratios_agree_with_floating_point() {
    let mut rng = Lcg(42);
    for round in 0..200_000u32 {
        let n = rng.next() >> (round % 64);
        let d = (rng.next() >> ((round / 64) % 64)).max(1);
        assert_eq!(fmt_pct(n, d), reference(n, d), "{} of {}", n, d);
    }
}

#[test]
fn all_of_a_whole_is_one_hundred_percent() {
    let mut rng = Lcg(7);
    for round in 0..20_000u32 {
        let d = (rng.next() >> (round % 64)).max(1);
        assert_eq!(fmt_pct(d, d), "100.0%");
    }
}

#[test]
fn a_part_is_at_most_the_whole_and_grows() {
    let d = 12345u64;
    let mut last = 0.0f64;
    for n in 0..=d {
        let text = percent_text(n, d);
        let value: f64 = text.parse().unwrap();
        assert!(value >= last && value <= 100.0);
        last = value;
    }
}

#[test]
fn the_shown_tenth_is_nearest() {
    let mut rng = Lcg(11);
    for round in 0..50_000u32 {
        let n = (rng.next() >> (22 + round % 42)) as i128;
        let d = (rng.next() >> (11 + round % 53)).max(1) as i128;
        let text = percent_text(n as u64, d as u64);
        let tenths: i128 = text.replace('.', "").parse().unwrap();
        assert!(2 * (tenths * d - 1000 * n).abs() <= d, "{} of {}", n, d);
    }
}

#[test]
fn a_common_factor_changes_nothing() {
    let mut rng = Lcg(23);
    for _ in 0..20_000u32 {
        let n = rng.next() >> 48;
        let d = (rng.next() >> 48).max(1);
        let k = (rng.next() >> 36).max(1);
        if 100 * k * n <= 1 << 53 && k * d <= 1 << 53 {
            assert_eq!(fmt_pct(k * n, k * d), fmt_pct(n, d), "{} of {}, {} times", n, d, k);
        }
        assert_eq!(fmt_pct(0, d), "0.0%");
    }
}
