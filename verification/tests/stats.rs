use foxtown::visits::{histogram_peak, peak_position, HourlyAffluence};

fn h(hour: u8, visits: i64) -> HourlyAffluence {
    HourlyAffluence { hour, visits }
}

#[test]
fn histogram_peak_of_empty_histogram() {
    let p = histogram_peak(&vec![]);
    assert_eq!(p.visits, 0);
    assert_eq!(p.hour_label, "--");
    assert_eq!(peak_position(&vec![]), None);
}

#[test]
fn histogram_peak_takes_the_busiest_hour() {
    let hist = vec![h(10, 5), h(11, 40), h(12, 12), h(13, 3)];
    let p = histogram_peak(&hist);
    assert_eq!(p.visits, 40);
    assert_eq!(p.hour_label, "11h");
}

#[test]
fn histogram_peak_ties_go_to_the_last_hour() {
    let hist = vec![h(9, 7), h(14, 20), h(15, 1), h(17, 20)];
    assert_eq!(peak_position(&hist), Some(3));
    let p = histogram_peak(&hist);
    assert_eq!(p.visits, 20);
    assert_eq!(p.hour_label, "17h");
}
