use rebar::history::{MetricSeries, WidgetHistory};

#[test]
fn series_keeps_the_latest_samples() {
    let mut series = MetricSeries::new(3);
    assert_eq!(series.len(), 0);
    for value in 1..=5 {
        series.push(value);
    }
    assert_eq!(series.len(), 3);
    assert_eq!(series.values(), &[3, 4, 5]);
}

#[test]
fn series_below_capacity_keeps_everything() {
    let mut series = MetricSeries::new(10);
    series.push(1.5f32);
    series.push(2.5f32);
    assert_eq!(series.values(), &[1.5, 2.5]);
}

#[test]
fn series_of_one() {
    let mut series = MetricSeries::new(1);
    series.push("a");
    series.push("b");
    assert_eq!(series.values(), &["b"]);
}

#[test]
fn history_records_one_sample_per_series() {
    let mut history = WidgetHistory::new(2);
    history.record(1, 2, 3, 4, 5);
    history.record(6, 7, 8, 9, 10);
    history.record(11, 12, 13, 14, 15);
    assert_eq!(history.cpu_usage.values(), &[6, 11]);
    assert_eq!(history.memory_usage.values(), &[7, 12]);
    assert_eq!(history.gpu_memory_usage.values(), &[8, 13]);
    assert_eq!(history.network_down_mbps.values(), &[9, 14]);
    assert_eq!(history.network_up_mbps.values(), &[10, 15]);
}

#[test]
fn default_history_holds_five_minutes() {
    let mut history: WidgetHistory<u32> = WidgetHistory::default();
    for i in 0..400 {
        history.record(i, i, i, i, i);
    }
    assert_eq!(history.cpu_usage.len(), 300);
    assert_eq!(history.cpu_usage.values()[0], 100);
    assert_eq!(history.network_up_mbps.values()[299], 399);
}
