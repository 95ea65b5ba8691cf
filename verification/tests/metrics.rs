use scaphandre::metrics::{format_metric, push_metric, render_metrics, Metric};

fn attrs(pairs: &[(&str, &str)]) -> Vec<(String, String)> {
    pairs.iter().map(|(k, v)| (String::from(*k), String::from(*v))).collect()
}

#[test]
fn metric_line_with_one_attribute() {
    let line = format_metric("host_power_microwatts", "45000", &attrs(&[("hostname", "h1")]));
    assert_eq!(line, "host_power_microwatts{hostname=\"h1\"} 45000\n");
}

#[test]
fn metric_line_without_attributes_omits_braces() {
    let line = format_metric("host_power_microwatts", "45000", &attrs(&[]));
    assert_eq!(line, "host_power_microwatts 45000\n");
}

#[test]
fn metric_line_keeps_attribute_order() {
    let line = format_metric(
        "scaph_process_power_consumption_microwatts",
        "1500",
        &attrs(&[("hostname", "h1"), ("pid", "42"), ("exe", "qemu")]),
    );
    assert_eq!(
        line,
        "scaph_process_power_consumption_microwatts{hostname=\"h1\",pid=\"42\",exe=\"qemu\"} 1500\n"
    );
}

#[test]
fn push_metric_adds_help_and_type_lines() {
    let body = push_metric(
        String::from(""),
        String::from("Power measurement on the whole host, in microwatts"),
        String::from("gauge"),
        String::from("scaph_host_power_microwatts"),
        String::from("scaph_host_power_microwatts 45000\n"),
    );
    assert_eq!(
        body,
        "# HELP scaph_host_power_microwatts Power measurement on the whole host, in microwatts\n\
         # TYPE scaph_host_power_microwatts gauge\n\
         scaph_host_power_microwatts 45000\n"
    );
}

#[test]
fn push_metric_appends_to_an_existing_body() {
    let body = push_metric(
        String::from("before\n"),
        String::from("h"),
        String::from("counter"),
        String::from("m"),
        String::from("m 1\n"),
    );
    assert_eq!(body, "before\n# HELP m h\n# TYPE m counter\nm 1\n");
}

#[test]
fn push_metric_does_not_deduplicate() {
    let once = push_metric(
        String::from(""),
        String::from("h"),
        String::from("counter"),
        String::from("m"),
        String::from("m 1\n"),
    );
    let twice = push_metric(
        once.clone(),
        String::from("h"),
        String::from("counter"),
        String::from("m"),
        String::from("m 2\n"),
    );
    assert_eq!(twice, format!("{}# HELP m h\n# TYPE m counter\nm 2\n", once));
}

#[test]
fn render_metrics_batches_records_in_order() {
    let metrics = vec![
        Metric {
            name: String::from("scaph_host_power_microwatts"),
            help: String::from("Host power"),
            metric_type: String::from("gauge"),
            value: String::from("45000"),
            attributes: attrs(&[("hostname", "h1")]),
        },
        Metric {
            name: String::from("scaph_self_version"),
            help: String::from("Version"),
            metric_type: String::from("gauge"),
            value: String::from("1"),
            attributes: attrs(&[]),
        },
    ];
    let body = render_metrics(&metrics);
    assert_eq!(
        body,
        "# HELP scaph_host_power_microwatts Host power\n\
         # TYPE scaph_host_power_microwatts gauge\n\
         scaph_host_power_microwatts{hostname=\"h1\"} 45000\n\
         # HELP scaph_self_version Version\n\
         # TYPE scaph_self_version gauge\n\
         scaph_self_version 1\n"
    );
}

#[test]
fn render_metrics_of_nothing_is_empty() {
    let body = render_metrics(&Vec::new());
    assert_eq!(body, "");
}
