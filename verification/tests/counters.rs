use scaphandre::counters::{add_saturating, plan_energy_update, ExportTree};
use scaphandre::decimal::{parse_u64, u64_to_dec};
use scaphandre::qemu::QemuExporter;

#[test]
fn render_zero() {
    assert_eq!(u64_to_dec(0), "0");
}

#[test]
fn render_plain_values() {
    assert_eq!(u64_to_dec(7), "7");
    assert_eq!(u64_to_dec(45000), "45000");
    assert_eq!(u64_to_dec(u64::MAX), "18446744073709551615");
}

#[test]
fn parse_plain_values() {
    assert_eq!(parse_u64("0"), Some(0));
    assert_eq!(parse_u64("007"), Some(7));
    assert_eq!(parse_u64("45000"), Some(45000));
}

#[test]
fn parse_rejects_empty_and_non_digits() {
    assert_eq!(parse_u64(""), None);
    assert_eq!(parse_u64("abc"), None);
    assert_eq!(parse_u64("12x"), None);
    assert_eq!(parse_u64("-5"), None);
    assert_eq!(parse_u64(" 5"), None);
}

#[test]
fn parse_range_boundary() {
    assert_eq!(parse_u64("18446744073709551615"), Some(u64::MAX));
    assert_eq!(parse_u64("18446744073709551616"), None);
}

#[test]
fn saturating_addition() {
    assert_eq!(add_saturating(1, 2), 3);
    assert_eq!(add_saturating(u64::MAX, 1), u64::MAX);
    assert_eq!(add_saturating(u64::MAX - 1, 1), u64::MAX);
}

#[test]
fn bootstrap_creates_layout_once() {
    let mut tree = ExportTree::new();
    let path = String::from("/tmp/export/myvm");
    assert!(tree.counter_dir(&path).is_none());

    tree.apply_energy(&path, 10);
    let dir = tree.counter_dir(&path).expect("directory created on first update");
    assert_eq!(dir.package_label, "package-0");
    assert_eq!(dir.core_label, "core");
    assert_eq!(dir.package_energy.as_deref(), Some("10"));
    assert_eq!(dir.core_energy.as_deref(), Some("10"));

    tree.apply_energy(&path, 15);
    let dir = tree.counter_dir(&path).expect("directory still present");
    assert_eq!(dir.package_label, "package-0");
    assert_eq!(dir.core_label, "core");
    assert_eq!(dir.package_energy.as_deref(), Some("25"));
    assert_eq!(dir.core_energy.as_deref(), Some("25"));
}

#[test]
fn accumulation_exact_across_restarts() {
    // The on-disk tree survives; a fresh exporter instance between updates
    // stands for a restart of the exporting process.
    let mut tree = ExportTree::new();
    let path = String::from("/var/lib/libvirt/scaphandre/vm1");
    let deltas: [u64; 4] = [5, 0, 7, 30];
    let mut expected: u64 = 0;
    for d in deltas {
        let _restarted = QemuExporter::new();
        tree.apply_energy(&path, d);
        expected += d;
    }
    let dir = tree.counter_dir(&path).expect("directory exists");
    assert_eq!(dir.package_energy.as_deref(), Some(format!("{}", expected).as_str()));
    assert_eq!(dir.core_energy.as_deref(), dir.package_energy.as_deref());
    assert_eq!(expected, 42);
}

#[test]
fn unparseable_counter_counts_as_zero() {
    let path = String::from("/tmp/export/vm");
    let plan = plan_energy_update(&path, true, &Some(String::from("garbage")), 9);
    assert_eq!(plan.total, 9);
    assert_eq!(plan.counter_value, "9");
}

#[test]
fn plan_paths_and_labels() {
    let path = String::from("/tmp/export/vm");
    let plan = plan_energy_update(&path, false, &None, 5);
    assert!(plan.create_layout);
    assert_eq!(plan.package_dir, "/tmp/export/vm/domain-0");
    assert_eq!(plan.core_dir, "/tmp/export/vm/domain-0/domain-0:core-0");
    assert_eq!(plan.package_name_file, "/tmp/export/vm/domain-0/name");
    assert_eq!(plan.package_label, "package-0");
    assert_eq!(plan.core_name_file, "/tmp/export/vm/domain-0/domain-0:core-0/name");
    assert_eq!(plan.core_label, "core");
    assert_eq!(plan.package_energy_file, "/tmp/export/vm/domain-0/energy_uj");
    assert_eq!(plan.core_energy_file, "/tmp/export/vm/domain-0/domain-0:core-0/energy_uj");
    assert_eq!(plan.total, 5);
    assert_eq!(plan.counter_value, "5");
}

#[test]
fn plan_on_existing_layout_updates_only() {
    let path = String::from("/tmp/export/vm");
    let plan = plan_energy_update(&path, true, &Some(String::from("10")), 5);
    assert!(!plan.create_layout);
    assert_eq!(plan.total, 15);
    assert_eq!(plan.counter_value, "15");
}
