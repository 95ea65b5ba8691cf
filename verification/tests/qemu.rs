use scaphandre::attributed_energy;
use scaphandre::counters::ExportTree;
use scaphandre::qemu::{
    export_dir_for, Attribution, ProcessRecord, QemuExporter, CLEANER_STEP_SECONDS,
};

fn cmdline(tokens: &[&str]) -> Vec<String> {
    tokens.iter().map(|t| String::from(*t)).collect()
}

fn chain(pid: u64, cmdlines: &[&[&str]]) -> Vec<ProcessRecord> {
    cmdlines.iter().map(|c| ProcessRecord { pid, cmdline: cmdline(c) }).collect()
}

#[test]
fn vm_name_from_guest_marker() {
    let cl = cmdline(&["/usr/bin/qemu-system-x86_64", "-name", "guest=myvm,extra"]);
    assert_eq!(QemuExporter::get_vm_name_from_cmdline(&cl), "myvm");
}

#[test]
fn vm_name_from_id_flag() {
    let cl = cmdline(&["/usr/bin/kvm", "-id", "107", "-daemonize"]);
    assert_eq!(QemuExporter::get_vm_name_from_cmdline(&cl), "107");
}

#[test]
fn vm_name_without_markers_is_empty() {
    let cl = cmdline(&["/usr/bin/qemu-system-x86_64", "-m", "2048"]);
    assert_eq!(QemuExporter::get_vm_name_from_cmdline(&cl), "");
}

#[test]
fn guest_marker_wins_over_id_flag() {
    let cl = cmdline(&["/usr/bin/kvm", "-id", "107", "guest=myvm,extra"]);
    assert_eq!(QemuExporter::get_vm_name_from_cmdline(&cl), "myvm");
}

#[test]
fn guest_name_runs_up_to_the_comma() {
    let cl = cmdline(&["guest=debian=11,debug-threads=on"]);
    assert_eq!(QemuExporter::get_vm_name_from_cmdline(&cl), "debian=11");
    let cl = cmdline(&["guest=plain"]);
    assert_eq!(QemuExporter::get_vm_name_from_cmdline(&cl), "plain");
    let cl = cmdline(&["guest="]);
    assert_eq!(QemuExporter::get_vm_name_from_cmdline(&cl), "");
}

#[test]
fn filter_keeps_guest_chains() {
    let qemu_chain = chain(3, &[&["/usr/bin/qemu-system-x86_64", "guest=a"]]);
    let kvm_chain = chain(4, &[&["/usr/bin/kvm", "-id", "9"]]);
    let other_chain = chain(5, &[&["/usr/bin/bash"]]);
    let kept = QemuExporter::filter_qemu_vm_processes(vec![
        qemu_chain.clone(),
        other_chain,
        kvm_chain,
    ]);
    assert_eq!(kept.len(), 2);
    assert_eq!(kept[0][0].pid, 3);
    assert_eq!(kept[1][0].pid, 4);
}

#[test]
fn filter_looks_at_the_most_recent_sample() {
    // Oldest sample looked like a guest, but the most recent does not.
    let fading = chain(6, &[&["/usr/bin/kvm"], &["/usr/bin/bash"]]);
    assert!(QemuExporter::filter_qemu_vm_processes(vec![fading]).is_empty());
    // Oldest did not, most recent does.
    let rising = chain(7, &[&["/usr/bin/bash"], &["/usr/bin/kvm"]]);
    assert_eq!(QemuExporter::filter_qemu_vm_processes(vec![rising]).len(), 1);
}

#[test]
fn filter_excludes_unmatched_and_empty_chains() {
    let unmatched = chain(8, &[&["qemu"], &["systemd"], &["cat", "/proc/self/cmdline"]]);
    let empty: Vec<ProcessRecord> = Vec::new();
    assert!(QemuExporter::filter_qemu_vm_processes(vec![unmatched, empty]).is_empty());
}

#[test]
fn attributed_energy_scales_by_the_factor() {
    assert_eq!(attributed_energy(1000, 500_000), 500);
    assert_eq!(attributed_energy(1000, 1_000_000), 1000);
    assert_eq!(attributed_energy(1000, 0), 0);
    assert_eq!(attributed_energy(u64::MAX, 1_000_000), u64::MAX);
    assert_eq!(attributed_energy(3, 333_333), 0);
}

#[test]
fn iterate_without_interval_writes_nothing() {
    let exporter = QemuExporter::new();
    let mut tree = ExportTree::new();
    let root = String::from("/tmp/export");
    let processes = vec![chain(
        3,
        &[&["/usr/bin/kvm", "guest=a"], &["/usr/bin/kvm", "guest=a"], &["/usr/bin/kvm", "guest=a"]],
    )];
    let factors = vec![Attribution { pid: 3, factor_ppm: 1_000_000 }];
    exporter.iterate(&root, None, processes, &factors, &mut tree);
    let expected = export_dir_for(&root, &String::from("a"));
    assert!(tree.counter_dir(&expected).is_none());
}

#[test]
fn iterate_updates_eligible_groups() {
    let exporter = QemuExporter::new();
    let mut tree = ExportTree::new();
    let root = String::from("/tmp/export");
    let guest = &["/usr/bin/qemu-system-x86_64", "guest=vm1,debug"] as &[&str];
    let young = &["/usr/bin/kvm", "guest=vm2"] as &[&str];
    let idvm = &["/usr/bin/kvm", "-id", "42"] as &[&str];
    let processes = vec![
        chain(3, &[guest, guest, guest]),
        // Only two samples: too young to be attributed.
        chain(4, &[young, young]),
        // No attribution factor on record for this one.
        chain(5, &[idvm; 3]),
    ];
    let factors = vec![
        Attribution { pid: 3, factor_ppm: 250_000 },
        Attribution { pid: 9, factor_ppm: 100_000 },
    ];
    exporter.iterate(&root, Some(1000), processes, &factors, &mut tree);

    let vm1 = export_dir_for(&root, &String::from("vm1"));
    let dir = tree.counter_dir(&vm1).expect("eligible group updated");
    assert_eq!(dir.package_energy.as_deref(), Some("250"));

    let vm2 = export_dir_for(&root, &String::from("vm2"));
    assert!(tree.counter_dir(&vm2).is_none());
    let vm42 = export_dir_for(&root, &String::from("42"));
    assert!(tree.counter_dir(&vm42).is_none());
}

#[test]
fn iterate_accumulates_over_ticks() {
    let exporter = QemuExporter::new();
    let mut tree = ExportTree::new();
    let root = String::from("/tmp/export");
    let guest = &["/usr/bin/kvm", "guest=vm1"] as &[&str];
    let factors = vec![Attribution { pid: 3, factor_ppm: 500_000 }];
    exporter.iterate(&root, Some(100), vec![chain(3, &[guest; 3])], &factors, &mut tree);
    exporter.iterate(&root, Some(60), vec![chain(3, &[guest; 3])], &factors, &mut tree);
    let vm1 = export_dir_for(&root, &String::from("vm1"));
    let dir = tree.counter_dir(&vm1).expect("directory exists");
    assert_eq!(dir.package_energy.as_deref(), Some("80"));
}

#[test]
fn empty_vm_name_collapses_onto_the_export_root() {
    // Documented defect: a group without a name marker is accounted under
    // the export root itself.
    let exporter = QemuExporter::new();
    let mut tree = ExportTree::new();
    let root = String::from("/tmp/export");
    let anon = &["/usr/bin/qemu-system-x86_64", "-m", "2048"] as &[&str];
    let factors = vec![Attribution { pid: 3, factor_ppm: 1_000_000 }];
    exporter.iterate(&root, Some(50), vec![chain(3, &[anon; 3])], &factors, &mut tree);
    let collapsed = export_dir_for(&root, &String::from(""));
    assert_eq!(collapsed, "/tmp/export/");
    let dir = tree.counter_dir(&collapsed).expect("accounted under the root");
    assert_eq!(dir.package_energy.as_deref(), Some("50"));
}

#[test]
fn cleanup_timer_budget() {
    let mut exporter = QemuExporter::new();
    assert_eq!(exporter.cleanup_timer_s, CLEANER_STEP_SECONDS);
    let mut cleanups = 0;
    let mut ticks_until_first = 0;
    for tick in 1..=48 {
        if exporter.cleanup_tick() {
            cleanups += 1;
            if cleanups == 1 {
                ticks_until_first = tick;
            }
            assert_eq!(exporter.cleanup_timer_s, CLEANER_STEP_SECONDS);
        }
    }
    // The budget covers 120 seconds of nominal 5-second ticks.
    assert_eq!(ticks_until_first, 24);
    assert_eq!(cleanups, 2);
}
