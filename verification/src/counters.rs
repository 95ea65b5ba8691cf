//! Counter store: durable cumulative per-VM energy counters.
//!
//! Each virtual machine owns a directory mimicking a hardware
//! energy-accounting pseudo-filesystem: a package-level domain directory
//! with a label file and a cumulative `energy_uj` counter, and a core-level
//! sub-domain kept numerically identical.  Updates are read-modify-write on
//! the package-level counter, never a blind overwrite, so totals survive
//! restarts of the exporting process.

use vstd::prelude::*;
use vstd::pervasive::VecAdditionalExecFns;
use crate::decimal::{dec_digits, dec_val, is_dec_seq, parse_u64, u64_to_dec, lemma_dec_round_trip};

verus! {

/// The numeric reading of a counter file: missing or unparseable counts as
/// zero.
pub open spec fn counter_num(contents: Option<Seq<char>>) -> nat {
    match contents {
        None => 0,
        Some(s) => if is_dec_seq(s) && dec_val(s) <= u64::MAX {
            dec_val(s)
        } else {
            0
        },
    }
}

/// Addition that pins the counter to its maximum instead of wrapping.
pub open spec fn sat_add_u64(a: nat, b: nat) -> nat {
    if a + b > u64::MAX {
        u64::MAX as nat
    } else {
        a + b
    }
}

/// The package-level domain directory under one VM's export directory.
pub open spec fn package_dir_of(vm: Seq<char>) -> Seq<char> {
    vm + "/domain-0"@
}

/// The core-level sub-domain directory under one VM's export directory.
pub open spec fn core_dir_of(vm: Seq<char>) -> Seq<char> {
    package_dir_of(vm) + "/domain-0:core-0"@
}

/// On-disk state of one VM's counter directory, as the store sees it.
pub ghost struct VmDirView {
    /// Contents of the domain-level label file.
    pub package_label: Seq<char>,
    /// Contents of the sub-domain-level label file.
    pub core_label: Seq<char>,
    /// Contents of the domain-level `energy_uj` file, if present.
    pub package_energy: Option<Seq<char>>,
    /// Contents of the sub-domain-level `energy_uj` file, if present.
    pub core_energy: Option<Seq<char>>,
}

/// One VM's counter directory: the two label files and the two counter
/// files of the fixed layout.
pub struct VmCounterDir {
    pub package_label: String,
    pub core_label: String,
    pub package_energy: Option<String>,
    pub core_energy: Option<String>,
}

impl View for VmCounterDir {
    type V = VmDirView;

    open spec fn view(&self) -> VmDirView {
        VmDirView {
            package_label: self.package_label@,
            core_label: self.core_label@,
            package_energy: match self.package_energy {
                None => None,
                Some(s) => Some(s@),
            },
            core_energy: match self.core_energy {
                None => None,
                Some(s) => Some(s@),
            },
        }
    }
}

/// What one energy update does to a VM directory: the new total is the
/// package-level reading plus the delta, rendered identically into both
/// counter files; labels are written only when the directory is first
/// created.
pub open spec fn spec_apply_energy(
    m: Map<Seq<char>, VmDirView>,
    path: Seq<char>,
    delta: u64,
) -> Map<Seq<char>, VmDirView> {
    let cur = if m.contains_key(path) {
        counter_num(m[path].package_energy)
    } else {
        0
    };
    let total = sat_add_u64(cur, delta as nat);
    let labels = if m.contains_key(path) {
        (m[path].package_label, m[path].core_label)
    } else {
        ("package-0"@, "core"@)
    };
    m.insert(
        path,
        VmDirView {
            package_label: labels.0,
            core_label: labels.1,
            package_energy: Some(dec_digits(total)),
            core_energy: Some(dec_digits(total)),
        },
    )
}

/// The export tree: every VM counter directory under the export root,
/// keyed by the VM's export path.
pub struct ExportTree {
    entries: Vec<(String, VmCounterDir)>,
}

/// The map an entry list denotes, later entries winning.
spec fn entries_map(s: Seq<(String, VmCounterDir)>) -> Map<Seq<char>, VmDirView>
    decreases s.len(),
{
    if s.len() == 0 {
        Map::empty()
    } else {
        entries_map(s.drop_last()).insert(s.last().0@, s.last().1@)
    }
}

impl View for ExportTree {
    type V = Map<Seq<char>, VmDirView>;

    closed spec fn view(&self) -> Map<Seq<char>, VmDirView> {
        entries_map(self.entries@)
    }
}

proof fn lemma_entries_map_index(s: Seq<(String, VmCounterDir)>, i: int)
    requires
        0 <= i < s.len(),
        forall|j: int| i < j < s.len() ==> (#[trigger] s[j]).0@ != s[i].0@,
    ensures
        entries_map(s).contains_key(s[i].0@),
        entries_map(s)[s[i].0@] == s[i].1@,
    decreases s.len(),
{
    if i == s.len() - 1 {
        assert(s.last() == s[i]);
    } else {
        assert(s.drop_last()[i] == s[i]);
        lemma_entries_map_index(s.drop_last(), i);
        assert(s.last() == s[s.len() - 1]);
        assert(s.last().0@ != s[i].0@);
    }
}

proof fn lemma_entries_map_absent(s: Seq<(String, VmCounterDir)>, k: Seq<char>)
    requires
        forall|j: int| 0 <= j < s.len() ==> (#[trigger] s[j]).0@ != k,
    ensures
        !entries_map(s).contains_key(k),
    decreases s.len(),
{
    if s.len() > 0 {
        assert(s.last() == s[s.len() - 1]);
        lemma_entries_map_absent(s.drop_last(), k);
    }
}

proof fn lemma_entries_map_update(
    s: Seq<(String, VmCounterDir)>,
    i: int,
    e: (String, VmCounterDir),
)
    requires
        0 <= i < s.len(),
        e.0@ == s[i].0@,
        forall|j1: int, j2: int|
            0 <= j1 < j2 < s.len() ==> (#[trigger] s[j1]).0@ != (#[trigger] s[j2]).0@,
    ensures
        entries_map(s.update(i, e)) =~= entries_map(s).insert(s[i].0@, e.1@),
    decreases s.len(),
{
    let t = s.update(i, e);
    if i == s.len() - 1 {
        assert(t.drop_last() =~= s.drop_last());
        assert(t.last() == e);
    } else {
        assert(t.drop_last() =~= s.drop_last().update(i, e));
        assert(t.last() == s.last());
        assert(s.drop_last()[i] == s[i]);
        lemma_entries_map_update(s.drop_last(), i, e);
        assert(s.last() == s[s.len() - 1]);
        assert(s.last().0@ != s[i].0@);
    }
}

impl ExportTree {
    /// Keys are unique: one directory per export path.
    pub closed spec fn wf(&self) -> bool {
        forall|j1: int, j2: int|
            0 <= j1 < j2 < self.entries@.len()
                ==> (#[trigger] self.entries@[j1]).0@ != (#[trigger] self.entries@[j2]).0@
    }

    /// An empty export root: no VM directory exists yet.
    pub fn new() -> (r: ExportTree)
        ensures
            r.wf(),
            r@ == Map::<Seq<char>, VmDirView>::empty(),
    {
        ExportTree { entries: Vec::new() }
    }

    fn find(&self, path: &String) -> (r: Option<usize>)
        ensures
            match r {
                Some(i) => i < self.entries@.len() && self.entries@[i as int].0@ == path@,
                None => forall|j: int|
                    0 <= j < self.entries@.len() ==> (#[trigger] self.entries@[j]).0@ != path@,
            },
    {
        let mut i: usize = 0;
        while i < self.entries.len()
            invariant
                0 <= i <= self.entries@.len(),
                forall|j: int| 0 <= j < i ==> (#[trigger] self.entries@[j]).0@ != path@,
            decreases self.entries@.len() - i,
        {
            if self.entries[i].0 == *path {
                return Some(i);
            }
            i = i + 1;
        }
        None
    }

    /// The current state of one VM's counter directory, if it exists.
    pub fn counter_dir(&self, path: &String) -> (r: Option<&VmCounterDir>)
        requires
            self.wf(),
        ensures
            match r {
                Some(d) => self@.contains_key(path@) && d@ == self@[path@],
                None => !self@.contains_key(path@),
            },
    {
        match self.find(path) {
            Some(i) => {
                proof {
                    lemma_entries_map_index(self.entries@, i as int);
                }
                Some(&self.entries[i].1)
            },
            None => {
                proof {
                    lemma_entries_map_absent(self.entries@, path@);
                }
                None
            },
        }
    }

    /// One energy update for one VM: read-modify-write of the package-level
    /// counter, the new total written identically into both counter files.
    /// On a path with no directory yet, the layout is created with its two
    /// label files and the counters start from zero.
    pub fn apply_energy(&mut self, vm_path: &String, delta: u64)
        requires
            old(self).wf(),
        ensures
            final(self).wf(),
            final(self)@ == spec_apply_energy(old(self)@, vm_path@, delta),
    {
        match self.find(vm_path) {
            None => {
                proof {
                    lemma_entries_map_absent(self.entries@, vm_path@);
                }
                let total = add_saturating(0, delta);
                let rendered = u64_to_dec(total);
                let dir = VmCounterDir {
                    package_label: package_label_str().to_owned(),
                    core_label: core_label_str().to_owned(),
                    package_energy: Some(rendered.clone()),
                    core_energy: Some(rendered),
                };
                let ghost s0 = self.entries@;
                self.entries.push((vm_path.clone(), dir));
                proof {
                    assert(self.entries@.drop_last() =~= s0);
                }
            },
            Some(i) => {
                proof {
                    lemma_entries_map_index(self.entries@, i as int);
                }
                let cur = match &self.entries[i].1.package_energy {
                    None => 0,
                    Some(s) => match parse_u64(s.as_str()) {
                        None => 0,
                        Some(v) => v,
                    },
                };
                let total = add_saturating(cur, delta);
                let rendered = u64_to_dec(total);
                let dir = VmCounterDir {
                    package_label: self.entries[i].1.package_label.clone(),
                    core_label: self.entries[i].1.core_label.clone(),
                    package_energy: Some(rendered.clone()),
                    core_energy: Some(rendered),
                };
                let key = self.entries[i].0.clone();
                let ghost s0 = self.entries@;
                let ghost e = (key, dir);
                self.entries.set(i, (key, dir));
                proof {
                    assert(self.entries@ =~= s0.update(i as int, e));
                    lemma_entries_map_update(s0, i as int, e);
                }
            },
        }
    }
}

/// The character sequences of an optional file content.
pub open spec fn opt_content(contents: &Option<String>) -> Option<Seq<char>> {
    match contents {
        None => None,
        Some(s) => Some(s@),
    }
}

/// The package-level domain directory of one VM, as a path.
pub fn package_dir_path(vm_path: &String) -> (r: String)
    ensures
        r@ == package_dir_of(vm_path@),
{
    let mut s = vm_path.clone();
    s.append("/domain-0");
    s
}

/// The package-level counter file of one VM, as a path.  Only this file is
/// read back: it is the source of truth the next update adds onto.
pub fn package_energy_file_path(vm_path: &String) -> (r: String)
    ensures
        r@ == package_dir_of(vm_path@) + "/energy_uj"@,
{
    let mut s = package_dir_path(vm_path);
    s.append("/energy_uj");
    s
}

/// Everything one energy update writes, computed from the current on-disk
/// observations so the caller only has to execute it: create the two
/// directories and write the two label files when the layout does not
/// exist yet, then write the new total into both counter files.
pub struct EnergyPlan {
    /// The package-level domain directory.
    pub package_dir: String,
    /// The core-level sub-domain directory.
    pub core_dir: String,
    /// Whether the directories and label files must be created first.
    pub create_layout: bool,
    /// The label file of the package-level domain, and its contents.
    pub package_name_file: String,
    pub package_label: String,
    /// The label file of the core-level sub-domain, and its contents.
    pub core_name_file: String,
    pub core_label: String,
    /// The two counter files, both receiving the same rendered total.
    pub package_energy_file: String,
    pub core_energy_file: String,
    /// The new cumulative total and its decimal rendering.
    pub total: u64,
    pub counter_value: String,
}

/// Computes one VM's counter update from what is currently on disk: the
/// new total is the package-level counter's reading (missing or
/// unparseable counts as zero) plus the delta.
pub fn plan_energy_update(
    vm_path: &String,
    layout_exists: bool,
    existing: &Option<String>,
    delta: u64,
) -> (r: EnergyPlan)
    ensures
        r.package_dir@ == package_dir_of(vm_path@),
        r.core_dir@ == core_dir_of(vm_path@),
        r.create_layout == !layout_exists,
        r.package_name_file@ == package_dir_of(vm_path@) + "/name"@,
        r.package_label@ == "package-0"@,
        r.core_name_file@ == core_dir_of(vm_path@) + "/name"@,
        r.core_label@ == "core"@,
        r.package_energy_file@ == package_dir_of(vm_path@) + "/energy_uj"@,
        r.core_energy_file@ == core_dir_of(vm_path@) + "/energy_uj"@,
        r.total == sat_add_u64(counter_num(opt_content(existing)), delta as nat),
        r.counter_value@ == dec_digits(r.total as nat),
{
    let package_dir = {
        let mut s = vm_path.clone();
        s.append("/domain-0");
        s
    };
    let core_dir = {
        let mut s = package_dir.clone();
        s.append("/domain-0:core-0");
        s
    };
    let package_name_file = {
        let mut s = package_dir.clone();
        s.append("/name");
        s
    };
    let core_name_file = {
        let mut s = core_dir.clone();
        s.append("/name");
        s
    };
    let package_energy_file = {
        let mut s = package_dir.clone();
        s.append("/energy_uj");
        s
    };
    let core_energy_file = {
        let mut s = core_dir.clone();
        s.append("/energy_uj");
        s
    };
    let cur = match existing {
        None => 0,
        Some(s) => match parse_u64(s.as_str()) {
            None => 0,
            Some(v) => v,
        },
    };
    let total = add_saturating(cur, delta);
    let counter_value = u64_to_dec(total);
    EnergyPlan {
        package_dir,
        core_dir,
        create_layout: !layout_exists,
        package_name_file,
        package_label: package_label_str().to_owned(),
        core_name_file,
        core_label: core_label_str().to_owned(),
        package_energy_file,
        core_energy_file,
        total,
        counter_value,
    }
}

/// Idempotent bootstrap: the first update on a path with no directory yet
/// creates the layout with its two label files; a second update on the same
/// path creates nothing — it leaves every directory and both labels as they
/// are and changes only this VM's counter contents.
pub proof fn lemma_idempotent_bootstrap(
    m: Map<Seq<char>, VmDirView>,
    path: Seq<char>,
    d1: u64,
    d2: u64,
)
    requires
        !m.contains_key(path),
    ensures
        ({
            let m1 = spec_apply_energy(m, path, d1);
            let m2 = spec_apply_energy(m1, path, d2);
            &&& m1.contains_key(path)
            &&& m1[path].package_label == "package-0"@
            &&& m1[path].core_label == "core"@
            &&& m2.dom() == m1.dom()
            &&& m2[path].package_label == m1[path].package_label
            &&& m2[path].core_label == m1[path].core_label
            &&& forall|p: Seq<char>|
                p != path && #[trigger] m1.contains_key(p) ==> m2[p] == m1[p]
        }),
{
    let m1 = spec_apply_energy(m, path, d1);
    let m2 = spec_apply_energy(m1, path, d2);
    assert(m2.dom() =~= m1.dom());
}

/// An update creates at most its own directory and deletes none: counter
/// directories appear lazily on first attribution and stay forever.
pub proof fn lemma_counters_never_deleted(
    m: Map<Seq<char>, VmDirView>,
    path: Seq<char>,
    delta: u64,
)
    ensures
        spec_apply_energy(m, path, delta).dom() == m.dom().insert(path),
{
    assert(spec_apply_energy(m, path, delta).dom() =~= m.dom().insert(path));
}

/// The energy the store has accumulated after a sequence of updates.
pub open spec fn seq_sum(deltas: Seq<u64>) -> nat
    decreases deltas.len(),
{
    if deltas.len() == 0 {
        0
    } else {
        (seq_sum(deltas.drop_last()) + deltas.last()) as nat
    }
}

/// The on-disk state after applying a sequence of deltas to one VM path.
pub open spec fn spec_apply_all(
    m: Map<Seq<char>, VmDirView>,
    path: Seq<char>,
    deltas: Seq<u64>,
) -> Map<Seq<char>, VmDirView>
    decreases deltas.len(),
{
    if deltas.len() == 0 {
        m
    } else {
        spec_apply_energy(spec_apply_all(m, path, deltas.drop_last()), path, deltas.last())
    }
}

/// Monotonic accumulation: applying any sequence of deltas to one VM path
/// leaves exactly their sum on disk.  Each update is read-modify-write on
/// the on-disk value alone, so the result does not depend on which store
/// instance performed which update — a restart between any two updates
/// changes nothing.
pub proof fn lemma_monotonic_accumulation(
    m: Map<Seq<char>, VmDirView>,
    path: Seq<char>,
    deltas: Seq<u64>,
)
    requires
        !m.contains_key(path),
        deltas.len() > 0,
        seq_sum(deltas) <= u64::MAX,
    ensures
        ({
            let mf = spec_apply_all(m, path, deltas);
            &&& mf.contains_key(path)
            &&& mf[path].package_energy == Some(dec_digits(seq_sum(deltas)))
            &&& mf[path].core_energy == Some(dec_digits(seq_sum(deltas)))
            &&& counter_num(mf[path].package_energy) == seq_sum(deltas)
        }),
    decreases deltas.len(),
{
    let pre = deltas.drop_last();
    let d = deltas.last();
    let mf = spec_apply_all(m, path, deltas);
    assert(mf == spec_apply_energy(spec_apply_all(m, path, pre), path, d));
    if pre.len() == 0 {
        assert(spec_apply_all(m, path, pre) == m);
        assert(seq_sum(pre) == 0);
        lemma_dec_round_trip(d as nat);
        assert(sat_add_u64(0, d as nat) == d as nat);
        assert(mf[path].package_energy == Some(dec_digits(d as nat)));
        assert(counter_num(mf[path].package_energy) == d as nat);
    } else {
        assert(seq_sum(pre) + d == seq_sum(deltas));
        lemma_monotonic_accumulation(m, path, pre);
        let m1 = spec_apply_all(m, path, pre);
        lemma_dec_round_trip(seq_sum(pre));
        assert(counter_num(m1[path].package_energy) == seq_sum(pre));
        assert(sat_add_u64(seq_sum(pre), d as nat) == seq_sum(deltas));
        assert(mf[path].package_energy == Some(dec_digits(seq_sum(deltas))));
        lemma_dec_round_trip(seq_sum(deltas));
        assert(counter_num(mf[path].package_energy) == seq_sum(deltas));
    }
}

fn package_label_str() -> (r: &'static str)
    ensures
        r@ == "package-0"@,
{
    "package-0"
}

fn core_label_str() -> (r: &'static str)
    ensures
        r@ == "core"@,
{
    "core"
}

/// Saturating counter addition: the counter never wraps.
pub fn add_saturating(a: u64, b: u64) -> (r: u64)
    ensures
        r == sat_add_u64(a as nat, b as nat),
{
    if b > u64::MAX - a {
        u64::MAX
    } else {
        a + b
    }
}

} // verus!
