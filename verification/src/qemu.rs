//! Qemu export pipeline: classifying live processes into virtual-machine
//! groups, deriving each group's VM name from its launch command line, and
//! accumulating each group's attributed energy into the per-VM counter tree.

use vstd::prelude::*;
use vstd::string::StrSliceExecFns;
use vstd::string::StringExecFns;
use crate::counters::{ExportTree, VmDirView, spec_apply_energy};
use crate::text::{
    contains_seq, contains_str, find_char_from, first_at_or_after, lemma_first_at_or_after,
    starts_with_str, str_eq,
};
use crate::{attributed_energy, FACTOR_SCALE};

verus! {

/// One historical sample of a live process: its id and the command-line
/// tokens observed for it.
#[derive(Clone)]
pub struct ProcessRecord {
    pub pid: u64,
    pub cmdline: Vec<String>,
}

/// The character sequences of a token list.
pub open spec fn toks_of(cmdline: Seq<String>) -> Seq<Seq<char>> {
    cmdline.map_values(|s: String| s@)
}

/// The `guest=` key/value marker of a hypervisor guest command line.
pub open spec fn guest_marker() -> Seq<char> {
    "guest="@
}

/// The flag whose following token names a VM under the orchestration
/// product's numbering convention.
pub open spec fn id_flag() -> Seq<char> {
    "-id"@
}

pub open spec fn is_guest_token(tok: Seq<char>) -> bool {
    tok.len() >= guest_marker().len() && tok.subrange(0, guest_marker().len() as int)
        == guest_marker()
}

/// The name carried by a `guest=` token: everything after the marker up to
/// the next comma.
pub open spec fn guest_name_of(tok: Seq<char>) -> Seq<char> {
    tok.subrange(
        guest_marker().len() as int,
        first_at_or_after(tok, guest_marker().len() as int, ','),
    )
}

/// The first `guest=` token at or after `from`, or the token count.
pub open spec fn first_guest_at(toks: Seq<Seq<char>>, from: int) -> int
    decreases toks.len() - from,
{
    if from < 0 || from >= toks.len() {
        toks.len() as int
    } else if is_guest_token(toks[from]) {
        from
    } else {
        first_guest_at(toks, from + 1)
    }
}

/// The first token pair led by the id flag at or after `from`, or the token
/// count when no pair remains.
pub open spec fn first_id_at(toks: Seq<Seq<char>>, from: int) -> int
    decreases toks.len() - from,
{
    if from < 0 || from + 1 >= toks.len() {
        toks.len() as int
    } else if toks[from] == id_flag() {
        from
    } else {
        first_id_at(toks, from + 1)
    }
}

/// The VM name a command line yields: the `guest=` marker always wins; the
/// id-flag pair is the fallback; a command line with neither yields the
/// empty name.  An empty name makes the export path collapse onto the
/// shared export root, silently merging unrelated VMs' totals — kept as the
/// documented behaviour of this layer.
pub open spec fn spec_vm_name(toks: Seq<Seq<char>>) -> Seq<char> {
    if first_guest_at(toks, 0) < toks.len() {
        guest_name_of(toks[first_guest_at(toks, 0)])
    } else if first_id_at(toks, 0) < toks.len() {
        toks[first_id_at(toks, 0) + 1]
    } else {
        Seq::empty()
    }
}

/// A token betraying a hypervisor guest process: the emulator binary name
/// or its conventional path.
pub open spec fn is_qemu_cmdline(toks: Seq<Seq<char>>) -> bool {
    exists|i: int|
        0 <= i < toks.len() && (contains_seq(#[trigger] toks[i], "qemu-system"@) || contains_seq(
            toks[i],
            "/usr/bin/kvm"@,
        ))
}

/// A chain belongs to a VM group when its most recent sample's command line
/// carries a guest signature.
pub open spec fn is_qemu_chain(c: Vec<ProcessRecord>) -> bool {
    c@.len() > 0 && is_qemu_cmdline(toks_of(c@.last().cmdline@))
}

/// The group predicate, as a value for sequence filtering.
pub open spec fn qemu_chain_pred() -> spec_fn(Vec<ProcessRecord>) -> bool {
    |c: Vec<ProcessRecord>| is_qemu_chain(c)
}

/// Only chains with more than two historical samples are attributed:
/// anything younger is not yet trusted.
pub open spec fn eligible(c: Vec<ProcessRecord>) -> bool {
    c@.len() > 2
}

/// The representative process id of a chain: its most recent sample's.
pub open spec fn chain_pid(c: Vec<ProcessRecord>) -> u64 {
    c@.last().pid
}

/// One VM's export directory under the export root.
pub open spec fn vm_export_path(root: Seq<char>, name: Seq<char>) -> Seq<char> {
    root + "/"@ + name
}

/// An attribution factor for one process id, in parts per million.
#[derive(Clone)]
pub struct Attribution {
    pub pid: u64,
    pub factor_ppm: u64,
}

/// The factor recorded for a process id, first record winning.
pub open spec fn spec_factor_of(factors: Seq<Attribution>, pid: u64) -> Option<u64>
    decreases factors.len(),
{
    if factors.len() == 0 {
        None
    } else if factors[0].pid == pid {
        Some(factors[0].factor_ppm)
    } else {
        spec_factor_of(factors.subrange(1, factors.len() as int), pid)
    }
}

/// What one eligible chain contributes to the export tree during a tick:
/// nothing when the chain is too young or has no attribution factor yet,
/// else one counter update of its share of the interval's dynamic energy.
pub open spec fn spec_chain_update(
    m: Map<Seq<char>, VmDirView>,
    root: Seq<char>,
    energy_uj: u64,
    c: Vec<ProcessRecord>,
    factors: Seq<Attribution>,
) -> Map<Seq<char>, VmDirView> {
    if !eligible(c) {
        m
    } else {
        match spec_factor_of(factors, chain_pid(c)) {
            None => m,
            Some(ppm) => spec_apply_energy(
                m,
                vm_export_path(root, spec_vm_name(toks_of(c@[0].cmdline@))),
                ((energy_uj * ppm) / (FACTOR_SCALE as int)) as u64,
            ),
        }
    }
}

/// The export tree after one tick's updates, chains processed in order.
pub open spec fn spec_tick_updates(
    m: Map<Seq<char>, VmDirView>,
    root: Seq<char>,
    energy_uj: u64,
    chains: Seq<Vec<ProcessRecord>>,
    factors: Seq<Attribution>,
) -> Map<Seq<char>, VmDirView>
    decreases chains.len(),
{
    if chains.len() == 0 {
        m
    } else {
        spec_tick_updates(
            spec_chain_update(m, root, energy_uj, chains[0], factors),
            root,
            energy_uj,
            chains.subrange(1, chains.len() as int),
            factors,
        )
    }
}

/// Nominal tick duration of the export loop, in seconds.
pub const TICK_SECONDS: u64 = 5;

/// Cumulative tick-time budget between cleanup passes, in seconds.
pub const CLEANER_STEP_SECONDS: u64 = 120;

/// Exporter that stores power consumption data of running virtual machines
/// as folders and files laid out like a hardware energy-accounting
/// pseudo-filesystem, so the machines' own tooling can read them unchanged.
pub struct QemuExporter {
    /// Seconds left of the cleanup-timer budget; it decrements by the
    /// nominal tick duration, not by measured wall-clock time, so the
    /// actual cleanup cadence drifts when ticks are delayed — expected
    /// behaviour, not corrected here.
    pub cleanup_timer_s: u64,
}

impl QemuExporter {
    /// A fresh exporter with a full cleanup budget.
    pub fn new() -> (r: QemuExporter)
        ensures
            r.cleanup_timer_s == CLEANER_STEP_SECONDS,
    {
        QemuExporter { cleanup_timer_s: CLEANER_STEP_SECONDS }
    }

    /// The exporter's kind label.
    pub fn kind(&self) -> (r: &'static str)
        ensures
            r@ == "qemu"@,
    {
        "qemu"
    }

    /// Advances the cleanup timer by one nominal tick; true exactly when
    /// the budget is exhausted and the terminated-record cleanup pass is
    /// due, upon which the budget starts over.
    pub fn cleanup_tick(&mut self) -> (r: bool)
        ensures
            r == (old(self).cleanup_timer_s <= TICK_SECONDS),
            final(self).cleanup_timer_s == if old(self).cleanup_timer_s > TICK_SECONDS {
                (old(self).cleanup_timer_s - TICK_SECONDS) as u64
            } else {
                CLEANER_STEP_SECONDS
            },
    {
        if self.cleanup_timer_s > TICK_SECONDS {
            self.cleanup_timer_s = self.cleanup_timer_s - TICK_SECONDS;
            false
        } else {
            self.cleanup_timer_s = CLEANER_STEP_SECONDS;
            true
        }
    }

    /// Parses a command line and returns the name of the qemu virtual
    /// machine it launches.
    pub fn get_vm_name_from_cmdline(cmdline: &Vec<String>) -> (r: String)
        ensures
            r@ == spec_vm_name(toks_of(cmdline@)),
    {
        let ghost toks = toks_of(cmdline@);
        let n = cmdline.len();
        let mut i: usize = 0;
        while i < n
            invariant
                0 <= i <= n,
                n == cmdline@.len(),
                toks == toks_of(cmdline@),
                first_guest_at(toks, 0) == first_guest_at(toks, i as int),
            decreases n - i,
        {
            proof {
                assert(toks[i as int] == cmdline@[i as int]@);
            }
            let tok = &cmdline[i];
            if starts_with_str(tok.as_str(), "guest=") {
                let gl = "guest=".unicode_len();
                proof {
                    assert(is_guest_token(toks[i as int]));
                    assert(first_guest_at(toks, i as int) == i as int);
                    lemma_first_at_or_after(tok@, gl as int, ',');
                }
                let comma = find_char_from(tok.as_str(), gl, ',');
                let name = tok.as_str().substring_char(gl, comma);
                return name.to_owned();
            }
            proof {
                assert(!is_guest_token(toks[i as int]));
                assert(first_guest_at(toks, i as int) == first_guest_at(toks, i as int + 1));
            }
            i = i + 1;
        }
        proof {
            assert(first_guest_at(toks, 0) == toks.len() as int);
        }
        let mut i: usize = 0;
        while n - i > 1
            invariant
                0 <= i <= n,
                n == cmdline@.len(),
                toks == toks_of(cmdline@),
                first_guest_at(toks, 0) == toks.len() as int,
                first_id_at(toks, 0) == first_id_at(toks, i as int),
            decreases n - i,
        {
            proof {
                assert(toks[i as int] == cmdline@[i as int]@);
            }
            if str_eq(cmdline[i].as_str(), "-id") {
                let r = cmdline[i + 1].clone();
                proof {
                    assert(toks[i as int] == id_flag());
                    assert(i as int + 1 < toks.len());
                    assert(first_id_at(toks, i as int) == i as int);
                    assert(toks[i as int + 1] == cmdline@[i as int + 1]@);
                    assert(spec_vm_name(toks) == toks[i as int + 1]);
                    assert(r@ == toks[i as int + 1]);
                }
                return r;
            }
            proof {
                assert(first_id_at(toks, i as int) == first_id_at(toks, i as int + 1));
            }
            i = i + 1;
        }
        proof {
            assert(first_id_at(toks, i as int) == toks.len() as int);
        }
        String::new()
    }

    /// Keeps the process chains whose most recent command line carries a
    /// recognized hypervisor-guest signature.
    pub fn filter_qemu_vm_processes(processes: Vec<Vec<ProcessRecord>>) -> (r: Vec<
        Vec<ProcessRecord>,
    >)
        ensures
            r@ == processes@.filter(qemu_chain_pred()),
    {
        let ghost orig = processes@;
        let ghost pred = qemu_chain_pred();
        let mut rest = processes;
        let mut out: Vec<Vec<ProcessRecord>> = Vec::new();
        let ghost mut k: int = 0;
        proof {
            reveal(Seq::filter);
            assert(orig.subrange(0, 0).filter(pred) =~= Seq::<Vec<ProcessRecord>>::empty());
            assert(rest@ =~= orig.subrange(0, orig.len() as int));
        }
        while rest.len() > 0
            invariant
                0 <= k <= orig.len(),
                rest@ == orig.subrange(k, orig.len() as int),
                out@ == orig.subrange(0, k).filter(pred),
                pred == qemu_chain_pred(),
            decreases rest@.len(),
        {
            let c = rest.remove(0);
            proof {
                assert(c == orig[k]);
                assert(rest@ =~= orig.subrange(k + 1, orig.len() as int));
            }
            let keep = chain_matches(&c);
            proof {
                let p1 = orig.subrange(0, k + 1);
                assert(p1.drop_last() =~= orig.subrange(0, k));
                assert(p1.last() == orig[k]);
                reveal(Seq::filter);
            }
            if keep {
                out.push(c);
            }
            proof {
                k = k + 1;
            }
        }
        proof {
            assert(orig.subrange(0, k) =~= orig);
        }
        out
    }
}

impl QemuExporter {
    /// One export tick: group the live process chains into VM groups, and
    /// for each eligible group with an attribution factor, accumulate its
    /// share of the interval's dynamic energy into the VM's counter
    /// directory under the export root.  An interval that yielded no
    /// result skips the whole tick: the export tree is left untouched and
    /// no error is raised.
    pub fn iterate(
        &self,
        path: &String,
        energy_uj: Option<u64>,
        processes: Vec<Vec<ProcessRecord>>,
        factors: &Vec<Attribution>,
        tree: &mut ExportTree,
    )
        requires
            old(tree).wf(),
            forall|i: int|
                0 <= i < factors@.len() ==> (#[trigger] factors@[i]).factor_ppm <= FACTOR_SCALE,
        ensures
            final(tree).wf(),
            energy_uj is None ==> final(tree)@ == old(tree)@,
            energy_uj is Some ==> final(tree)@ == spec_tick_updates(
                old(tree)@,
                path@,
                energy_uj->Some_0,
                processes@.filter(qemu_chain_pred()),
                factors@,
            ),
    {
        let e = match energy_uj {
            None => {
                return ;
            },
            Some(e) => e,
        };
        let ghost chains = processes@.filter(qemu_chain_pred());
        let ghost m0 = tree@;
        let qemu_processes = Self::filter_qemu_vm_processes(processes);
        let n = qemu_processes.len();
        let mut i: usize = 0;
        proof {
            assert(chains.subrange(0, n as int) =~= chains);
        }
        while i < n
            invariant
                0 <= i <= n,
                n == chains.len(),
                qemu_processes@ == chains,
                tree.wf(),
                forall|j: int|
                    0 <= j < factors@.len() ==> (#[trigger] factors@[j]).factor_ppm
                        <= FACTOR_SCALE,
                spec_tick_updates(tree@, path@, e, chains.subrange(i as int, n as int), factors@)
                    == spec_tick_updates(m0, path@, e, chains, factors@),
            decreases n - i,
        {
            let ghost rem = chains.subrange(i as int, n as int);
            let ghost cv = chains[i as int];
            proof {
                assert(rem[0] == cv);
                assert(rem.subrange(1, rem.len() as int) =~= chains.subrange(
                    i as int + 1,
                    n as int,
                ));
                assert(spec_tick_updates(tree@, path@, e, rem, factors@) == spec_tick_updates(
                    spec_chain_update(tree@, path@, e, cv, factors@),
                    path@,
                    e,
                    chains.subrange(i as int + 1, n as int),
                    factors@,
                ));
            }
            let c = &qemu_processes[i];
            if c.len() > 2 {
                let name = Self::get_vm_name_from_cmdline(&c[0].cmdline);
                let mut exported = path.clone();
                exported.append("/");
                exported.append(name.as_str());
                proof {
                    assert(exported@ == vm_export_path(
                        path@,
                        spec_vm_name(toks_of(cv@[0].cmdline@)),
                    ));
                }
                let pid = c[c.len() - 1].pid;
                proof {
                    assert(c@.last() == c@[c@.len() - 1]);
                    assert(pid == chain_pid(cv));
                }
                match factor_of(factors, pid) {
                    None => {
                        proof {
                            assert(spec_chain_update(tree@, path@, e, cv, factors@) == tree@);
                        }
                    },
                    Some(ppm) => {
                        let share = attributed_energy(e, ppm);
                        proof {
                            assert(share as int == (e * ppm) / (FACTOR_SCALE as int));
                            assert(((e * ppm) / (FACTOR_SCALE as int)) as u64 == share);
                        }
                        tree.apply_energy(&exported, share);
                    },
                }
            } else {
                proof {
                    assert(!eligible(cv));
                    assert(spec_chain_update(tree@, path@, e, cv, factors@) == tree@);
                }
            }
            i = i + 1;
        }
        proof {
            assert(chains.subrange(n as int, n as int) =~= Seq::<Vec<ProcessRecord>>::empty());
        }
    }
}

/// Default export root, conventionally under the host's virtualization
/// data directory.
pub fn default_export_path() -> (r: &'static str)
    ensures
        r@ == "/var/lib/libvirt/scaphandre"@,
{
    "/var/lib/libvirt/scaphandre"
}

/// The export directory of one VM under the export root.
pub fn export_dir_for(root: &String, name: &String) -> (r: String)
    ensures
        r@ == vm_export_path(root@, name@),
{
    let mut s = root.clone();
    s.append("/");
    s.append(name.as_str());
    s
}

/// The attribution factor on record for a process id, if any.
fn factor_of(factors: &Vec<Attribution>, pid: u64) -> (r: Option<u64>)
    ensures
        r == spec_factor_of(factors@, pid),
        r is Some ==> exists|i: int|
            0 <= i < factors@.len() && (#[trigger] factors@[i]).factor_ppm == r->Some_0,
{
    let n = factors.len();
    let mut i: usize = 0;
    proof {
        assert(factors@.subrange(0, n as int) =~= factors@);
    }
    while i < n
        invariant
            0 <= i <= n,
            n == factors@.len(),
            spec_factor_of(factors@, pid) == spec_factor_of(
                factors@.subrange(i as int, n as int),
                pid,
            ),
        decreases n - i,
    {
        let ghost rem = factors@.subrange(i as int, n as int);
        proof {
            assert(rem[0] == factors@[i as int]);
            assert(rem.subrange(1, rem.len() as int) =~= factors@.subrange(
                i as int + 1,
                n as int,
            ));
        }
        if factors[i].pid == pid {
            return Some(factors[i].factor_ppm);
        }
        i = i + 1;
    }
    proof {
        assert(factors@.subrange(n as int, n as int) =~= Seq::<Attribution>::empty());
    }
    None
}

/// Whether any token of the command line carries a guest signature.
fn cmdline_matches(cmdline: &Vec<String>) -> (r: bool)
    ensures
        r == is_qemu_cmdline(toks_of(cmdline@)),
{
    let ghost toks = toks_of(cmdline@);
    let mut i: usize = 0;
    while i < cmdline.len()
        invariant
            0 <= i <= cmdline@.len(),
            toks == toks_of(cmdline@),
            forall|j: int|
                0 <= j < i ==> !contains_seq(#[trigger] toks[j], "qemu-system"@) && !contains_seq(
                    toks[j],
                    "/usr/bin/kvm"@,
                ),
        decreases cmdline@.len() - i,
    {
        proof {
            assert(toks[i as int] == cmdline@[i as int]@);
        }
        if contains_str(cmdline[i].as_str(), "qemu-system") || contains_str(
            cmdline[i].as_str(),
            "/usr/bin/kvm",
        ) {
            return true;
        }
        i = i + 1;
    }
    false
}

/// Whether the chain's most recent sample carries a guest signature.
fn chain_matches(c: &Vec<ProcessRecord>) -> (r: bool)
    ensures
        r == is_qemu_chain(*c),
{
    if c.len() == 0 {
        return false;
    }
    let last = &c[c.len() - 1];
    proof {
        assert(c@.last() == c@[c@.len() - 1]);
    }
    cmdline_matches(&last.cmdline)
}

/// A process chain whose command line never matches the recognized guest
/// signatures is excluded from every VM group, regardless of its other
/// attributes.
pub proof fn lemma_classifier_selectivity(processes: Seq<Vec<ProcessRecord>>, c: Vec<ProcessRecord>)
    requires
        forall|j: int| 0 <= j < c@.len() ==> !is_qemu_cmdline(toks_of(#[trigger] c@[j].cmdline@)),
    ensures
        !processes.filter(qemu_chain_pred()).contains(c),
{
    if c@.len() > 0 {
        assert(c@.last() == c@[c@.len() - 1]);
    }
    assert(!is_qemu_chain(c));
    if processes.filter(qemu_chain_pred()).contains(c) {
        let i = choose|i: int|
            0 <= i < processes.filter(qemu_chain_pred()).len() && processes.filter(
                qemu_chain_pred(),
            )[i] == c;
        processes.lemma_filter_pred(qemu_chain_pred(), i);
    }
}

} // verus!
