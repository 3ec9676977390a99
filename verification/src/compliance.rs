//! The rules that the disks of virtual machines are held to where they lie
//! on StorPool-backed storage.

use crate::text::{decimal, decimal_string, same_text};
use crate::types::{text_view, views, Storage, StorageView, VmConfig, VmDisk, VmDiskType, VmDiskView};
use vstd::prelude::*;
use vstd::string::StringExecFns;

verus! {

/// The rules that a disk may break.
#[derive(Debug, Clone, Copy, PartialEq, Eq, Structural)]
pub enum Rule {
    /// The storage of the disk is one that the cluster defines.
    Storage,
    /// The disk is a virtio disk.
    DiskType,
    /// The option `cache`, where it is set, is `none`.
    Cache,
    /// The option `discard` is set, to `on`.
    Discard,
    /// The option `iothread` is set, to `1`.
    Iothread,
}

/// A disk that breaks a rule.
#[derive(Debug, Clone, PartialEq, Eq)]
pub struct Violation {
    /// The virtual machine that the disk belongs to.
    pub vmid: u32,
    /// The type of the disk.
    pub disk_type: VmDiskType,
    /// The index of the disk among the disks of its type.
    pub idx: u32,
    /// The rule that the disk breaks.
    pub rule: Rule,
    /// What was found in place of what the rule asks for: the name of the
    /// storage, or the value of the option where it is set.
    pub found: Option<String>,
}

/// A [`Violation`] as plain data, for use in contracts.
pub struct ViolationView {
    pub vmid: u32,
    pub disk_type: VmDiskType,
    pub idx: u32,
    pub rule: Rule,
    pub found: Option<Seq<char>>,
}

impl View for Violation {
    type V = ViolationView;

    open spec fn view(&self) -> ViolationView {
        ViolationView {
            vmid: self.vmid,
            disk_type: self.disk_type,
            idx: self.idx,
            rule: self.rule,
            found: text_view(self.found),
        }
    }
}

impl Rule {
    /// The option that the rule is about, for a rule on an option.
    pub open spec fn option_name(self) -> Seq<char> {
        match self {
            Rule::Cache => "cache"@,
            Rule::Discard => "discard"@,
            Rule::Iothread => "iothread"@,
            _ => Seq::empty(),
        }
    }

    /// The value that the rule asks for, for a rule on an option.
    pub open spec fn option_value(self) -> Seq<char> {
        match self {
            Rule::Cache => "none"@,
            Rule::Discard => "on"@,
            Rule::Iothread => "1"@,
            _ => Seq::empty(),
        }
    }

    /// Whether the rule asks for the option to be set, for a rule on an
    /// option.
    pub open spec fn option_required(self) -> bool {
        match self {
            Rule::Discard => true,
            Rule::Iothread => true,
            _ => false,
        }
    }

    fn required(self) -> (r: bool)
        ensures
            r == self.option_required(),
    {
        match self {
            Rule::Discard => true,
            Rule::Iothread => true,
            _ => false,
        }
    }

    fn name(self) -> (r: &'static str)
        ensures
            r@ == self.option_name(),
    {
        match self {
            Rule::Cache => "cache",
            Rule::Discard => "discard",
            Rule::Iothread => "iothread",
            _ => {
                let r = "";
                proof {
                    reveal_strlit("");
                    assert(r@ =~= Seq::<char>::empty());
                }
                r
            },
        }
    }

    fn value(self) -> (r: &'static str)
        ensures
            r@ == self.option_value(),
    {
        match self {
            Rule::Cache => "none",
            Rule::Discard => "on",
            Rule::Iothread => "1",
            _ => {
                let r = "";
                proof {
                    reveal_strlit("");
                    assert(r@ =~= Seq::<char>::empty());
                }
                r
            },
        }
    }
}

impl ViolationView {
    /// The words that tell the disk: its type, its index, and its virtual
    /// machine.
    pub open spec fn disk_id(self) -> Seq<char> {
        "the "@ + self.disk_type.word() + decimal(self.idx as nat) + " disk for VM "@ + decimal(
            self.vmid as nat,
        )
    }

    /// What was found, or nothing where nothing was.
    pub open spec fn found_text(self) -> Seq<char> {
        match self.found {
            Some(text) => text,
            None => Seq::empty(),
        }
    }

    /// The line that tells an operator of the violation.
    pub open spec fn message(self) -> Seq<char> {
        match self.rule {
            Rule::Storage => "Invalid type "@ + self.found_text() + " for "@ + self.disk_id(),
            Rule::DiskType => "Disk type '"@ + self.disk_type.word() + "' instead of 'virtio' for "@
                + self.disk_id(),
            _ => match self.found {
                Some(text) => "Expected '"@ + self.rule.option_name() + "="@
                    + self.rule.option_value() + "' for "@ + self.disk_id() + ", got '"@ + text
                    + "'"@,
                None => "No '"@ + self.rule.option_name() + "' defined for "@ + self.disk_id(),
            },
        }
    }
}

impl Violation {
    /// The words that tell the disk: its type, its index, and its virtual
    /// machine.
    pub fn disk_id(&self) -> (r: String)
        ensures
            r@ == self@.disk_id(),
    {
        let mut text = String::from_str("the ");
        text.append(self.disk_type.as_ref());
        text.append(decimal_string(self.idx).as_str());
        text.append(" disk for VM ");
        text.append(decimal_string(self.vmid).as_str());
        text
    }

    /// The line that tells an operator of the violation.
    pub fn message(&self) -> (r: String)
        ensures
            r@ == self@.message(),
    {
        let disk_id = self.disk_id();
        match self.rule {
            Rule::Storage => {
                let mut text = String::from_str("Invalid type ");
                match &self.found {
                    Some(found) => {
                        text.append(found.as_str());
                    },
                    None => {
                        assert(text@ + Seq::<char>::empty() =~= text@);
                    },
                }
                text.append(" for ");
                text.append(disk_id.as_str());
                text
            },
            Rule::DiskType => {
                let mut text = String::from_str("Disk type '");
                text.append(self.disk_type.as_ref());
                text.append("' instead of 'virtio' for ");
                text.append(disk_id.as_str());
                text
            },
            _ => match &self.found {
                Some(found) => {
                    let mut text = String::from_str("Expected '");
                    text.append(self.rule.name());
                    text.append("=");
                    text.append(self.rule.value());
                    text.append("' for ");
                    text.append(disk_id.as_str());
                    text.append(", got '");
                    text.append(found.as_str());
                    text.append("'");
                    text
                },
                None => {
                    let mut text = String::from_str("No '");
                    text.append(self.rule.name());
                    text.append("' defined for ");
                    text.append(disk_id.as_str());
                    text
                },
            },
        }
    }
}

/// The driver whose storage the rules are about.
pub open spec fn policy_driver() -> Seq<char> {
    "storpool"@
}

/// What the rule on the type of a disk finds.
pub open spec fn type_violations(vmid: u32, disk: VmDiskView) -> Seq<ViolationView> {
    if disk.disk_type == VmDiskType::Virtio {
        Seq::empty()
    } else {
        seq![
            ViolationView {
                vmid,
                disk_type: disk.disk_type,
                idx: disk.idx,
                rule: Rule::DiskType,
                found: None,
            },
        ]
    }
}

/// What a rule on an option of a disk finds: the option must have the
/// value that the rule asks for where it is set, and must be set where the
/// rule asks for that.
pub open spec fn option_violations(vmid: u32, disk: VmDiskView, rule: Rule) -> Seq<ViolationView> {
    let name = rule.option_name();
    if disk.options.contains_key(name) {
        if disk.options[name] == rule.option_value() {
            Seq::empty()
        } else {
            seq![
                ViolationView {
                    vmid,
                    disk_type: disk.disk_type,
                    idx: disk.idx,
                    rule,
                    found: Some(disk.options[name]),
                },
            ]
        }
    } else if rule.option_required() {
        seq![ViolationView { vmid, disk_type: disk.disk_type, idx: disk.idx, rule, found: None }]
    } else {
        Seq::empty()
    }
}

/// What the rules find on a disk that lies on storage of the driver that
/// they are about. Each rule is applied, whatever the others find.
pub open spec fn rule_violations(vmid: u32, disk: VmDiskView) -> Seq<ViolationView> {
    type_violations(vmid, disk) + option_violations(vmid, disk, Rule::Cache) + option_violations(
        vmid,
        disk,
        Rule::Discard,
    ) + option_violations(vmid, disk, Rule::Iothread)
}

/// The storage that is defined under a name, if one is. Of two definitions
/// under one name the later one counts.
pub open spec fn storage_named(storage: Seq<StorageView>, name: Seq<char>) -> Option<StorageView>
    decreases storage.len(),
{
    if storage.len() == 0 {
        None
    } else if storage.last().storage == name {
        Some(storage.last())
    } else {
        storage_named(storage.drop_last(), name)
    }
}

/// The driver of the storage that is defined under a name, if one is.
pub open spec fn storage_driver(storage: Seq<StorageView>, name: Seq<char>) -> Option<Seq<char>> {
    match storage_named(storage, name) {
        Some(found) => Some(found.storage_type),
        None => None,
    }
}

/// What is found on one disk of a virtual machine: a disk on storage that
/// is not defined breaks the rule on the storage; a disk on storage of
/// another driver is passed over; any other disk is held to the rules.
pub open spec fn disk_violations(storage: Seq<StorageView>, vmid: u32, disk: VmDiskView) -> Seq<
    ViolationView,
> {
    match storage_driver(storage, disk.storage) {
        None => seq![
            ViolationView {
                vmid,
                disk_type: disk.disk_type,
                idx: disk.idx,
                rule: Rule::Storage,
                found: Some(disk.storage),
            },
        ],
        Some(driver) => if driver == policy_driver() {
            rule_violations(vmid, disk)
        } else {
            Seq::empty()
        },
    }
}

/// What is found on the disks of a virtual machine, disk after disk.
pub open spec fn config_violations(storage: Seq<StorageView>, vmid: u32, disks: Seq<VmDiskView>) -> Seq<
    ViolationView,
>
    decreases disks.len(),
{
    if disks.len() == 0 {
        Seq::empty()
    } else {
        config_violations(storage, vmid, disks.drop_last()) + disk_violations(
            storage,
            vmid,
            disks.last(),
        )
    }
}

/// A disk whose storage the cluster does not define is always found to
/// break a rule, whatever else is known of the disk.
pub proof fn lemma_unknown_storage_is_found(storage: Seq<StorageView>, vmid: u32, disk: VmDiskView)
    requires
        storage_driver(storage, disk.storage) is None,
    ensures
        disk_violations(storage, vmid, disk).len() == 1,
        disk_violations(storage, vmid, disk)[0].rule == Rule::Storage,
{
}

/// A disk on storage of another driver is never found to break a rule,
/// whatever its type and its options are.
pub proof fn lemma_other_driver_is_passed_over(
    storage: Seq<StorageView>,
    vmid: u32,
    disk: VmDiskView,
)
    requires
        storage_driver(storage, disk.storage) matches Some(driver) && driver != policy_driver(),
    ensures
        disk_violations(storage, vmid, disk).len() == 0,
{
}

/// What is found on a disk of a virtual machine is among what is found on
/// its disks: a disk that breaks a rule makes its virtual machine one on
/// which problems are found.
pub proof fn lemma_config_violations_hold(
    storage: Seq<StorageView>,
    vmid: u32,
    disks: Seq<VmDiskView>,
    i: int,
)
    requires
        0 <= i < disks.len(),
    ensures
        config_violations(storage, vmid, disks).len() >= disk_violations(storage, vmid, disks[i]).len(),
    decreases disks.len(),
{
    if i < disks.len() - 1 {
        lemma_config_violations_hold(storage, vmid, disks.drop_last(), i);
    }
}

/// Problems are found on a virtual machine exactly if they are found on one
/// of its disks: the order of the disks does not matter to that.
pub proof fn lemma_config_problems(storage: Seq<StorageView>, vmid: u32, disks: Seq<VmDiskView>)
    ensures
        config_violations(storage, vmid, disks).len() > 0 <==> exists|k: int|
            0 <= k < disks.len() && disk_violations(storage, vmid, #[trigger] disks[k]).len() > 0,
    decreases disks.len(),
{
    if disks.len() > 0 {
        let front = disks.drop_last();
        lemma_config_problems(storage, vmid, front);
        if config_violations(storage, vmid, disks).len() > 0 {
            if disk_violations(storage, vmid, disks.last()).len() > 0 {
                assert(disk_violations(storage, vmid, disks[disks.len() - 1]).len() > 0);
            } else {
                let k = choose|k: int|
                    0 <= k < front.len() && disk_violations(storage, vmid, #[trigger] front[k]).len()
                        > 0;
                assert(disk_violations(storage, vmid, disks[k]).len() > 0);
            }
        }
        if exists|k: int|
            0 <= k < disks.len() && disk_violations(storage, vmid, #[trigger] disks[k]).len() > 0 {
            let k = choose|k: int|
                0 <= k < disks.len() && disk_violations(storage, vmid, #[trigger] disks[k]).len() > 0;
            lemma_config_violations_hold(storage, vmid, disks, k);
        }
    }
}

/// Adds a violation to the log.
fn record(
    log: &mut Vec<Violation>,
    vmid: u32,
    disk: &VmDisk,
    rule: Rule,
    found: Option<String>,
)
    ensures
        views(final(log)@) == views(old(log)@).push(
            ViolationView {
                vmid,
                disk_type: disk@.disk_type,
                idx: disk@.idx,
                rule,
                found: text_view(found),
            },
        ),
{
    let ghost before = views(log@);
    let violation = Violation { vmid, disk_type: disk.disk_type(), idx: disk.idx(), rule, found };
    let ghost added = violation@;
    log.push(violation);
    assert(views(log@) =~= before.push(added));
}

/// Holds one option of a disk to its rule.
fn check_option(vmid: u32, disk: &VmDisk, rule: Rule, log: &mut Vec<Violation>) -> (problems: bool)
    ensures
        views(final(log)@) == views(old(log)@) + option_violations(vmid, disk@, rule),
        problems == (option_violations(vmid, disk@, rule).len() > 0),
{
    let ghost before = views(log@);
    match disk.options().get(rule.name()) {
        None => {
            if rule.required() {
                record(log, vmid, disk, rule, None);
                assert(views(log@) =~= before + option_violations(vmid, disk@, rule));
                true
            } else {
                assert(views(log@) =~= before + Seq::<ViolationView>::empty());
                false
            }
        },
        Some(value) => {
            if same_text(value.as_str(), rule.value()) {
                assert(views(log@) =~= before + Seq::<ViolationView>::empty());
                false
            } else {
                record(log, vmid, disk, rule, Some(value.clone()));
                assert(views(log@) =~= before + option_violations(vmid, disk@, rule));
                true
            }
        },
    }
}

/// Check the configuration of a single disk for a VM.
///
/// The disk is held to each rule, and what it breaks is added to the log.
/// The result tells whether it breaks any.
pub fn check_vm_disk(vmid: u32, disk: &VmDisk, log: &mut Vec<Violation>) -> (problems: bool)
    ensures
        views(final(log)@) == views(old(log)@) + rule_violations(vmid, disk@),
        problems == (rule_violations(vmid, disk@).len() > 0),
{
    let ghost before = views(log@);
    let mut problems: bool = false;
    match disk.disk_type() {
        VmDiskType::Virtio => {},
        _ => {
            record(log, vmid, disk, Rule::DiskType, None);
            problems = true;
        },
    }
    assert(views(log@) =~= before + type_violations(vmid, disk@));
    if check_option(vmid, disk, Rule::Cache, log) {
        problems = true;
    }
    if check_option(vmid, disk, Rule::Discard, log) {
        problems = true;
    }
    if check_option(vmid, disk, Rule::Iothread, log) {
        problems = true;
    }
    assert(views(log@) =~= before + rule_violations(vmid, disk@));
    problems
}

/// Looks up the storage that is defined under a name; of two definitions
/// under one name, the later one.
pub fn find_storage<'a>(storage: &'a [Storage], name: &str) -> (r: Option<&'a Storage>)
    ensures
        match r {
            Some(found) => storage_named(views(storage@), name@) == Some(found@),
            None => storage_named(views(storage@), name@) is None,
        },
{
    let ghost all = views(storage@);
    let mut i: usize = storage.len();
    assert(all.take(i as int) =~= all);
    while i > 0
        invariant
            i <= storage@.len(),
            all == views(storage@),
            storage_named(all, name@) == storage_named(all.take(i as int), name@),
        decreases i,
    {
        i -= 1;
        proof {
            assert(all.take(i + 1).drop_last() =~= all.take(i as int));
            assert(all.take(i + 1).last() == storage@[i as int]@);
        }
        if same_text(storage[i].storage(), name) {
            return Some(&storage[i]);
        }
    }
    None
}

/// Checks one disk of a virtual machine against the storage of the
/// cluster, and adds what is found to the log.
pub fn check_disk(storage: &[Storage], vmid: u32, disk: &VmDisk, log: &mut Vec<Violation>) -> (problems:
    bool)
    ensures
        views(final(log)@) == views(old(log)@) + disk_violations(views(storage@), vmid, disk@),
        problems == (disk_violations(views(storage@), vmid, disk@).len() > 0),
{
    let ghost before = views(log@);
    match find_storage(storage, disk.storage()) {
        None => {
            record(log, vmid, disk, Rule::Storage, Some(disk.storage().to_owned()));
            assert(views(log@) =~= before + disk_violations(views(storage@), vmid, disk@));
            true
        },
        Some(store) => {
            if same_text(store.storage_type(), "storpool") {
                check_vm_disk(vmid, disk, log)
            } else {
                assert(views(log@) =~= before + Seq::<ViolationView>::empty());
                false
            }
        },
    }
}

/// Checks the disks of a virtual machine, each of them, and adds what is
/// found to the log.
pub fn check_vm_config(
    storage: &[Storage],
    vmid: u32,
    config: &VmConfig,
    log: &mut Vec<Violation>,
) -> (problems: bool)
    ensures
        views(final(log)@) == views(old(log)@) + config_violations(
            views(storage@),
            vmid,
            config@.disks,
        ),
        problems == (config_violations(views(storage@), vmid, config@.disks).len() > 0),
{
    let ghost before = views(log@);
    let disks = config.disks();
    let ghost all = views(disks@);
    let mut problems: bool = false;
    let mut i: usize = 0;
    assert(all.take(0) =~= Seq::<VmDiskView>::empty());
    assert(views(log@) =~= before + Seq::<ViolationView>::empty());
    while i < disks.len()
        invariant
            i <= disks@.len(),
            all == views(disks@),
            views(log@) == before + config_violations(views(storage@), vmid, all.take(i as int)),
            problems == (config_violations(views(storage@), vmid, all.take(i as int)).len() > 0),
        decreases disks@.len() - i,
    {
        let ghost so_far = config_violations(views(storage@), vmid, all.take(i as int));
        proof {
            assert(all.take(i + 1).drop_last() =~= all.take(i as int));
            assert(all.take(i + 1).last() == disks@[i as int]@);
        }
        if check_disk(storage, vmid, &disks[i], log) {
            problems = true;
        }
        assert(views(log@) =~= before + config_violations(views(storage@), vmid, all.take(i + 1)));
        i += 1;
    }
    assert(all.take(disks@.len() as int) =~= all);
    problems
}

} // verus!
