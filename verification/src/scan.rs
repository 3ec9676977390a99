//! The scan of a cluster: the walk over its nodes, their virtual machines
//! and the disks of those, which holds each disk to the rules.
//!
//! The scan does not talk to the API itself. It says what to ask for, is
//! fed what came back, and so goes on until nothing is left to ask.

use crate::compliance::{
    check_vm_config, config_violations, lemma_config_violations_hold,
    lemma_unknown_storage_is_found, storage_driver, Violation, ViolationView,
};
use crate::defs::{ApiErrorView, DecodeErrorView, Error, ErrorView};
use crate::json::JsonValue;
use crate::path::{
    joined, query, texts, PathNNVVConfig, PathNNVms, PathNodes, PathStop, PathStopPure,
    PathStorage, PathTop,
};
use crate::text::decimal;
use crate::types::{
    decoded_list, views, NodeStatus, NodeSummary, NodeSummaryView, Storage, StorageView, VmConfig,
    VmDiskView, VmSummary, VmSummaryView,
};
use vstd::prelude::*;

verus! {

/// Where a scan of a cluster stands: what it waits for.
#[derive(Debug, Clone, Copy, PartialEq, Eq, Structural)]
pub enum Stage {
    /// The storage definitions of the cluster.
    Storage,
    /// The nodes of the cluster.
    Nodes,
    /// The virtual machines on the node that is looked at.
    Vms,
    /// The configuration of the virtual machine that is looked at.
    Config,
    /// Nothing more: the scan is over.
    Done,
}

/// A scan of a cluster as plain data.
pub struct ScanView {
    pub stage: Stage,
    /// The storage definitions, once they are known.
    pub storage: Seq<StorageView>,
    /// The nodes, once they are known.
    pub nodes: Seq<NodeSummaryView>,
    /// The place among the nodes of the node that is looked at.
    pub node: int,
    /// The virtual machines on that node, once they are known.
    pub vms: Seq<VmSummaryView>,
    /// The place among them of the virtual machine that is looked at.
    pub vm: int,
    /// What has been found so far.
    pub violations: Seq<ViolationView>,
}

/// The identifiers below this one are set aside: a virtual machine with one
/// of them is not looked at.
pub const FIRST_VMID: u32 = 100;

/// The place of the first node from `from` on that is online; the number of
/// the nodes if there is none.
pub open spec fn next_online(nodes: Seq<NodeSummaryView>, from: int) -> int
    decreases nodes.len() - from,
{
    if from < 0 || from >= nodes.len() {
        nodes.len() as int
    } else if nodes[from].status == NodeStatus::Online {
        from
    } else {
        next_online(nodes, from + 1)
    }
}

/// The place of the first virtual machine from `from` on whose identifier
/// is not set aside; the number of the virtual machines if there is none.
pub open spec fn next_checked(vms: Seq<VmSummaryView>, from: int) -> int
    decreases vms.len() - from,
{
    if from < 0 || from >= vms.len() {
        vms.len() as int
    } else if vms[from].vmid >= FIRST_VMID {
        from
    } else {
        next_checked(vms, from + 1)
    }
}

/// The names of the nodes that a scan passes over: those that are not
/// online, in their order.
pub open spec fn passed_over(nodes: Seq<NodeSummaryView>) -> Seq<Seq<char>>
    decreases nodes.len(),
{
    if nodes.len() == 0 {
        Seq::empty()
    } else if nodes.last().status == NodeStatus::Online {
        passed_over(nodes.drop_last())
    } else {
        passed_over(nodes.drop_last()).push(nodes.last().node)
    }
}

/// The node that is found is online, and no node that is passed over is.
pub proof fn lemma_next_online(nodes: Seq<NodeSummaryView>, from: int)
    requires
        0 <= from <= nodes.len(),
    ensures
        from <= next_online(nodes, from) <= nodes.len(),
        next_online(nodes, from) < nodes.len() ==> nodes[next_online(nodes, from)].status
            == NodeStatus::Online,
        forall|i: int|
            from <= i < next_online(nodes, from) ==> (#[trigger] nodes[i]).status != NodeStatus::Online,
    decreases nodes.len() - from,
{
    if from < nodes.len() && nodes[from].status != NodeStatus::Online {
        lemma_next_online(nodes, from + 1);
    }
}

/// The virtual machine that is found has an identifier that is not set
/// aside, and each one that is passed over has one that is.
pub proof fn lemma_next_checked(vms: Seq<VmSummaryView>, from: int)
    requires
        0 <= from <= vms.len(),
    ensures
        from <= next_checked(vms, from) <= vms.len(),
        next_checked(vms, from) < vms.len() ==> vms[next_checked(vms, from)].vmid >= FIRST_VMID,
        forall|i: int| from <= i < next_checked(vms, from) ==> (#[trigger] vms[i]).vmid < FIRST_VMID,
    decreases vms.len() - from,
{
    if from < vms.len() && vms[from].vmid < FIRST_VMID {
        lemma_next_checked(vms, from + 1);
    }
}

impl ScanView {
    /// The scan before anything is known.
    pub open spec fn start() -> ScanView {
        ScanView {
            stage: Stage::Storage,
            storage: Seq::empty(),
            nodes: Seq::empty(),
            node: 0,
            vms: Seq::empty(),
            vm: 0,
            violations: Seq::empty(),
        }
    }

    /// The virtual machines of a node are only asked for where the node is
    /// online, and the configuration of a virtual machine only where its
    /// identifier is not set aside.
    pub open spec fn well_formed(self) -> bool {
        &&& (self.stage == Stage::Vms || self.stage == Stage::Config) ==> 0 <= self.node
            < self.nodes.len() && self.nodes[self.node].status == NodeStatus::Online
        &&& self.stage == Stage::Config ==> 0 <= self.vm < self.vms.len() && self.vms[self.vm].vmid
            >= FIRST_VMID
    }

    /// The scan turned to the first online node from `from` on, or over if
    /// there is none.
    pub open spec fn at_node(self, from: int) -> ScanView {
        let node = next_online(self.nodes, from);
        if node < self.nodes.len() {
            ScanView { stage: Stage::Vms, node, vms: Seq::empty(), vm: 0, ..self }
        } else {
            ScanView { stage: Stage::Done, node, vms: Seq::empty(), vm: 0, ..self }
        }
    }

    /// The scan turned to the first virtual machine of the node from `from`
    /// on whose identifier is not set aside, or to the next node if there
    /// is none.
    pub open spec fn at_vm(self, from: int) -> ScanView {
        let vm = next_checked(self.vms, from);
        if vm < self.vms.len() {
            ScanView { stage: Stage::Config, vm, ..self }
        } else {
            self.at_node(self.node + 1)
        }
    }

    /// The segments of the path that the scan asks for next; `None` where
    /// it is over.
    pub open spec fn request(self) -> Option<Seq<Seq<char>>> {
        match self.stage {
            Stage::Storage => Some(seq!["storage"@]),
            Stage::Nodes => Some(seq!["nodes"@]),
            Stage::Vms => Some(seq!["nodes"@, self.nodes[self.node].node, "qemu"@]),
            Stage::Config => Some(
                seq![
                    "nodes"@,
                    self.nodes[self.node].node,
                    "qemu"@,
                    decimal(self.vms[self.vm].vmid as nat),
                    "config"@,
                ],
            ),
            Stage::Done => None,
        }
    }

    /// The scan once the storage definitions are known: it turns to the
    /// nodes.
    pub open spec fn with_storage(self, storage: Seq<StorageView>) -> ScanView {
        ScanView { stage: Stage::Nodes, storage, ..self }
    }

    /// The scan once the nodes are known: it turns to the first of them
    /// that is online.
    pub open spec fn with_nodes(self, nodes: Seq<NodeSummaryView>) -> ScanView {
        (ScanView { nodes, ..self }).at_node(0)
    }

    /// The scan once the virtual machines of the node are known: it turns
    /// to the first of them whose identifier is not set aside.
    pub open spec fn with_vms(self, vms: Seq<VmSummaryView>) -> ScanView {
        (ScanView { vms, ..self }).at_vm(0)
    }

    /// The scan once the disks of the virtual machine are known: what is
    /// found on them is added, and the scan turns to the next virtual
    /// machine.
    pub open spec fn with_disks(self, disks: Seq<VmDiskView>) -> ScanView {
        (ScanView {
            violations: self.violations + config_violations(
                self.storage,
                self.vms[self.vm].vmid,
                disks,
            ),
            ..self
        }).at_vm(self.vm + 1)
    }

    /// The scan after the payload `data` has come for what it asked for, or
    /// the error that ends it.
    pub open spec fn fed(self, data: JsonValue) -> Result<ScanView, ErrorView> {
        match self.stage {
            Stage::Storage => match decoded_list::<Storage>(data) {
                Some(storage) => Ok(self.with_storage(storage)),
                None => Err(schema_error(PathStorage::description())),
            },
            Stage::Nodes => match decoded_list::<NodeSummary>(data) {
                Some(nodes) => Ok(self.with_nodes(nodes)),
                None => Err(schema_error(PathNodes::description())),
            },
            Stage::Vms => match decoded_list::<VmSummary>(data) {
                Some(vms) => Ok(self.with_vms(vms)),
                None => Err(schema_error(PathNNVms::description())),
            },
            Stage::Config => match VmConfig::decoded(data) {
                Ok(config) => Ok(self.with_disks(config.disks)),
                Err(cause) => Err(
                    ErrorView::Api(ApiErrorView::Decode(PathNNVVConfig::description(), cause)),
                ),
            },
            Stage::Done => Ok(self),
        }
    }
}

/// The error for a payload that does not hold the records of an endpoint.
pub open spec fn schema_error(desc: Seq<char>) -> ErrorView {
    ErrorView::Api(ApiErrorView::Decode(desc, DecodeErrorView::Schema))
}

/// Feeding a scan keeps it well formed: whatever the payloads hold, it
/// never comes to ask for the virtual machines of a node that is not
/// online, nor for the configuration of a virtual machine whose identifier
/// is set aside.
pub proof fn lemma_fed_well_formed(scan: ScanView, data: JsonValue)
    requires
        scan.well_formed(),
        scan.fed(data) is Ok,
    ensures
        scan.fed(data)->Ok_0.well_formed(),
{
    match scan.stage {
        Stage::Storage => {},
        Stage::Nodes => {
            let nodes = decoded_list::<NodeSummary>(data)->0;
            lemma_next_online(nodes, 0);
        },
        Stage::Vms => {
            let vms = decoded_list::<VmSummary>(data)->0;
            lemma_next_checked(vms, 0);
            lemma_next_online(scan.nodes, scan.node + 1);
        },
        Stage::Config => {
            lemma_next_checked(scan.vms, scan.vm + 1);
            lemma_next_online(scan.nodes, scan.node + 1);
        },
        Stage::Done => {},
    }
}

/// A virtual machine of a cluster, with the disks of its configuration.
pub struct VmState {
    pub summary: VmSummaryView,
    pub disks: Seq<VmDiskView>,
}

/// A node of a cluster, with its virtual machines.
pub struct NodeState {
    pub summary: NodeSummaryView,
    pub vms: Seq<VmState>,
}

/// A cluster as the API tells of it: what it would answer to each question
/// that a scan may ask.
pub struct ClusterState {
    pub storage: Seq<StorageView>,
    pub nodes: Seq<NodeState>,
}

/// The summaries of the virtual machines of a node.
pub open spec fn vm_summaries(vms: Seq<VmState>) -> Seq<VmSummaryView> {
    vms.map_values(|vm: VmState| vm.summary)
}

/// What is to be found on a virtual machine: nothing where its identifier
/// is set aside, whatever its disks are; else what is found on its disks.
pub open spec fn vm_violations(storage: Seq<StorageView>, vm: VmState) -> Seq<ViolationView> {
    if vm.summary.vmid < FIRST_VMID {
        Seq::empty()
    } else {
        config_violations(storage, vm.summary.vmid, vm.disks)
    }
}

/// What is to be found on the virtual machines of a node from the place
/// `from` on, one after the other.
pub open spec fn vms_violations(storage: Seq<StorageView>, vms: Seq<VmState>, from: int) -> Seq<
    ViolationView,
>
    decreases vms.len() - from,
{
    if from < 0 || from >= vms.len() {
        Seq::empty()
    } else {
        vm_violations(storage, vms[from]) + vms_violations(storage, vms, from + 1)
    }
}

/// What is to be found on a node: nothing where it is not online, whatever
/// its virtual machines are; else what is found on its virtual machines.
pub open spec fn node_violations(storage: Seq<StorageView>, node: NodeState) -> Seq<ViolationView> {
    if node.summary.status != NodeStatus::Online {
        Seq::empty()
    } else {
        vms_violations(storage, node.vms, 0)
    }
}

/// What is to be found on the nodes of a cluster from the place `from` on,
/// one after the other.
pub open spec fn nodes_violations(storage: Seq<StorageView>, nodes: Seq<NodeState>, from: int) -> Seq<
    ViolationView,
>
    decreases nodes.len() - from,
{
    if from < 0 || from >= nodes.len() {
        Seq::empty()
    } else {
        node_violations(storage, nodes[from]) + nodes_violations(storage, nodes, from + 1)
    }
}

impl ClusterState {
    /// The summaries of the nodes.
    pub open spec fn node_summaries(self) -> Seq<NodeSummaryView> {
        self.nodes.map_values(|node: NodeState| node.summary)
    }

    /// What is to be found in the cluster.
    pub open spec fn violations(self) -> Seq<ViolationView> {
        nodes_violations(self.storage, self.nodes, 0)
    }
}

/// What is to be found on the nodes of a cluster depends on each node only
/// by what is to be found on it.
pub proof fn lemma_nodes_violations_alike(
    storage: Seq<StorageView>,
    a: Seq<NodeState>,
    b: Seq<NodeState>,
    from: int,
)
    requires
        a.len() == b.len(),
        forall|i: int|
            0 <= i < a.len() ==> node_violations(storage, #[trigger] a[i]) == node_violations(
                storage,
                b[i],
            ),
    ensures
        nodes_violations(storage, a, from) == nodes_violations(storage, b, from),
    decreases a.len() - from,
{
    if 0 <= from < a.len() {
        lemma_nodes_violations_alike(storage, a, b, from + 1);
    }
}

/// What is to be found on the virtual machines of a node depends on each
/// of them only by what is to be found on it.
pub proof fn lemma_vms_violations_alike(
    storage: Seq<StorageView>,
    a: Seq<VmState>,
    b: Seq<VmState>,
    from: int,
)
    requires
        a.len() == b.len(),
        forall|i: int|
            0 <= i < a.len() ==> vm_violations(storage, #[trigger] a[i]) == vm_violations(
                storage,
                b[i],
            ),
    ensures
        vms_violations(storage, a, from) == vms_violations(storage, b, from),
    decreases a.len() - from,
{
    if 0 <= from < a.len() {
        lemma_vms_violations_alike(storage, a, b, from + 1);
    }
}

/// A node that is not online adds nothing to what is found in a cluster,
/// whatever its virtual machines are: with any others in their place, the
/// same is found.
pub proof fn lemma_node_not_online(cluster: ClusterState, i: int, vms: Seq<VmState>)
    requires
        0 <= i < cluster.nodes.len(),
        cluster.nodes[i].summary.status != NodeStatus::Online,
    ensures
        node_violations(cluster.storage, cluster.nodes[i]).len() == 0,
        (ClusterState {
            nodes: cluster.nodes.update(i, NodeState { summary: cluster.nodes[i].summary, vms }),
            ..cluster
        }).violations() == cluster.violations(),
{
    let other = cluster.nodes.update(i, NodeState { summary: cluster.nodes[i].summary, vms });
    lemma_nodes_violations_alike(cluster.storage, other, cluster.nodes, 0);
}

/// A virtual machine whose identifier is set aside adds nothing to what is
/// found in a cluster, whatever its disks are: with any others in their
/// place, the same is found.
pub proof fn lemma_vm_set_aside(cluster: ClusterState, i: int, j: int, disks: Seq<VmDiskView>)
    requires
        0 <= i < cluster.nodes.len(),
        0 <= j < cluster.nodes[i].vms.len(),
        cluster.nodes[i].vms[j].summary.vmid < FIRST_VMID,
    ensures
        vm_violations(cluster.storage, cluster.nodes[i].vms[j]).len() == 0,
        (ClusterState {
            nodes: cluster.nodes.update(
                i,
                NodeState {
                    summary: cluster.nodes[i].summary,
                    vms: cluster.nodes[i].vms.update(
                        j,
                        VmState { summary: cluster.nodes[i].vms[j].summary, disks },
                    ),
                },
            ),
            ..cluster
        }).violations() == cluster.violations(),
{
    let node = cluster.nodes[i];
    let vms = node.vms.update(j, VmState { summary: node.vms[j].summary, disks });
    let other = cluster.nodes.update(i, NodeState { summary: node.summary, vms });
    lemma_vms_violations_alike(cluster.storage, vms, node.vms, 0);
    lemma_nodes_violations_alike(cluster.storage, other, cluster.nodes, 0);
}

/// What is to be found on a virtual machine of a node is among what is to
/// be found on the virtual machines of the node.
pub proof fn lemma_vms_violations_hold(
    storage: Seq<StorageView>,
    vms: Seq<VmState>,
    from: int,
    j: int,
)
    requires
        0 <= from <= j < vms.len(),
    ensures
        vms_violations(storage, vms, from).len() >= vm_violations(storage, vms[j]).len(),
    decreases vms.len() - from,
{
    if from < j {
        lemma_vms_violations_hold(storage, vms, from + 1, j);
    }
}

/// What is to be found on a node is among what is to be found on the nodes
/// of the cluster.
pub proof fn lemma_nodes_violations_hold(
    storage: Seq<StorageView>,
    nodes: Seq<NodeState>,
    from: int,
    i: int,
)
    requires
        0 <= from <= i < nodes.len(),
    ensures
        nodes_violations(storage, nodes, from).len() >= node_violations(storage, nodes[i]).len(),
    decreases nodes.len() - from,
{
    if from < i {
        lemma_nodes_violations_hold(storage, nodes, from + 1, i);
    }
}

/// A disk on storage that the cluster does not define, on a virtual machine
/// that is looked at, makes the cluster one in which problems are found,
/// whatever else is known of the disk.
pub proof fn lemma_disk_on_unknown_storage(cluster: ClusterState, i: int, j: int, k: int)
    requires
        0 <= i < cluster.nodes.len(),
        cluster.nodes[i].summary.status == NodeStatus::Online,
        0 <= j < cluster.nodes[i].vms.len(),
        cluster.nodes[i].vms[j].summary.vmid >= FIRST_VMID,
        0 <= k < cluster.nodes[i].vms[j].disks.len(),
        storage_driver(cluster.storage, cluster.nodes[i].vms[j].disks[k].storage) is None,
    ensures
        cluster.violations().len() > 0,
{
    let vm = cluster.nodes[i].vms[j];
    lemma_unknown_storage_is_found(cluster.storage, vm.summary.vmid, vm.disks[k]);
    lemma_config_violations_hold(cluster.storage, vm.summary.vmid, vm.disks, k);
    lemma_vms_violations_hold(cluster.storage, cluster.nodes[i].vms, 0, j);
    lemma_nodes_violations_hold(cluster.storage, cluster.nodes, 0, i);
}

/// The place of a stage in the course of a scan, counted from its end.
pub open spec fn stage_rank(stage: Stage) -> int {
    match stage {
        Stage::Storage => 3,
        Stage::Nodes => 2,
        Stage::Vms => 1,
        Stage::Config => 1,
        Stage::Done => 0,
    }
}

/// Within the scan of one node, the list of its virtual machines comes
/// before their configurations.
pub open spec fn stage_step(stage: Stage) -> int {
    match stage {
        Stage::Vms => 1,
        _ => 0,
    }
}

impl ScanView {
    /// The scan holds what the cluster holds, as far as it has come.
    pub open spec fn follows(self, cluster: ClusterState) -> bool {
        &&& self.well_formed()
        &&& self.stage != Stage::Storage ==> self.storage == cluster.storage
        &&& (self.stage == Stage::Vms || self.stage == Stage::Config || self.stage == Stage::Done)
            ==> self.nodes == cluster.node_summaries()
        &&& self.stage == Stage::Config ==> self.vms == vm_summaries(cluster.nodes[self.node].vms)
    }

    /// The scan after the cluster has answered what it asked for.
    pub open spec fn answered(self, cluster: ClusterState) -> ScanView {
        match self.stage {
            Stage::Storage => self.with_storage(cluster.storage),
            Stage::Nodes => self.with_nodes(cluster.node_summaries()),
            Stage::Vms => self.with_vms(vm_summaries(cluster.nodes[self.node].vms)),
            Stage::Config => self.with_disks(cluster.nodes[self.node].vms[self.vm].disks),
            Stage::Done => self,
        }
    }

    /// What is left to be found from where the scan stands.
    pub open spec fn ahead(self, cluster: ClusterState) -> Seq<ViolationView> {
        match self.stage {
            Stage::Storage => cluster.violations(),
            Stage::Nodes => cluster.violations(),
            Stage::Vms => nodes_violations(cluster.storage, cluster.nodes, self.node),
            Stage::Config => vms_violations(cluster.storage, cluster.nodes[self.node].vms, self.vm)
                + nodes_violations(cluster.storage, cluster.nodes, self.node + 1),
            Stage::Done => Seq::empty(),
        }
    }
}

/// Whether the payload `data` holds what the cluster answers to what the
/// scan asks for.
pub open spec fn is_answer(scan: ScanView, cluster: ClusterState, data: JsonValue) -> bool {
    match scan.stage {
        Stage::Storage => decoded_list::<Storage>(data) == Some(cluster.storage),
        Stage::Nodes => decoded_list::<NodeSummary>(data) == Some(cluster.node_summaries()),
        Stage::Vms => decoded_list::<VmSummary>(data) == Some(
            vm_summaries(cluster.nodes[scan.node].vms),
        ),
        Stage::Config => VmConfig::decoded(data) is Ok && VmConfig::decoded(data)->Ok_0.disks
            == cluster.nodes[scan.node].vms[scan.vm].disks,
        Stage::Done => true,
    }
}

/// A scan that is fed what the cluster answers goes on as the scan that the
/// cluster has answered.
pub proof fn lemma_fed_answer(scan: ScanView, cluster: ClusterState, data: JsonValue)
    requires
        is_answer(scan, cluster, data),
    ensures
        scan.fed(data) == Ok::<ScanView, ErrorView>(scan.answered(cluster)),
{
}

/// Nothing is to be found on the nodes that a scan passes over.
pub proof fn lemma_nodes_passed_over(storage: Seq<StorageView>, nodes: Seq<NodeState>, from: int)
    requires
        0 <= from <= nodes.len(),
    ensures
        nodes_violations(storage, nodes, from) == nodes_violations(
            storage,
            nodes,
            next_online(nodes.map_values(|node: NodeState| node.summary), from),
        ),
    decreases nodes.len() - from,
{
    let summaries = nodes.map_values(|node: NodeState| node.summary);
    if from < nodes.len() {
        assert(summaries[from] == nodes[from].summary);
        if nodes[from].summary.status != NodeStatus::Online {
            lemma_nodes_passed_over(storage, nodes, from + 1);
            assert(nodes_violations(storage, nodes, from) =~= nodes_violations(
                storage,
                nodes,
                from + 1,
            ));
        }
    }
}

/// Nothing is to be found on the virtual machines that a scan passes over.
pub proof fn lemma_vms_passed_over(storage: Seq<StorageView>, vms: Seq<VmState>, from: int)
    requires
        0 <= from <= vms.len(),
    ensures
        vms_violations(storage, vms, from) == vms_violations(
            storage,
            vms,
            next_checked(vm_summaries(vms), from),
        ),
    decreases vms.len() - from,
{
    if from < vms.len() {
        assert(vm_summaries(vms)[from] == vms[from].summary);
        if vms[from].summary.vmid < FIRST_VMID {
            lemma_vms_passed_over(storage, vms, from + 1);
            assert(vms_violations(storage, vms, from) =~= vms_violations(storage, vms, from + 1));
        }
    }
}

/// Where the scan holds what the cluster holds, it still does after the
/// cluster has answered, and what it has found and what is left to be found
/// make the same sum as before.
pub proof fn lemma_answered(scan: ScanView, cluster: ClusterState)
    requires
        scan.follows(cluster),
    ensures
        scan.answered(cluster).follows(cluster),
        scan.answered(cluster).violations + scan.answered(cluster).ahead(cluster) == scan.violations
            + scan.ahead(cluster),
        scan.stage != Stage::Done ==> decreases_to!(
            stage_rank(scan.stage), cluster.nodes.len() - scan.node, stage_step(scan.stage), scan.vms.len() - scan.vm
            => stage_rank(scan.answered(cluster).stage), cluster.nodes.len() - scan.answered(cluster).node, stage_step(scan.answered(cluster).stage), scan.answered(cluster).vms.len() - scan.answered(cluster).vm),
{
    let next = scan.answered(cluster);
    let storage = cluster.storage;
    let nodes = cluster.nodes;
    let summaries = cluster.node_summaries();
    match scan.stage {
        Stage::Storage => {},
        Stage::Nodes => {
            lemma_next_online(summaries, 0);
            lemma_nodes_passed_over(storage, nodes, 0);
            assert(nodes_violations(storage, nodes, nodes.len() as int) =~= Seq::<
                ViolationView,
            >::empty());
        },
        Stage::Vms => {
            let vms = nodes[scan.node].vms;
            assert(summaries[scan.node] == nodes[scan.node].summary);
            lemma_next_checked(vm_summaries(vms), 0);
            lemma_vms_passed_over(storage, vms, 0);
            lemma_next_online(summaries, scan.node + 1);
            lemma_nodes_passed_over(storage, nodes, scan.node + 1);
            assert(vms_violations(storage, vms, vms.len() as int) =~= Seq::<ViolationView>::empty());
            assert(nodes_violations(storage, nodes, nodes.len() as int) =~= Seq::<
                ViolationView,
            >::empty());
            assert(next.violations + next.ahead(cluster) =~= scan.violations + scan.ahead(cluster));
        },
        Stage::Config => {
            let vms = nodes[scan.node].vms;
            assert(vm_summaries(vms)[scan.vm] == vms[scan.vm].summary);
            lemma_next_checked(vm_summaries(vms), scan.vm + 1);
            lemma_vms_passed_over(storage, vms, scan.vm + 1);
            lemma_next_online(summaries, scan.node + 1);
            lemma_nodes_passed_over(storage, nodes, scan.node + 1);
            assert(vms_violations(storage, vms, vms.len() as int) =~= Seq::<ViolationView>::empty());
            assert(nodes_violations(storage, nodes, nodes.len() as int) =~= Seq::<
                ViolationView,
            >::empty());
            assert(next.violations + next.ahead(cluster) =~= scan.violations + scan.ahead(cluster));
        },
        Stage::Done => {},
    }
}

/// The scan carried on to its end, with the cluster answering each time
/// what the scan asks for.
pub open spec fn scanned(scan: ScanView, cluster: ClusterState) -> ScanView
    decreases
        stage_rank(scan.stage),
        cluster.nodes.len() - scan.node,
        stage_step(scan.stage),
        scan.vms.len() - scan.vm,
    when scan.follows(cluster)
{
    if scan.stage == Stage::Done {
        scan
    } else {
        proof {
            lemma_answered(scan, cluster);
        }
        scanned(scan.answered(cluster), cluster)
    }
}

/// A scan that is carried on to its end comes to an end, and has then
/// found, besides what it had found before, what was left to be found:
/// each violation of the cluster, once, and in the order of the nodes, of
/// their virtual machines and of the disks of those.
pub proof fn lemma_scanned(scan: ScanView, cluster: ClusterState)
    requires
        scan.follows(cluster),
    ensures
        scanned(scan, cluster).stage == Stage::Done,
        scanned(scan, cluster).violations == scan.violations + scan.ahead(cluster),
    decreases
        stage_rank(scan.stage),
        cluster.nodes.len() - scan.node,
        stage_step(scan.stage),
        scan.vms.len() - scan.vm,
{
    if scan.stage == Stage::Done {
        assert(scan.violations + Seq::<ViolationView>::empty() =~= scan.violations);
    } else {
        lemma_answered(scan, cluster);
        lemma_scanned(scan.answered(cluster), cluster);
    }
}

/// A scan from its start finds what is to be found in the cluster, no more
/// and no less. So a node that is not online adds nothing to it, whatever
/// its virtual machines are, and a virtual machine whose identifier is set
/// aside adds nothing, whatever its disks are.
pub proof fn lemma_scan_of_cluster(cluster: ClusterState)
    ensures
        scanned(ScanView::start(), cluster).stage == Stage::Done,
        scanned(ScanView::start(), cluster).violations == cluster.violations(),
{
    lemma_scanned(ScanView::start(), cluster);
    assert(Seq::<ViolationView>::empty() + cluster.violations() =~= cluster.violations());
}

/// A scan of a cluster, step by step: it says what to ask the API for, is
/// fed what the API sent, and in the end holds what was found.
#[derive(Debug)]
pub struct Scan {
    stage: Stage,
    storage: Vec<Storage>,
    nodes: Vec<NodeSummary>,
    node: usize,
    vms: Vec<VmSummary>,
    vm: usize,
    violations: Vec<Violation>,
}

impl View for Scan {
    type V = ScanView;

    closed spec fn view(&self) -> ScanView {
        ScanView {
            stage: self.stage,
            storage: views(self.storage@),
            nodes: views(self.nodes@),
            node: self.node as int,
            vms: views(self.vms@),
            vm: self.vm as int,
            violations: views(self.violations@),
        }
    }
}

/// The place after a place in a list.
fn after<T>(place: usize, list: &Vec<T>) -> (r: usize)
    requires
        place < list@.len(),
    ensures
        r == place + 1,
{
    let count = list.len();
    assert(place < count);
    place + 1
}

fn find_online(nodes: &Vec<NodeSummary>, from: usize) -> (r: usize)
    requires
        from <= nodes@.len(),
    ensures
        r == next_online(views(nodes@), from as int),
        from <= r <= nodes@.len(),
{
    let mut i: usize = from;
    while i < nodes.len()
        invariant
            from <= i <= nodes@.len(),
            next_online(views(nodes@), from as int) == next_online(views(nodes@), i as int),
        decreases nodes@.len() - i,
    {
        assert(views(nodes@)[i as int] == nodes@[i as int]@);
        if nodes[i].status() == NodeStatus::Online {
            return i;
        }
        i += 1;
    }
    i
}

fn find_checked(vms: &Vec<VmSummary>, from: usize) -> (r: usize)
    requires
        from <= vms@.len(),
    ensures
        r == next_checked(views(vms@), from as int),
        from <= r <= vms@.len(),
{
    let mut i: usize = from;
    while i < vms.len()
        invariant
            from <= i <= vms@.len(),
            next_checked(views(vms@), from as int) == next_checked(views(vms@), i as int),
        decreases vms@.len() - i,
    {
        assert(views(vms@)[i as int] == vms@[i as int]@);
        if vms[i].vmid() >= FIRST_VMID {
            return i;
        }
        i += 1;
    }
    i
}

impl Scan {
    #[verifier::type_invariant]
    spec fn inv(&self) -> bool {
        self@.well_formed()
    }

    /// A scan that has not asked for anything yet.
    pub fn new() -> (r: Scan)
        ensures
            r@ == ScanView::start(),
    {
        let storage: Vec<Storage> = Vec::new();
        let nodes: Vec<NodeSummary> = Vec::new();
        let vms: Vec<VmSummary> = Vec::new();
        let violations: Vec<Violation> = Vec::new();
        assert(views(storage@) =~= Seq::<StorageView>::empty());
        assert(views(nodes@) =~= Seq::<NodeSummaryView>::empty());
        assert(views(vms@) =~= Seq::<VmSummaryView>::empty());
        assert(views(violations@) =~= Seq::<ViolationView>::empty());
        Scan { stage: Stage::Storage, storage, nodes, node: 0, vms, vm: 0, violations }
    }

    /// Where the scan stands.
    pub fn stage(&self) -> (r: Stage)
        ensures
            r == self@.stage,
    {
        self.stage
    }

    /// Whether the scan is over.
    pub fn finished(&self) -> (r: bool)
        ensures
            r == (self@.stage == Stage::Done),
    {
        self.stage == Stage::Done
    }

    /// The storage definitions of the cluster, once they are known.
    pub fn storage(&self) -> (r: &[Storage])
        ensures
            views(r@) == self@.storage,
    {
        self.storage.as_slice()
    }

    /// The nodes of the cluster, once they are known.
    pub fn nodes(&self) -> (r: &[NodeSummary])
        ensures
            views(r@) == self@.nodes,
    {
        self.nodes.as_slice()
    }

    /// The names of the nodes that the scan passes over, once the nodes are
    /// known.
    pub fn nodes_passed_over(&self) -> (r: Vec<String>)
        ensures
            texts(r@) == passed_over(self@.nodes),
    {
        let mut names: Vec<String> = Vec::new();
        let ghost all = views(self.nodes@);
        let mut i: usize = 0;
        assert(all.take(0) =~= Seq::<NodeSummaryView>::empty());
        assert(texts(names@) =~= Seq::<Seq<char>>::empty());
        while i < self.nodes.len()
            invariant
                i <= self.nodes@.len(),
                all == views(self.nodes@),
                texts(names@) == passed_over(all.take(i as int)),
            decreases self.nodes@.len() - i,
        {
            proof {
                assert(all.take(i + 1).drop_last() =~= all.take(i as int));
                assert(all.take(i + 1).last() == self.nodes@[i as int]@);
            }
            if self.nodes[i].status() != NodeStatus::Online {
                let ghost before = texts(names@);
                let name = self.nodes[i].node().to_owned();
                let ghost added = name@;
                names.push(name);
                assert(texts(names@) =~= before.push(added));
            }
            i += 1;
        }
        assert(all.take(self.nodes@.len() as int) =~= all);
        names
    }

    /// The virtual machines on the node that is looked at, once they are
    /// known.
    pub fn vms(&self) -> (r: &[VmSummary])
        ensures
            views(r@) == self@.vms,
    {
        self.vms.as_slice()
    }

    /// The node that is looked at, while one is.
    pub fn node(&self) -> (r: Option<&NodeSummary>)
        ensures
            match r {
                Some(node) => 0 <= self@.node < self@.nodes.len() && node@ == self@.nodes[self@.node]
                    && node@.status == NodeStatus::Online,
                None => self@.stage != Stage::Vms && self@.stage != Stage::Config,
            },
    {
        proof {
            use_type_invariant(self);
        }
        match self.stage {
            Stage::Vms | Stage::Config => {
                assert(views(self.nodes@)[self.node as int] == self.nodes@[self.node as int]@);
                Some(&self.nodes[self.node])
            },
            _ => None,
        }
    }

    /// What has been found so far, in the order in which it was found.
    pub fn violations(&self) -> (r: &[Violation])
        ensures
            views(r@) == self@.violations,
    {
        self.violations.as_slice()
    }

    /// Whether anything has been found so far.
    pub fn problems(&self) -> (r: bool)
        ensures
            r == (self@.violations.len() > 0),
    {
        self.violations.len() > 0
    }

    /// The query path to ask the API for next; `None` where the scan is
    /// over. The virtual machines of a node are only asked for where the
    /// node is online, and the configuration of a virtual machine only
    /// where its identifier is not set aside.
    pub fn request(&self) -> (r: Option<String>)
        ensures
            self@.well_formed(),
            match r {
                Some(path) => self@.request() is Some && path@ == joined(self@.request()->0),
                None => self@.request() is None,
            },
    {
        proof {
            use_type_invariant(self);
        }
        let top = PathTop::from_parts(Vec::new());
        assert(top.segments() =~= Seq::<Seq<char>>::empty());
        match self.stage {
            Stage::Storage => {
                let path = top.storage();
                assert(path.segments() =~= seq!["storage"@]);
                Some(query(path.parts()))
            },
            Stage::Nodes => {
                let path = top.nodes();
                assert(path.segments() =~= seq!["nodes"@]);
                Some(query(path.parts()))
            },
            Stage::Vms => {
                assert(views(self.nodes@)[self.node as int] == self.nodes@[self.node as int]@);
                let path = top.nodes().id(self.nodes[self.node].node()).qemu();
                assert(path.segments() =~= self@.request()->0);
                Some(query(path.parts()))
            },
            Stage::Config => {
                assert(views(self.nodes@)[self.node as int] == self.nodes@[self.node as int]@);
                assert(views(self.vms@)[self.vm as int] == self.vms@[self.vm as int]@);
                let path = top.nodes().id(self.nodes[self.node].node()).qemu().id(
                    self.vms[self.vm].vmid(),
                ).config();
                assert(path.segments() =~= self@.request()->0);
                Some(query(path.parts()))
            },
            Stage::Done => None,
        }
    }

    /// The scan turned to the first online node from `from` on.
    fn turn_to_node(
        storage: Vec<Storage>,
        nodes: Vec<NodeSummary>,
        from: usize,
        violations: Vec<Violation>,
        Ghost(before): Ghost<ScanView>,
    ) -> (r: Scan)
        requires
            from <= nodes@.len(),
            before.storage == views(storage@),
            before.nodes == views(nodes@),
            before.violations == views(violations@),
        ensures
            r@ == before.at_node(from as int),
    {
        let node = find_online(&nodes, from);
        let vms: Vec<VmSummary> = Vec::new();
        proof {
            lemma_next_online(views(nodes@), from as int);
            assert(views(vms@) =~= Seq::<VmSummaryView>::empty());
        }
        if node < nodes.len() {
            Scan { stage: Stage::Vms, storage, nodes, node, vms, vm: 0, violations }
        } else {
            Scan { stage: Stage::Done, storage, nodes, node, vms, vm: 0, violations }
        }
    }

    /// The scan turned to the first virtual machine from `from` on whose
    /// identifier is not set aside, or to the next node.
    fn turn_to_vm(
        storage: Vec<Storage>,
        nodes: Vec<NodeSummary>,
        node: usize,
        vms: Vec<VmSummary>,
        from: usize,
        violations: Vec<Violation>,
        Ghost(before): Ghost<ScanView>,
    ) -> (r: Scan)
        requires
            node < nodes@.len(),
            views(nodes@)[node as int].status == NodeStatus::Online,
            from <= vms@.len(),
            before.storage == views(storage@),
            before.nodes == views(nodes@),
            before.node == node,
            before.vms == views(vms@),
            before.violations == views(violations@),
        ensures
            r@ == before.at_vm(from as int),
    {
        let vm = find_checked(&vms, from);
        proof {
            lemma_next_checked(views(vms@), from as int);
        }
        if vm < vms.len() {
            Scan { stage: Stage::Config, storage, nodes, node, vms, vm, violations }
        } else {
            let next = after(node, &nodes);
            Scan::turn_to_node(storage, nodes, next, violations, Ghost(before))
        }
    }

    /// Takes the payload that the API sent for what the scan asked for, and
    /// moves the scan on: to the next thing to ask for, or to its end. A
    /// payload that cannot be decoded ends the scan with an error; a scan
    /// that is over is left as it is.
    pub fn feed(self, data: JsonValue) -> (r: Result<Scan, Error>)
        ensures
            match r {
                Ok(next) => self@.fed(data) == Ok::<ScanView, ErrorView>(next@),
                Err(e) => self@.fed(data) == Err::<ScanView, ErrorView>(e@),
            },
    {
        proof {
            use_type_invariant(&self);
        }
        let ghost before = self@;
        let Scan { stage, storage, nodes, node, vms, vm, violations } = self;
        match stage {
            Stage::Storage => match PathStorage::from_json(data) {
                Ok(storage) => Ok(Scan { stage: Stage::Nodes, storage, nodes, node, vms, vm, violations }),
                Err(e) => Err(e),
            },
            Stage::Nodes => match PathNodes::from_json(data) {
                Ok(nodes) => {
                    let ghost known = ScanView { nodes: views(nodes@), ..before };
                    Ok(Scan::turn_to_node(storage, nodes, 0, violations, Ghost(known)))
                },
                Err(e) => Err(e),
            },
            Stage::Vms => match PathNNVms::from_json(data) {
                Ok(vms) => {
                    let ghost known = ScanView { vms: views(vms@), ..before };
                    Ok(Scan::turn_to_vm(storage, nodes, node, vms, 0, violations, Ghost(known)))
                },
                Err(e) => Err(e),
            },
            Stage::Config => match PathNNVVConfig::from_json(data) {
                Ok(config) => {
                    let mut violations = violations;
                    assert(views(vms@)[vm as int] == vms@[vm as int]@);
                    let vmid = vms[vm].vmid();
                    check_vm_config(storage.as_slice(), vmid, &config, &mut violations);
                    let ghost known = ScanView { violations: views(violations@), ..before };
                    let next = after(vm, &vms);
                    Ok(Scan::turn_to_vm(storage, nodes, node, vms, next, violations, Ghost(known)))
                },
                Err(e) => Err(e),
            },
            Stage::Done => Ok(Scan { stage, storage, nodes, node, vms, vm, violations }),
        }
    }
}

} // verus!
