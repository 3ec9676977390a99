//! Various structures returned by the Proxmox VE API.

use crate::defs::{ApiError, ApiErrorView, DecodeError, DecodeErrorView, Error, ErrorView};
use crate::json::{
    find_member, member, number_field, optional_any_number_field, optional_number_field,
    optional_text_field, read_number, read_optional_any_number, read_optional_number,
    read_optional_text, read_text, text_field, JsonNumber, JsonValue,
};
use crate::options::{options_map, DiskOptions};
use crate::parse::{disk, disk_definition};
use crate::device::{device_key, match_device_key};
use crate::text::same_text;
use vstd::prelude::*;

verus! {

/// The text of a string that may be missing.
pub open spec fn text_view(text: Option<String>) -> Option<Seq<char>> {
    match text {
        Some(t) => Some(t@),
        None => None,
    }
}

/// A string that may be missing, borrowed.
fn as_deref(text: &Option<String>) -> (r: Option<&str>)
    ensures
        match r {
            Some(t) => text_view(*text) == Some(t@),
            None => text_view(*text) is None,
        },
{
    match text {
        Some(t) => Some(t.as_str()),
        None => None,
    }
}

/// A record that is read from a JSON object: fields that are not known are
/// passed over, fields that may be missing are read as absent where they
/// are missing or null, and a field of another kind than the record's is an
/// error.
pub trait JsonRecord: View + Sized {
    /// The record that a JSON value holds, if it holds one.
    spec fn decoded(raw: JsonValue) -> Option<Self::V>;

    /// Reads the record from a JSON value.
    fn from_json(raw: &JsonValue) -> (r: Result<Self, DecodeError>)
        ensures
            match r {
                Ok(record) => Self::decoded(*raw) == Some(record@),
                Err(e) => Self::decoded(*raw) is None && e@ == DecodeErrorView::Schema,
            },
    ;
}

/// The records that a JSON array holds, if each of its items holds one.
pub open spec fn decoded_list<T: JsonRecord>(raw: JsonValue) -> Option<Seq<T::V>> {
    match raw {
        JsonValue::Array(items) => if forall|i: int|
            0 <= i < items@.len() ==> (#[trigger] T::decoded(items@[i])) is Some {
            Some(Seq::new(items@.len(), |i: int| T::decoded(items@[i])->0))
        } else {
            None
        },
        _ => None,
    }
}

/// The views of a list of records.
pub open spec fn views<T: View>(records: Seq<T>) -> Seq<T::V> {
    records.map_values(|record: T| record@)
}

/// Reads a list of records from a JSON array.
pub fn list_from_json<T: JsonRecord>(raw: &JsonValue) -> (r: Result<Vec<T>, DecodeError>)
    ensures
        match r {
            Ok(records) => decoded_list::<T>(*raw) == Some(views(records@)),
            Err(e) => decoded_list::<T>(*raw) is None && e@ == DecodeErrorView::Schema,
        },
{
    match raw {
        JsonValue::Array(items) => {
            let mut records: Vec<T> = Vec::new();
            let mut i: usize = 0;
            while i < items.len()
                invariant
                    *raw == JsonValue::Array(*items),
                    i <= items@.len(),
                    records@.len() == i,
                    forall|j: int| 0 <= j < i ==> (#[trigger] T::decoded(items@[j])) == Some(records@[j]@),
                decreases items@.len() - i,
            {
                match T::from_json(&items[i]) {
                    Ok(record) => {
                        records.push(record);
                    },
                    Err(_) => {
                        return Err(DecodeError::Schema);
                    },
                }
                i += 1;
            }
            assert(views(records@) =~= Seq::new(items@.len(), |i: int| T::decoded(items@[i])->0));
            Ok(records)
        },
        _ => Err(DecodeError::Schema),
    }
}

/// A lower-level subdirectory in the configuration tree.
#[derive(Debug)]
pub struct Subdir {
    /// The name of the subdirectory.
    subdir: String,
}

/// A [`Subdir`] as plain data, for use in contracts.
pub struct SubdirView {
    pub subdir: Seq<char>,
}

impl View for Subdir {
    type V = SubdirView;

    closed spec fn view(&self) -> SubdirView {
        SubdirView { subdir: self.subdir@ }
    }
}

impl Subdir {
    #[inline]
    #[must_use]
    pub fn subdir(&self) -> (r: &str)
        ensures
            r@ == self@.subdir,
    {
        self.subdir.as_str()
    }
}

impl JsonRecord for Subdir {
    open spec fn decoded(raw: JsonValue) -> Option<SubdirView> {
        match raw {
            JsonValue::Object(m) => match text_field(member(m@, "subdir"@)) {
                Some(subdir) => Some(SubdirView { subdir }),
                None => None,
            },
            _ => None,
        }
    }

    fn from_json(raw: &JsonValue) -> (r: Result<Self, DecodeError>) {
        match raw {
            JsonValue::Object(m) => match read_text(find_member(m, "subdir")) {
                Some(subdir) => Ok(Subdir { subdir }),
                None => Err(DecodeError::Schema),
            },
            _ => Err(DecodeError::Schema),
        }
    }
}

/// A lower-level subdirectory in the configuration tree identified by name.
#[derive(Debug)]
pub struct NameSubdir {
    /// The name of the subdirectory.
    name: String,
}

/// A [`NameSubdir`] as plain data, for use in contracts.
pub struct NameSubdirView {
    pub name: Seq<char>,
}

impl View for NameSubdir {
    type V = NameSubdirView;

    closed spec fn view(&self) -> NameSubdirView {
        NameSubdirView { name: self.name@ }
    }
}

impl NameSubdir {
    #[inline]
    #[must_use]
    pub fn name(&self) -> (r: &str)
        ensures
            r@ == self@.name,
    {
        self.name.as_str()
    }
}

impl JsonRecord for NameSubdir {
    open spec fn decoded(raw: JsonValue) -> Option<NameSubdirView> {
        match raw {
            JsonValue::Object(m) => match text_field(member(m@, "name"@)) {
                Some(name) => Some(NameSubdirView { name }),
                None => None,
            },
            _ => None,
        }
    }

    fn from_json(raw: &JsonValue) -> (r: Result<Self, DecodeError>) {
        match raw {
            JsonValue::Object(m) => match read_text(find_member(m, "name")) {
                Some(name) => Ok(NameSubdir { name }),
                None => Err(DecodeError::Schema),
            },
            _ => Err(DecodeError::Schema),
        }
    }
}

/// A storage defined for the Proxmox VE cluster.
#[derive(Debug)]
pub struct Storage {
    /// A comma-separated list of content types that may be placed on this type of storage.
    content: String,
    /// The checksum of the current version of this storage definition.
    digest: String,
    /// Additional tags to set for StorPool volumes and snapshots.
    extra_tags: Option<String>,
    /// The name of the Proxmox VE storage.
    storage: String,
    /// The name of the StorPool template, if not the same as the storage name.
    template: Option<String>,
    /// The Proxmox VE driver that handles this type of storage.
    storage_type: String,
}

/// A [`Storage`] as plain data, for use in contracts.
pub struct StorageView {
    pub content: Seq<char>,
    pub digest: Seq<char>,
    pub extra_tags: Option<Seq<char>>,
    pub storage: Seq<char>,
    pub template: Option<Seq<char>>,
    pub storage_type: Seq<char>,
}

impl View for Storage {
    type V = StorageView;

    closed spec fn view(&self) -> StorageView {
        StorageView {
            content: self.content@,
            digest: self.digest@,
            extra_tags: text_view(self.extra_tags),
            storage: self.storage@,
            template: text_view(self.template),
            storage_type: self.storage_type@,
        }
    }
}

impl Storage {
    #[inline]
    #[must_use]
    pub fn content(&self) -> (r: &str)
        ensures
            r@ == self@.content,
    {
        self.content.as_str()
    }

    #[inline]
    #[must_use]
    pub fn digest(&self) -> (r: &str)
        ensures
            r@ == self@.digest,
    {
        self.digest.as_str()
    }

    #[inline]
    #[must_use]
    pub fn extra_tags(&self) -> (r: Option<&str>)
        ensures
            match r {
                Some(t) => self@.extra_tags == Some(t@),
                None => self@.extra_tags is None,
            },
    {
        as_deref(&self.extra_tags)
    }

    #[inline]
    #[must_use]
    pub fn storage(&self) -> (r: &str)
        ensures
            r@ == self@.storage,
    {
        self.storage.as_str()
    }

    #[inline]
    #[must_use]
    pub fn template(&self) -> (r: Option<&str>)
        ensures
            match r {
                Some(t) => self@.template == Some(t@),
                None => self@.template is None,
            },
    {
        as_deref(&self.template)
    }

    #[inline]
    #[must_use]
    pub fn storage_type(&self) -> (r: &str)
        ensures
            r@ == self@.storage_type,
    {
        self.storage_type.as_str()
    }
}

impl JsonRecord for Storage {
    open spec fn decoded(raw: JsonValue) -> Option<StorageView> {
        match raw {
            JsonValue::Object(m) => {
                let content = text_field(member(m@, "content"@));
                let digest = text_field(member(m@, "digest"@));
                let extra_tags = optional_text_field(member(m@, "extra_tags"@));
                let storage = text_field(member(m@, "storage"@));
                let template = optional_text_field(member(m@, "template"@));
                let storage_type = text_field(member(m@, "type"@));
                if content is Some && digest is Some && extra_tags is Some && storage is Some
                    && template is Some && storage_type is Some {
                    Some(
                        StorageView {
                            content: content->0,
                            digest: digest->0,
                            extra_tags: extra_tags->0,
                            storage: storage->0,
                            template: template->0,
                            storage_type: storage_type->0,
                        },
                    )
                } else {
                    None
                }
            },
            _ => None,
        }
    }

    fn from_json(raw: &JsonValue) -> (r: Result<Self, DecodeError>) {
        let m = match raw {
            JsonValue::Object(m) => m,
            _ => {
                return Err(DecodeError::Schema);
            },
        };
        let content = match read_text(find_member(m, "content")) {
            Some(v) => v,
            None => {
                return Err(DecodeError::Schema);
            },
        };
        let digest = match read_text(find_member(m, "digest")) {
            Some(v) => v,
            None => {
                return Err(DecodeError::Schema);
            },
        };
        let extra_tags = match read_optional_text(find_member(m, "extra_tags")) {
            Some(v) => v,
            None => {
                return Err(DecodeError::Schema);
            },
        };
        let storage = match read_text(find_member(m, "storage")) {
            Some(v) => v,
            None => {
                return Err(DecodeError::Schema);
            },
        };
        let template = match read_optional_text(find_member(m, "template")) {
            Some(v) => v,
            None => {
                return Err(DecodeError::Schema);
            },
        };
        let storage_type = match read_text(find_member(m, "type")) {
            Some(v) => v,
            None => {
                return Err(DecodeError::Schema);
            },
        };
        Ok(Storage { content, digest, extra_tags, storage, template, storage_type })
    }
}

/// The status reported for a single node.
#[derive(Debug, Clone, Copy, PartialEq, Eq, Structural)]
pub enum NodeStatus {
    /// The node is offline.
    Offline,
    /// The node is online.
    Online,
    /// There is no information about the node's status.
    Unknown,
}

impl NodeStatus {
    /// The status that a word of the API names.
    pub open spec fn named(word: Seq<char>) -> Option<NodeStatus> {
        if word == "offline"@ {
            Some(NodeStatus::Offline)
        } else if word == "online"@ {
            Some(NodeStatus::Online)
        } else if word == "unknown"@ {
            Some(NodeStatus::Unknown)
        } else {
            None
        }
    }

    /// Reads a status from the word that names it.
    pub fn from_name(word: &str) -> (r: Option<NodeStatus>)
        ensures
            r == NodeStatus::named(word@),
    {
        if same_text(word, "offline") {
            Some(NodeStatus::Offline)
        } else if same_text(word, "online") {
            Some(NodeStatus::Online)
        } else if same_text(word, "unknown") {
            Some(NodeStatus::Unknown)
        } else {
            None
        }
    }
}

/// A whole number of 64 bits that is known to fit in 32.
pub open spec fn narrow(n: Option<u64>) -> Option<u32> {
    match n {
        Some(n) => Some(n as u32),
        None => None,
    }
}

fn narrowed(n: Option<u64>) -> (r: Option<u32>)
    requires
        n matches Some(v) ==> v <= u32::MAX,
    ensures
        r == narrow(n),
{
    match n {
        Some(v) => Some(v as u32),
        None => None,
    }
}

/// General information about a Proxmox VE node.
#[derive(Debug)]
pub struct NodeSummary {
    /// The node type (usually the constant string "node").
    node_type: String,
    /// The node name.
    node: String,
    /// The node status in the Proxmox VE cluster.
    status: NodeStatus,
    /// A qualified object identifier for this node.
    id: String,
    /// CPU utilization.
    cpu: Option<JsonNumber>,
    /// Disk usage.
    disk: Option<u64>,
    /// Support level.
    level: Option<String>,
    /// Number of available CPUs.
    maxcpu: Option<u32>,
    /// Available disk space.
    maxdisk: Option<u64>,
    /// Available memory in bytes.
    maxmem: Option<u64>,
    /// Used memory in bytes.
    mem: Option<u64>,
    /// The SSL fingerprint of the node certificate.
    ssl_fingerprint: Option<String>,
    /// Node uptime in seconds.
    uptime: Option<u64>,
}

/// A [`NodeSummary`] as plain data, for use in contracts.
pub struct NodeSummaryView {
    pub node_type: Seq<char>,
    pub node: Seq<char>,
    pub status: NodeStatus,
    pub id: Seq<char>,
    pub cpu: Option<JsonNumber>,
    pub disk: Option<u64>,
    pub level: Option<Seq<char>>,
    pub maxcpu: Option<u32>,
    pub maxdisk: Option<u64>,
    pub maxmem: Option<u64>,
    pub mem: Option<u64>,
    pub ssl_fingerprint: Option<Seq<char>>,
    pub uptime: Option<u64>,
}

impl View for NodeSummary {
    type V = NodeSummaryView;

    closed spec fn view(&self) -> NodeSummaryView {
        NodeSummaryView {
            node_type: self.node_type@,
            node: self.node@,
            status: self.status,
            id: self.id@,
            cpu: self.cpu,
            disk: self.disk,
            level: text_view(self.level),
            maxcpu: self.maxcpu,
            maxdisk: self.maxdisk,
            maxmem: self.maxmem,
            mem: self.mem,
            ssl_fingerprint: text_view(self.ssl_fingerprint),
            uptime: self.uptime,
        }
    }
}

impl NodeSummary {
    #[inline]
    #[must_use]
    pub fn node(&self) -> (r: &str)
        ensures
            r@ == self@.node,
    {
        self.node.as_str()
    }

    #[inline]
    #[must_use]
    pub fn status(&self) -> (r: NodeStatus)
        ensures
            r == self@.status,
    {
        self.status
    }

    /// CPU utilization, as the number that the API sent.
    #[inline]
    #[must_use]
    pub fn cpu(&self) -> (r: Option<JsonNumber>)
        ensures
            r == self@.cpu,
    {
        self.cpu
    }

    #[inline]
    #[must_use]
    pub fn disk(&self) -> (r: Option<u64>)
        ensures
            r == self@.disk,
    {
        self.disk
    }

    #[inline]
    #[must_use]
    pub fn id(&self) -> (r: &str)
        ensures
            r@ == self@.id,
    {
        self.id.as_str()
    }

    #[inline]
    #[must_use]
    pub fn level(&self) -> (r: Option<&str>)
        ensures
            match r {
                Some(t) => self@.level == Some(t@),
                None => self@.level is None,
            },
    {
        as_deref(&self.level)
    }

    #[inline]
    #[must_use]
    pub fn maxcpu(&self) -> (r: Option<u32>)
        ensures
            r == self@.maxcpu,
    {
        self.maxcpu
    }

    #[inline]
    #[must_use]
    pub fn maxdisk(&self) -> (r: Option<u64>)
        ensures
            r == self@.maxdisk,
    {
        self.maxdisk
    }

    #[inline]
    #[must_use]
    pub fn maxmem(&self) -> (r: Option<u64>)
        ensures
            r == self@.maxmem,
    {
        self.maxmem
    }

    #[inline]
    #[must_use]
    pub fn mem(&self) -> (r: Option<u64>)
        ensures
            r == self@.mem,
    {
        self.mem
    }

    #[inline]
    #[must_use]
    pub fn node_type(&self) -> (r: &str)
        ensures
            r@ == self@.node_type,
    {
        self.node_type.as_str()
    }

    #[inline]
    #[must_use]
    pub fn ssl_fingerprint(&self) -> (r: Option<&str>)
        ensures
            match r {
                Some(t) => self@.ssl_fingerprint == Some(t@),
                None => self@.ssl_fingerprint is None,
            },
    {
        as_deref(&self.ssl_fingerprint)
    }

    #[inline]
    #[must_use]
    pub fn uptime(&self) -> (r: Option<u64>)
        ensures
            r == self@.uptime,
    {
        self.uptime
    }
}

/// The status that a field holds, if it holds the word for one.
pub open spec fn node_status_field(value: Option<JsonValue>) -> Option<NodeStatus> {
    match text_field(value) {
        Some(word) => NodeStatus::named(word),
        None => None,
    }
}

fn read_node_status(value: Option<&JsonValue>) -> (r: Option<NodeStatus>)
    ensures
        r == node_status_field(crate::json::deref_value(value)),
{
    match value {
        Some(JsonValue::String(word)) => NodeStatus::from_name(word.as_str()),
        _ => None,
    }
}

impl JsonRecord for NodeSummary {
    open spec fn decoded(raw: JsonValue) -> Option<NodeSummaryView> {
        match raw {
            JsonValue::Object(m) => {
                let node_type = text_field(member(m@, "type"@));
                let node = text_field(member(m@, "node"@));
                let status = node_status_field(member(m@, "status"@));
                let id = text_field(member(m@, "id"@));
                let cpu = optional_any_number_field(member(m@, "cpu"@));
                let disk = optional_number_field(member(m@, "disk"@), u64::MAX);
                let level = optional_text_field(member(m@, "level"@));
                let maxcpu = optional_number_field(member(m@, "maxcpu"@), 0xffff_ffff);
                let maxdisk = optional_number_field(member(m@, "maxdisk"@), u64::MAX);
                let maxmem = optional_number_field(member(m@, "maxmem"@), u64::MAX);
                let mem = optional_number_field(member(m@, "mem"@), u64::MAX);
                let ssl_fingerprint = optional_text_field(member(m@, "ssl_fingerprint"@));
                let uptime = optional_number_field(member(m@, "uptime"@), u64::MAX);
                if node_type is Some && node is Some && status is Some && id is Some && cpu is Some
                    && disk is Some && level is Some && maxcpu is Some && maxdisk is Some
                    && maxmem is Some && mem is Some && ssl_fingerprint is Some && uptime is Some {
                    Some(
                        NodeSummaryView {
                            node_type: node_type->0,
                            node: node->0,
                            status: status->0,
                            id: id->0,
                            cpu: cpu->0,
                            disk: disk->0,
                            level: level->0,
                            maxcpu: narrow(maxcpu->0),
                            maxdisk: maxdisk->0,
                            maxmem: maxmem->0,
                            mem: mem->0,
                            ssl_fingerprint: ssl_fingerprint->0,
                            uptime: uptime->0,
                        },
                    )
                } else {
                    None
                }
            },
            _ => None,
        }
    }

    fn from_json(raw: &JsonValue) -> (r: Result<Self, DecodeError>) {
        let m = match raw {
            JsonValue::Object(m) => m,
            _ => {
                return Err(DecodeError::Schema);
            },
        };
        let node_type = match read_text(find_member(m, "type")) {
            Some(v) => v,
            None => {
                return Err(DecodeError::Schema);
            },
        };
        let node = match read_text(find_member(m, "node")) {
            Some(v) => v,
            None => {
                return Err(DecodeError::Schema);
            },
        };
        let status = match read_node_status(find_member(m, "status")) {
            Some(v) => v,
            None => {
                return Err(DecodeError::Schema);
            },
        };
        let id = match read_text(find_member(m, "id")) {
            Some(v) => v,
            None => {
                return Err(DecodeError::Schema);
            },
        };
        let cpu = match read_optional_any_number(find_member(m, "cpu")) {
            Some(v) => v,
            None => {
                return Err(DecodeError::Schema);
            },
        };
        let disk = match read_optional_number(find_member(m, "disk"), u64::MAX) {
            Some(v) => v,
            None => {
                return Err(DecodeError::Schema);
            },
        };
        let level = match read_optional_text(find_member(m, "level")) {
            Some(v) => v,
            None => {
                return Err(DecodeError::Schema);
            },
        };
        let maxcpu = match read_optional_number(find_member(m, "maxcpu"), 0xffff_ffff) {
            Some(v) => narrowed(v),
            None => {
                return Err(DecodeError::Schema);
            },
        };
        let maxdisk = match read_optional_number(find_member(m, "maxdisk"), u64::MAX) {
            Some(v) => v,
            None => {
                return Err(DecodeError::Schema);
            },
        };
        let maxmem = match read_optional_number(find_member(m, "maxmem"), u64::MAX) {
            Some(v) => v,
            None => {
                return Err(DecodeError::Schema);
            },
        };
        let mem = match read_optional_number(find_member(m, "mem"), u64::MAX) {
            Some(v) => v,
            None => {
                return Err(DecodeError::Schema);
            },
        };
        let ssl_fingerprint = match read_optional_text(find_member(m, "ssl_fingerprint")) {
            Some(v) => v,
            None => {
                return Err(DecodeError::Schema);
            },
        };
        let uptime = match read_optional_number(find_member(m, "uptime"), u64::MAX) {
            Some(v) => v,
            None => {
                return Err(DecodeError::Schema);
            },
        };
        Ok(
            NodeSummary {
                node_type,
                node,
                status,
                id,
                cpu,
                disk,
                level,
                maxcpu,
                maxdisk,
                maxmem,
                mem,
                ssl_fingerprint,
                uptime,
            },
        )
    }
}

/// The status reported for a single virtual machine.
#[derive(Debug, Clone, Copy, PartialEq, Eq, Structural)]
pub enum VmStatus {
    /// The VM is running.
    Running,
    /// The VM is stopped.
    Stopped,
}

impl VmStatus {
    /// The status that a word of the API names.
    pub open spec fn named(word: Seq<char>) -> Option<VmStatus> {
        if word == "running"@ {
            Some(VmStatus::Running)
        } else if word == "stopped"@ {
            Some(VmStatus::Stopped)
        } else {
            None
        }
    }

    /// Reads a status from the word that names it.
    pub fn from_name(word: &str) -> (r: Option<VmStatus>)
        ensures
            r == VmStatus::named(word@),
    {
        if same_text(word, "running") {
            Some(VmStatus::Running)
        } else if same_text(word, "stopped") {
            Some(VmStatus::Stopped)
        } else {
            None
        }
    }
}

/// The status that a field holds, if it holds the word for one.
pub open spec fn vm_status_field(value: Option<JsonValue>) -> Option<VmStatus> {
    match text_field(value) {
        Some(word) => VmStatus::named(word),
        None => None,
    }
}

fn read_vm_status(value: Option<&JsonValue>) -> (r: Option<VmStatus>)
    ensures
        r == vm_status_field(crate::json::deref_value(value)),
{
    match value {
        Some(JsonValue::String(word)) => VmStatus::from_name(word.as_str()),
        _ => None,
    }
}

/// Summary information about a Proxmox VE virtual machine.
#[derive(Debug)]
pub struct VmSummary {
    /// The ID of the VM.
    vmid: u32,
    /// QEMU process status.
    status: VmStatus,
    /// Maximum usable CPUs.
    cpus: Option<u32>,
    /// The current config lock, if any.
    lock: Option<String>,
}

/// A [`VmSummary`] as plain data, for use in contracts.
pub struct VmSummaryView {
    pub vmid: u32,
    pub status: VmStatus,
    pub cpus: Option<u32>,
    pub lock: Option<Seq<char>>,
}

impl View for VmSummary {
    type V = VmSummaryView;

    closed spec fn view(&self) -> VmSummaryView {
        VmSummaryView {
            vmid: self.vmid,
            status: self.status,
            cpus: self.cpus,
            lock: text_view(self.lock),
        }
    }
}

impl VmSummary {
    #[inline]
    #[must_use]
    pub fn vmid(&self) -> (r: u32)
        ensures
            r == self@.vmid,
    {
        self.vmid
    }

    #[inline]
    #[must_use]
    pub fn status(&self) -> (r: VmStatus)
        ensures
            r == self@.status,
    {
        self.status
    }

    #[inline]
    #[must_use]
    pub fn cpus(&self) -> (r: Option<u32>)
        ensures
            r == self@.cpus,
    {
        self.cpus
    }

    #[inline]
    #[must_use]
    pub fn lock(&self) -> (r: Option<&str>)
        ensures
            match r {
                Some(t) => self@.lock == Some(t@),
                None => self@.lock is None,
            },
    {
        as_deref(&self.lock)
    }
}

impl JsonRecord for VmSummary {
    open spec fn decoded(raw: JsonValue) -> Option<VmSummaryView> {
        match raw {
            JsonValue::Object(m) => {
                let vmid = number_field(member(m@, "vmid"@), 0xffff_ffff);
                let status = vm_status_field(member(m@, "status"@));
                let cpus = optional_number_field(member(m@, "cpus"@), 0xffff_ffff);
                let lock = optional_text_field(member(m@, "lock"@));
                if vmid is Some && status is Some && cpus is Some && lock is Some {
                    Some(
                        VmSummaryView {
                            vmid: vmid->0 as u32,
                            status: status->0,
                            cpus: narrow(cpus->0),
                            lock: lock->0,
                        },
                    )
                } else {
                    None
                }
            },
            _ => None,
        }
    }

    fn from_json(raw: &JsonValue) -> (r: Result<Self, DecodeError>) {
        let m = match raw {
            JsonValue::Object(m) => m,
            _ => {
                return Err(DecodeError::Schema);
            },
        };
        let vmid = match read_number(find_member(m, "vmid"), 0xffff_ffff) {
            Some(v) => v as u32,
            None => {
                return Err(DecodeError::Schema);
            },
        };
        let status = match read_vm_status(find_member(m, "status")) {
            Some(v) => v,
            None => {
                return Err(DecodeError::Schema);
            },
        };
        let cpus = match read_optional_number(find_member(m, "cpus"), 0xffff_ffff) {
            Some(v) => narrowed(v),
            None => {
                return Err(DecodeError::Schema);
            },
        };
        let lock = match read_optional_text(find_member(m, "lock")) {
            Some(v) => v,
            None => {
                return Err(DecodeError::Schema);
            },
        };
        Ok(VmSummary { vmid, status, cpus, lock })
    }
}

/// A network interface attached to a virtual machine: its index and its
/// definition as the API sent it.
#[derive(Debug)]
pub enum VmNetIface {
    Virtio(u32, String),
}

/// A [`VmNetIface`] as plain data, for use in contracts.
pub enum VmNetIfaceView {
    Virtio(u32, Seq<char>),
}

impl View for VmNetIface {
    type V = VmNetIfaceView;

    open spec fn view(&self) -> VmNetIfaceView {
        match *self {
            VmNetIface::Virtio(index, definition) => VmNetIfaceView::Virtio(index, definition@),
        }
    }
}

/// The type of the disk as seen by the virtual machine (IDE, SCSI, etc.).
#[derive(Debug, Clone, Copy, PartialEq, Eq, Structural)]
pub enum VmDiskType {
    /// A simulated IDE disk.
    Ide,
    /// A simulated serial ATA disk.
    Sata,
    /// A simulated SCSI disk.
    Scsi,
    /// A disk using qemu's "virtio" emulation protocol.
    Virtio,
}

impl VmDiskType {
    /// The word that names the disk type.
    pub open spec fn word(self) -> Seq<char> {
        match self {
            VmDiskType::Ide => "ide"@,
            VmDiskType::Sata => "sata"@,
            VmDiskType::Scsi => "scsi"@,
            VmDiskType::Virtio => "virtio"@,
        }
    }

    /// The disk type that a word names.
    pub open spec fn named(word: Seq<char>) -> Option<VmDiskType> {
        if word == "ide"@ {
            Some(VmDiskType::Ide)
        } else if word == "sata"@ {
            Some(VmDiskType::Sata)
        } else if word == "scsi"@ {
            Some(VmDiskType::Scsi)
        } else if word == "virtio"@ {
            Some(VmDiskType::Virtio)
        } else {
            None
        }
    }

    /// The word that names the disk type.
    #[inline]
    pub fn as_ref(&self) -> (r: &'static str)
        ensures
            r@ == self.word(),
    {
        match *self {
            VmDiskType::Ide => "ide",
            VmDiskType::Sata => "sata",
            VmDiskType::Scsi => "scsi",
            VmDiskType::Virtio => "virtio",
        }
    }

    /// The disk type that `value` names.
    #[inline]
    pub fn from_str(value: &str) -> (r: Result<Self, Error>)
        ensures
            match r {
                Ok(disk_type) => VmDiskType::named(value@) == Some(disk_type),
                Err(e) => VmDiskType::named(value@) is None && e@ == ErrorView::Api(
                    ApiErrorView::DiskType(value@),
                ),
            },
    {
        if same_text(value, "ide") {
            Ok(VmDiskType::Ide)
        } else if same_text(value, "sata") {
            Ok(VmDiskType::Sata)
        } else if same_text(value, "scsi") {
            Ok(VmDiskType::Scsi)
        } else if same_text(value, "virtio") {
            Ok(VmDiskType::Virtio)
        } else {
            Err(Error::Api(ApiError::DiskType(value.to_owned())))
        }
    }
}

/// A single disk attached to a Proxmox VE virtual machine.
#[derive(Debug)]
pub struct VmDisk {
    /// The disk type as seen by the VM.
    disk_type: VmDiskType,
    /// The per-disk-type index of the disk within the VM (e.g. 2 for `scsi2`).
    idx: u32,
    /// The identifier of the Proxmox VE storage where the disk data is stored.
    storage: String,
    /// The storage-specific ID of the volume where the disk data is stored.
    volid: String,
    /// Any additional options configured for the disk (`size`, `discard`, `iothread`, etc.).
    options: DiskOptions,
}

/// A [`VmDisk`] as plain data, for use in contracts.
pub struct VmDiskView {
    pub disk_type: VmDiskType,
    pub idx: u32,
    pub storage: Seq<char>,
    pub volid: Seq<char>,
    pub options: Map<Seq<char>, Seq<char>>,
}

impl View for VmDisk {
    type V = VmDiskView;

    closed spec fn view(&self) -> VmDiskView {
        VmDiskView {
            disk_type: self.disk_type,
            idx: self.idx,
            storage: self.storage@,
            volid: self.volid@,
            options: self.options@,
        }
    }
}

impl VmDisk {
    #[inline]
    #[must_use]
    pub fn disk_type(&self) -> (r: VmDiskType)
        ensures
            r == self@.disk_type,
    {
        self.disk_type
    }

    #[inline]
    #[must_use]
    pub fn idx(&self) -> (r: u32)
        ensures
            r == self@.idx,
    {
        self.idx
    }

    #[inline]
    #[must_use]
    pub fn storage(&self) -> (r: &str)
        ensures
            r@ == self@.storage,
    {
        self.storage.as_str()
    }

    #[inline]
    #[must_use]
    pub fn volid(&self) -> (r: &str)
        ensures
            r@ == self@.volid,
    {
        self.volid.as_str()
    }

    #[inline]
    #[must_use]
    pub fn options(&self) -> (r: &DiskOptions)
        ensures
            r@ == self@.options,
    {
        &self.options
    }
}

/// The disk of a type and an index that a definition describes, if the text
/// is a definition.
pub open spec fn disk_of(disk_type: VmDiskType, idx: u32, contents: Seq<char>) -> Option<VmDiskView> {
    match disk_definition(contents) {
        Some(d) => Some(
            VmDiskView {
                disk_type,
                idx,
                storage: d.storage,
                volid: d.volume,
                options: options_map(d.options),
            },
        ),
        None => None,
    }
}

/// Parse the definition of a Proxmox VE disk as found in the VM configuration.
#[inline]
pub fn parse_disk(disk_type: VmDiskType, idx: u32, contents: &str) -> (r: Result<VmDisk, Error>)
    ensures
        match r {
            Ok(disk) => disk_of(disk_type, idx, contents@) == Some(disk@),
            Err(e) => disk_of(disk_type, idx, contents@) is None && e@ == ErrorView::Api(
                ApiErrorView::DiskDefinition(contents@),
            ),
        },
{
    match disk(contents) {
        Ok((storage, volid, options)) => Ok(VmDisk { disk_type, idx, storage, volid, options }),
        Err(e) => Err(e),
    }
}

/// The configuration of a Proxmox VE virtual machine.
#[derive(Debug)]
pub struct VmConfig {
    /// The checksum of the current version of the virtual machine's configuration.
    digest: String,
    /// The simulated SCSI controller type.
    scsihw: Option<String>,
    /// The network interfaces attached to the virtual machine.
    net: Vec<VmNetIface>,
    /// The various disks (IDE, SATA, SCSI, Virtio) attached to the virtual machine.
    disks: Vec<VmDisk>,
}

/// A [`VmConfig`] as plain data, for use in contracts.
pub struct VmConfigView {
    pub digest: Seq<char>,
    pub scsihw: Option<Seq<char>>,
    pub net: Seq<VmNetIfaceView>,
    pub disks: Seq<VmDiskView>,
}

impl VmConfigView {
    /// The configuration that nothing has been read into.
    pub open spec fn empty() -> VmConfigView {
        VmConfigView { digest: Seq::empty(), scsihw: None, net: Seq::empty(), disks: Seq::empty() }
    }

    /// What one member of the configuration object adds to the
    /// configuration, or the error that it stops the decoding with.
    pub open spec fn step(self, key: Seq<char>, value: JsonValue) -> Result<
        VmConfigView,
        DecodeErrorView,
    > {
        match device_key(key) {
            Some((class, index)) => if index > u32::MAX {
                Err(DecodeErrorView::Index(key))
            } else {
                match value {
                    JsonValue::String(text) => match class.spec_disk_type() {
                        None => Ok(
                            VmConfigView {
                                net: self.net.push(VmNetIfaceView::Virtio(index as u32, text@)),
                                ..self
                            },
                        ),
                        Some(disk_type) => match disk_of(disk_type, index as u32, text@) {
                            Some(disk) => Ok(VmConfigView { disks: self.disks.push(disk), ..self }),
                            None => Err(DecodeErrorView::Disk(key, text@)),
                        },
                    },
                    _ => Err(DecodeErrorView::Value(key)),
                }
            },
            None => if key == "digest"@ {
                match value {
                    JsonValue::String(text) => Ok(VmConfigView { digest: text@, ..self }),
                    _ => Err(DecodeErrorView::Digest),
                }
            } else {
                Ok(self)
            },
        }
    }

    /// What the members of the configuration object add to the
    /// configuration, taken one after the other; the first error ends it.
    pub open spec fn fold(self, members: Seq<(String, JsonValue)>) -> Result<
        VmConfigView,
        DecodeErrorView,
    >
        decreases members.len(),
    {
        if members.len() == 0 {
            Ok(self)
        } else {
            match self.step(members[0].0@, members[0].1) {
                Ok(next) => next.fold(members.drop_first()),
                Err(e) => Err(e),
            }
        }
    }
}

impl View for VmConfig {
    type V = VmConfigView;

    closed spec fn view(&self) -> VmConfigView {
        VmConfigView {
            digest: self.digest@,
            scsihw: text_view(self.scsihw),
            net: views(self.net@),
            disks: views(self.disks@),
        }
    }
}

impl Default for VmConfig {
    fn default() -> (r: Self)
        ensures
            r@ == VmConfigView::empty(),
    {
        let r = VmConfig { digest: String::new(), scsihw: None, net: Vec::new(), disks: Vec::new() };
        assert(views(r.net@) =~= Seq::<VmNetIfaceView>::empty());
        assert(views(r.disks@) =~= Seq::<VmDiskView>::empty());
        r
    }
}

impl VmConfig {
    #[inline]
    #[must_use]
    pub fn digest(&self) -> (r: &str)
        ensures
            r@ == self@.digest,
    {
        self.digest.as_str()
    }

    #[inline]
    #[must_use]
    pub fn scsihw(&self) -> (r: Option<&str>)
        ensures
            match r {
                Some(t) => self@.scsihw == Some(t@),
                None => self@.scsihw is None,
            },
    {
        as_deref(&self.scsihw)
    }

    #[inline]
    #[must_use]
    pub fn net(&self) -> (r: &[VmNetIface])
        ensures
            views(r@) == self@.net,
    {
        self.net.as_slice()
    }

    #[inline]
    #[must_use]
    pub fn disks(&self) -> (r: &[VmDisk])
        ensures
            views(r@) == self@.disks,
    {
        self.disks.as_slice()
    }

    /// The configuration that a JSON value holds: the value must be an
    /// object, and each of its members is taken in turn. A member whose key
    /// names a device must hold a string, which for a disk must be a disk
    /// definition; the member `digest` must hold a string; any other member
    /// is passed over.
    pub open spec fn decoded(raw: JsonValue) -> Result<VmConfigView, DecodeErrorView> {
        match raw {
            JsonValue::Object(m) => VmConfigView::empty().fold(m@),
            _ => Err(DecodeErrorView::Schema),
        }
    }

    /// Reads the configuration of a virtual machine from a JSON value.
    pub fn from_json(raw: &JsonValue) -> (r: Result<VmConfig, DecodeError>)
        ensures
            match r {
                Ok(config) => VmConfig::decoded(*raw) == Ok::<VmConfigView, DecodeErrorView>(config@),
                Err(e) => VmConfig::decoded(*raw) == Err::<VmConfigView, DecodeErrorView>(e@),
            },
    {
        let m = match raw {
            JsonValue::Object(m) => m,
            _ => {
                return Err(DecodeError::Schema);
            },
        };
        let mut digest = String::new();
        let mut net: Vec<VmNetIface> = Vec::new();
        let mut disks: Vec<VmDisk> = Vec::new();
        let mut i: usize = 0;
        assert(m@.skip(0) =~= m@);
        assert(views(net@) =~= Seq::<VmNetIfaceView>::empty());
        assert(views(disks@) =~= Seq::<VmDiskView>::empty());
        while i < m.len()
            invariant
                *raw == JsonValue::Object(*m),
                i <= m@.len(),
                VmConfigView::empty().fold(m@) == (VmConfigView {
                    digest: digest@,
                    scsihw: None,
                    net: views(net@),
                    disks: views(disks@),
                }).fold(m@.skip(i as int)),
            decreases m@.len() - i,
        {
            let key = m[i].0.as_str();
            let value = &m[i].1;
            let ghost now = VmConfigView {
                digest: digest@,
                scsihw: None,
                net: views(net@),
                disks: views(disks@),
            };
            proof {
                assert(m@.skip(i as int)[0] == m@[i as int]);
                assert(m@.skip(i as int).drop_first() =~= m@.skip(i + 1));
            }
            match match_device_key(key) {
                Some((class, found)) => {
                    let index = match found {
                        Some(index) => index,
                        None => {
                            return Err(DecodeError::Index(key.to_owned()));
                        },
                    };
                    let text = match value {
                        JsonValue::String(text) => text,
                        _ => {
                            return Err(DecodeError::Value(key.to_owned()));
                        },
                    };
                    match class.disk_type() {
                        None => {
                            let ghost before = views(net@);
                            net.push(VmNetIface::Virtio(index, text.clone()));
                            assert(views(net@) =~= before.push(VmNetIfaceView::Virtio(index, text@)));
                        },
                        Some(disk_type) => match parse_disk(disk_type, index, text.as_str()) {
                            Ok(disk) => {
                                let ghost before = views(disks@);
                                let ghost added = disk@;
                                disks.push(disk);
                                assert(views(disks@) =~= before.push(added));
                            },
                            Err(_) => {
                                return Err(DecodeError::Disk(key.to_owned(), text.clone()));
                            },
                        },
                    }
                },
                None => {
                    if same_text(key, "digest") {
                        match value {
                            JsonValue::String(text) => {
                                digest = text.clone();
                            },
                            _ => {
                                return Err(DecodeError::Digest);
                            },
                        }
                    }
                },
            }
            i += 1;
        }
        Ok(VmConfig { digest, scsihw: None, net, disks })
    }
}

} // verus!
