//! Build a query path for a Proxmox VE API request.
//!
//! Each place in the tree of the API has a type of its own, and a value of
//! it can only be taken further along the branches that the API has there.

use crate::defs::{ApiError, ApiErrorView, DecodeErrorView, Error, ErrorView};
use crate::json::JsonValue;
use crate::text::{decimal, decimal_string};
use crate::types::{
    decoded_list, list_from_json, views, JsonRecord, NameSubdir, NodeSummary, Storage, Subdir,
    VmConfig, VmSummary,
};
use vstd::prelude::*;
use vstd::string::StringExecFns;

verus! {

/// The segments of a path as text.
pub open spec fn texts(parts: Seq<String>) -> Seq<Seq<char>> {
    parts.map_values(|part: String| part@)
}

/// The segments of a path with a slash between each two of them.
pub open spec fn joined(parts: Seq<Seq<char>>) -> Seq<char>
    decreases parts.len(),
{
    if parts.len() == 0 {
        Seq::empty()
    } else if parts.len() == 1 {
        parts[0]
    } else {
        joined(parts.drop_last()) + seq!['/'] + parts.last()
    }
}

/// The query that the segments of a path make: the segments with a slash
/// between each two of them.
pub fn query(parts: &[String]) -> (r: String)
    ensures
        r@ == joined(texts(parts@)),
{
    let mut text = String::new();
    let mut i: usize = 0;
    let ghost all = texts(parts@);
    assert(all.take(0) =~= Seq::<Seq<char>>::empty());
    while i < parts.len()
        invariant
            i <= parts@.len(),
            all == texts(parts@),
            text@ == joined(all.take(i as int)),
        decreases parts@.len() - i,
    {
        proof {
            reveal_strlit("/");
            assert(all.take(i + 1).drop_last() =~= all.take(i as int));
            assert(all.take(i + 1).last() == parts@[i as int]@);
        }
        if i > 0 {
            text.append("/");
            assert("/"@ =~= seq!['/']);
        }
        text.append(parts[i].as_str());
        assert(text@ =~= joined(all.take(i + 1)));
        i += 1;
    }
    assert(all.take(parts@.len() as int) =~= all);
    text
}

/// What decoding the payload of an endpoint that lists records may give:
/// the records that the payload holds, or, where it holds none, an error
/// that names the endpoint.
pub open spec fn list_outcome<T: JsonRecord>(
    raw: JsonValue,
    desc: Seq<char>,
    r: Result<Vec<T>, Error>,
) -> bool {
    match r {
        Ok(records) => decoded_list::<T>(raw) == Some(views(records@)),
        Err(e) => decoded_list::<T>(raw) is None && e@ == ErrorView::Api(
            ApiErrorView::Decode(desc, DecodeErrorView::Schema),
        ),
    }
}

/// A generic JSON-to-Rust-object deserializer for the lists returned by the API.
fn gen_from_json<T: JsonRecord>(raw: JsonValue, desc: &str) -> (r: Result<Vec<T>, Error>)
    ensures
        list_outcome::<T>(raw, desc@, r),
{
    match list_from_json::<T>(&raw) {
        Ok(records) => Ok(records),
        Err(cause) => Err(Error::Api(ApiError::Decode(desc.to_owned(), cause))),
    }
}

/// An API request's query path built incrementally.
pub trait PathStop: Sized {
    /// The type returned by the API request.
    type ResultType;

    /// The strings that are joined by slashes to build the query path.
    spec fn segments(&self) -> Seq<Seq<char>>;

    /// The name of the endpoint.
    spec fn description() -> Seq<char>;

    /// Whether `r` is what decoding the payload `raw` of the endpoint gives.
    spec fn decoded(raw: JsonValue, r: Result<Self::ResultType, Error>) -> bool;

    /// A short human-readable name for the API endpoint.
    fn desc() -> (r: &'static str)
        ensures
            r@ == Self::description(),
    ;

    /// Get the strings to be joined by slash characters to build the query path.
    fn parts(&self) -> (r: &[String])
        ensures
            texts(r@) == self.segments(),
    ;

    /// Parse the raw JSON data returned by Proxmox VE into a Rust object.
    fn from_json(raw: JsonValue) -> (r: Result<Self::ResultType, Error>)
        ensures
            Self::decoded(raw, r),
    ;
}

/// A query path builder that does not have its own identifier.
pub trait PathStopPure: PathStop {
    /// The segment that the endpoint adds to the path of its parent, if it
    /// adds one.
    spec fn segment() -> Option<Seq<char>>;

    /// Build our query path based on the one of the parent.
    fn from_parts(parts: Vec<String>) -> (r: Self)
        ensures
            r.segments() == match Self::segment() {
                Some(part) => texts(parts@).push(part),
                None => texts(parts@),
            },
    ;
}

/// A query path builder that has its own identifier (usually a string).
pub trait PathStopId<T>: PathStop {
    /// The segment that stands for an identifier.
    spec fn id_segment(id: T) -> Seq<char>;

    /// Build our query path based on the one of the parent and a value for the identifier.
    fn from_parts_with_id(parts: Vec<String>, id: T) -> (r: Self)
        ensures
            r.segments() == texts(parts@).push(Self::id_segment(id)),
    ;
}

/// The parts with one part more.
fn extended(parts: Vec<String>, part: String) -> (r: Vec<String>)
    ensures
        texts(r@) == texts(parts@).push(part@),
        r@ == parts@.push(part),
{
    let ghost before = texts(parts@);
    let ghost added = part@;
    let mut parts = parts;
    parts.push(part);
    assert(texts(parts@) =~= before.push(added));
    parts
}

/// The storage definitions of the cluster: `storage`.
#[derive(Debug, Clone)]
pub struct PathStorage {
    parts: Vec<String>,
}

impl PathStop for PathStorage {
    type ResultType = Vec<Storage>;

    closed spec fn segments(&self) -> Seq<Seq<char>> {
        texts(self.parts@)
    }

    open spec fn description() -> Seq<char> {
        "storage definitions"@
    }

    open spec fn decoded(raw: JsonValue, r: Result<Vec<Storage>, Error>) -> bool {
        list_outcome::<Storage>(raw, Self::description(), r)
    }

    #[inline]
    fn desc() -> (r: &'static str) {
        "storage definitions"
    }

    #[inline]
    fn parts(&self) -> (r: &[String]) {
        self.parts.as_slice()
    }

    #[inline]
    fn from_json(raw: JsonValue) -> (r: Result<Vec<Storage>, Error>) {
        gen_from_json::<Storage>(raw, Self::desc())
    }
}

impl PathStopPure for PathStorage {
    open spec fn segment() -> Option<Seq<char>> {
        Some("storage"@)
    }

    #[inline]
    fn from_parts(parts: Vec<String>) -> (r: Self) {
        PathStorage { parts: extended(parts, String::from_str("storage")) }
    }
}

/// The configuration of a virtual machine:
/// `nodes/{name}/qemu/{vmid}/config`.
#[derive(Debug, Clone)]
pub struct PathNNVVConfig {
    parts: Vec<String>,
}

impl PathStop for PathNNVVConfig {
    type ResultType = VmConfig;

    closed spec fn segments(&self) -> Seq<Seq<char>> {
        texts(self.parts@)
    }

    open spec fn description() -> Seq<char> {
        "configuration of a virtual machine"@
    }

    open spec fn decoded(raw: JsonValue, r: Result<VmConfig, Error>) -> bool {
        match (r, VmConfig::decoded(raw)) {
            (Ok(config), Ok(held)) => config@ == held,
            (Err(e), Err(cause)) => e@ == ErrorView::Api(
                ApiErrorView::Decode(Self::description(), cause),
            ),
            _ => false,
        }
    }

    #[inline]
    fn desc() -> (r: &'static str) {
        "configuration of a virtual machine"
    }

    #[inline]
    fn parts(&self) -> (r: &[String]) {
        self.parts.as_slice()
    }

    /// Deserialize a JSON raw value into the configuration of a virtual
    /// machine.
    #[inline]
    fn from_json(raw: JsonValue) -> (r: Result<VmConfig, Error>) {
        match VmConfig::from_json(&raw) {
            Ok(config) => Ok(config),
            Err(cause) => Err(Error::Api(ApiError::Decode(Self::desc().to_owned(), cause))),
        }
    }
}

impl PathStopPure for PathNNVVConfig {
    open spec fn segment() -> Option<Seq<char>> {
        Some("config"@)
    }

    #[inline]
    fn from_parts(parts: Vec<String>) -> (r: Self) {
        PathNNVVConfig { parts: extended(parts, String::from_str("config")) }
    }
}

/// A single virtual machine: `nodes/{name}/qemu/{vmid}`.
#[derive(Debug, Clone)]
pub struct PathNNVVm {
    id: u32,
    parts: Vec<String>,
}

impl PathNNVVm {
    /// The identifier of the virtual machine.
    pub closed spec fn spec_id(&self) -> u32 {
        self.id
    }

    /// The identifier of the virtual machine.
    #[inline]
    #[must_use]
    pub fn id(&self) -> (r: u32)
        ensures
            r == self.spec_id(),
    {
        self.id
    }

    /// The configuration of the virtual machine.
    #[inline]
    #[must_use]
    pub fn config(self) -> (r: PathNNVVConfig)
        ensures
            r.segments() == self.segments().push("config"@),
    {
        PathNNVVConfig::from_parts(self.parts)
    }
}

impl PathStop for PathNNVVm {
    type ResultType = Vec<Subdir>;

    closed spec fn segments(&self) -> Seq<Seq<char>> {
        texts(self.parts@)
    }

    open spec fn description() -> Seq<char> {
        "virtual machine"@
    }

    open spec fn decoded(raw: JsonValue, r: Result<Vec<Subdir>, Error>) -> bool {
        list_outcome::<Subdir>(raw, Self::description(), r)
    }

    #[inline]
    fn desc() -> (r: &'static str) {
        "virtual machine"
    }

    #[inline]
    fn parts(&self) -> (r: &[String]) {
        self.parts.as_slice()
    }

    #[inline]
    fn from_json(raw: JsonValue) -> (r: Result<Vec<Subdir>, Error>) {
        gen_from_json::<Subdir>(raw, Self::desc())
    }
}

impl PathStopId<u32> for PathNNVVm {
    open spec fn id_segment(id: u32) -> Seq<char> {
        decimal(id as nat)
    }

    #[inline]
    fn from_parts_with_id(parts: Vec<String>, id: u32) -> (r: Self)
        ensures
            r.spec_id() == id,
    {
        PathNNVVm { id, parts: extended(parts, decimal_string(id)) }
    }
}

/// The virtual machines on a node: `nodes/{name}/qemu`.
#[derive(Debug, Clone)]
pub struct PathNNVms {
    parts: Vec<String>,
}

impl PathStop for PathNNVms {
    type ResultType = Vec<VmSummary>;

    closed spec fn segments(&self) -> Seq<Seq<char>> {
        texts(self.parts@)
    }

    open spec fn description() -> Seq<char> {
        "virtual machines on a node"@
    }

    open spec fn decoded(raw: JsonValue, r: Result<Vec<VmSummary>, Error>) -> bool {
        list_outcome::<VmSummary>(raw, Self::description(), r)
    }

    #[inline]
    fn desc() -> (r: &'static str) {
        "virtual machines on a node"
    }

    #[inline]
    fn parts(&self) -> (r: &[String]) {
        self.parts.as_slice()
    }

    #[inline]
    fn from_json(raw: JsonValue) -> (r: Result<Vec<VmSummary>, Error>) {
        gen_from_json::<VmSummary>(raw, Self::desc())
    }
}

impl PathStopPure for PathNNVms {
    open spec fn segment() -> Option<Seq<char>> {
        Some("qemu"@)
    }

    #[inline]
    fn from_parts(parts: Vec<String>) -> (r: Self) {
        PathNNVms { parts: extended(parts, String::from_str("qemu")) }
    }
}

impl PathNNVms {
    /// One virtual machine on the node, by its identifier.
    #[inline]
    #[must_use]
    pub fn id(self, vmid: u32) -> (r: PathNNVVm)
        ensures
            r.segments() == self.segments().push(decimal(vmid as nat)),
            r.spec_id() == vmid,
    {
        PathNNVVm::from_parts_with_id(self.parts, vmid)
    }
}

/// A single node of the cluster: `nodes/{name}`.
#[derive(Debug, Clone)]
pub struct PathNNode {
    id: String,
    parts: Vec<String>,
}

impl PathNNode {
    /// The name of the node.
    pub closed spec fn spec_id(&self) -> Seq<char> {
        self.id@
    }

    /// The name of the node.
    #[inline]
    #[must_use]
    pub fn id(&self) -> (r: &str)
        ensures
            r@ == self.spec_id(),
    {
        self.id.as_str()
    }

    /// The virtual machines on the node.
    #[inline]
    #[must_use]
    pub fn qemu(self) -> (r: PathNNVms)
        ensures
            r.segments() == self.segments().push("qemu"@),
    {
        PathNNVms::from_parts(self.parts)
    }
}

impl PathStop for PathNNode {
    type ResultType = Vec<NameSubdir>;

    closed spec fn segments(&self) -> Seq<Seq<char>> {
        texts(self.parts@)
    }

    open spec fn description() -> Seq<char> {
        "single cluster node"@
    }

    open spec fn decoded(raw: JsonValue, r: Result<Vec<NameSubdir>, Error>) -> bool {
        list_outcome::<NameSubdir>(raw, Self::description(), r)
    }

    #[inline]
    fn desc() -> (r: &'static str) {
        "single cluster node"
    }

    #[inline]
    fn parts(&self) -> (r: &[String]) {
        self.parts.as_slice()
    }

    #[inline]
    fn from_json(raw: JsonValue) -> (r: Result<Vec<NameSubdir>, Error>) {
        gen_from_json::<NameSubdir>(raw, Self::desc())
    }
}

impl<'a> PathStopId<&'a str> for PathNNode {
    open spec fn id_segment(id: &'a str) -> Seq<char> {
        id@
    }

    #[inline]
    fn from_parts_with_id(parts: Vec<String>, id: &'a str) -> (r: Self)
        ensures
            r.spec_id() == id@,
    {
        PathNNode { id: id.to_owned(), parts: extended(parts, id.to_owned()) }
    }
}

/// The nodes of the cluster: `nodes`.
#[derive(Debug, Clone)]
pub struct PathNodes {
    parts: Vec<String>,
}

impl PathStop for PathNodes {
    type ResultType = Vec<NodeSummary>;

    closed spec fn segments(&self) -> Seq<Seq<char>> {
        texts(self.parts@)
    }

    open spec fn description() -> Seq<char> {
        "cluster nodes"@
    }

    open spec fn decoded(raw: JsonValue, r: Result<Vec<NodeSummary>, Error>) -> bool {
        list_outcome::<NodeSummary>(raw, Self::description(), r)
    }

    #[inline]
    fn desc() -> (r: &'static str) {
        "cluster nodes"
    }

    #[inline]
    fn parts(&self) -> (r: &[String]) {
        self.parts.as_slice()
    }

    #[inline]
    fn from_json(raw: JsonValue) -> (r: Result<Vec<NodeSummary>, Error>) {
        gen_from_json::<NodeSummary>(raw, Self::desc())
    }
}

impl PathStopPure for PathNodes {
    open spec fn segment() -> Option<Seq<char>> {
        Some("nodes"@)
    }

    #[inline]
    fn from_parts(parts: Vec<String>) -> (r: Self) {
        PathNodes { parts: extended(parts, String::from_str("nodes")) }
    }
}

impl PathNodes {
    /// One node of the cluster, by its name.
    #[inline]
    #[must_use]
    pub fn id(self, name: &str) -> (r: PathNNode)
        ensures
            r.segments() == self.segments().push(name@),
            r.spec_id() == name@,
    {
        PathNNode::from_parts_with_id(self.parts, name)
    }
}

/// The top of the tree of the API.
#[derive(Debug, Clone)]
pub struct PathTop {
    parts: Vec<String>,
}

impl PathStop for PathTop {
    type ResultType = Vec<Subdir>;

    closed spec fn segments(&self) -> Seq<Seq<char>> {
        texts(self.parts@)
    }

    open spec fn description() -> Seq<char> {
        "top-level API data"@
    }

    open spec fn decoded(raw: JsonValue, r: Result<Vec<Subdir>, Error>) -> bool {
        list_outcome::<Subdir>(raw, Self::description(), r)
    }

    #[inline]
    fn desc() -> (r: &'static str) {
        "top-level API data"
    }

    #[inline]
    fn parts(&self) -> (r: &[String]) {
        self.parts.as_slice()
    }

    #[inline]
    fn from_json(raw: JsonValue) -> (r: Result<Vec<Subdir>, Error>) {
        gen_from_json::<Subdir>(raw, Self::desc())
    }
}

impl PathStopPure for PathTop {
    open spec fn segment() -> Option<Seq<char>> {
        None
    }

    #[inline]
    fn from_parts(parts: Vec<String>) -> (r: Self) {
        PathTop { parts }
    }
}

impl PathTop {
    /// The storage definitions of the cluster.
    #[inline]
    #[must_use]
    pub fn storage(self) -> (r: PathStorage)
        ensures
            r.segments() == self.segments().push("storage"@),
    {
        PathStorage::from_parts(self.parts)
    }

    /// The nodes of the cluster.
    #[inline]
    #[must_use]
    pub fn nodes(self) -> (r: PathNodes)
        ensures
            r.segments() == self.segments().push("nodes"@),
    {
        PathNodes::from_parts(self.parts)
    }
}

} // verus!
