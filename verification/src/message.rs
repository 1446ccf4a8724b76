//! The typed message schema of the two queues, with its defaulting
//! rules.
//!
//! A creation message carries `identifier`, `cpu_limit`, `ram_limit`
//! and `disk_size`; a deletion message carries `identifier`. A missing
//! or differently-typed numeric field takes its default (2 compute
//! units, 2 GiB of memory, 10 GiB of disk); sizes are rounded to whole
//! GiB, and a disk size written with a fraction is outside the schema
//! and takes the default. A missing identifier takes a fixed
//! placeholder name, one per queue. When the same field is written
//! twice, the last occurrence wins.
use vstd::prelude::*;

use crate::json::{
    lookup, parse_message, spec_message, JsonField, JsonScalar, SpecField, SpecScalar,
};
use crate::text::{bytes_eq, copy_range};

verus! {

/// A parsed creation request: sizing for one new cluster.
#[derive(Debug)]
pub struct CreationMessage {
    /// The cluster's external identifier.
    pub identifier: Vec<u8>,
    /// Requested compute units.
    pub cpu_limit: i64,
    /// Requested memory, in GiB.
    pub ram_limit: i64,
    /// Requested disk, in GiB.
    pub disk_size: i64,
}

/// Specification-level counterpart of [`CreationMessage`].
pub struct SpecCreationMessage {
    /// The cluster's external identifier.
    pub identifier: Seq<u8>,
    /// Requested compute units.
    pub cpu_limit: int,
    /// Requested memory, in GiB.
    pub ram_limit: int,
    /// Requested disk, in GiB.
    pub disk_size: int,
}

impl View for CreationMessage {
    type V = SpecCreationMessage;

    open spec fn view(&self) -> SpecCreationMessage {
        SpecCreationMessage {
            identifier: self.identifier@,
            cpu_limit: self.cpu_limit as int,
            ram_limit: self.ram_limit as int,
            disk_size: self.disk_size as int,
        }
    }
}

/// A parsed deletion request.
#[derive(Debug)]
pub struct DeletionMessage {
    /// The identifier of the cluster to tear down.
    pub identifier: Vec<u8>,
}

/// Specification-level counterpart of [`DeletionMessage`].
pub struct SpecDeletionMessage {
    /// The identifier of the cluster to tear down.
    pub identifier: Seq<u8>,
}

impl View for DeletionMessage {
    type V = SpecDeletionMessage;

    open spec fn view(&self) -> SpecDeletionMessage {
        SpecDeletionMessage { identifier: self.identifier@ }
    }
}

/// The `identifier` field name.
pub open spec fn identifier_key() -> Seq<u8> {
    seq![0x69u8, 0x64, 0x65, 0x6e, 0x74, 0x69, 0x66, 0x69, 0x65, 0x72]
}

/// The `cpu_limit` field name.
pub open spec fn cpu_limit_key() -> Seq<u8> {
    seq![0x63u8, 0x70, 0x75, 0x5f, 0x6c, 0x69, 0x6d, 0x69, 0x74]
}

/// The `ram_limit` field name.
pub open spec fn ram_limit_key() -> Seq<u8> {
    seq![0x72u8, 0x61, 0x6d, 0x5f, 0x6c, 0x69, 0x6d, 0x69, 0x74]
}

/// The `disk_size` field name.
pub open spec fn disk_size_key() -> Seq<u8> {
    seq![0x64u8, 0x69, 0x73, 0x6b, 0x5f, 0x73, 0x69, 0x7a, 0x65]
}

/// The identifier used when a creation message names none: `default-cluster`.
pub open spec fn default_cluster_id() -> Seq<u8> {
    seq![0x64u8, 0x65, 0x66, 0x61, 0x75, 0x6c, 0x74, 0x2d, 0x63, 0x6c, 0x75, 0x73, 0x74, 0x65, 0x72]
}

/// The identifier used when a deletion message names none: `unknown-cluster`.
pub open spec fn unknown_cluster_id() -> Seq<u8> {
    seq![0x75u8, 0x6e, 0x6b, 0x6e, 0x6f, 0x77, 0x6e, 0x2d, 0x63, 0x6c, 0x75, 0x73, 0x74, 0x65, 0x72]
}

fn identifier_key_bytes() -> (r: Vec<u8>)
    ensures
        r@ == identifier_key(),
{
    let mut k: Vec<u8> = Vec::new();
    k.push(0x69);
    k.push(0x64);
    k.push(0x65);
    k.push(0x6e);
    k.push(0x74);
    k.push(0x69);
    k.push(0x66);
    k.push(0x69);
    k.push(0x65);
    k.push(0x72);
    proof {
        assert(k@ =~= identifier_key());
    }
    k
}

fn cpu_limit_key_bytes() -> (r: Vec<u8>)
    ensures
        r@ == cpu_limit_key(),
{
    let mut k: Vec<u8> = Vec::new();
    k.push(0x63);
    k.push(0x70);
    k.push(0x75);
    k.push(0x5f);
    k.push(0x6c);
    k.push(0x69);
    k.push(0x6d);
    k.push(0x69);
    k.push(0x74);
    proof {
        assert(k@ =~= cpu_limit_key());
    }
    k
}

fn ram_limit_key_bytes() -> (r: Vec<u8>)
    ensures
        r@ == ram_limit_key(),
{
    let mut k: Vec<u8> = Vec::new();
    k.push(0x72);
    k.push(0x61);
    k.push(0x6d);
    k.push(0x5f);
    k.push(0x6c);
    k.push(0x69);
    k.push(0x6d);
    k.push(0x69);
    k.push(0x74);
    proof {
        assert(k@ =~= ram_limit_key());
    }
    k
}

fn disk_size_key_bytes() -> (r: Vec<u8>)
    ensures
        r@ == disk_size_key(),
{
    let mut k: Vec<u8> = Vec::new();
    k.push(0x64);
    k.push(0x69);
    k.push(0x73);
    k.push(0x6b);
    k.push(0x5f);
    k.push(0x73);
    k.push(0x69);
    k.push(0x7a);
    k.push(0x65);
    proof {
        assert(k@ =~= disk_size_key());
    }
    k
}

fn default_cluster_id_bytes() -> (r: Vec<u8>)
    ensures
        r@ == default_cluster_id(),
{
    let mut k: Vec<u8> = Vec::new();
    k.push(0x64);
    k.push(0x65);
    k.push(0x66);
    k.push(0x61);
    k.push(0x75);
    k.push(0x6c);
    k.push(0x74);
    k.push(0x2d);
    k.push(0x63);
    k.push(0x6c);
    k.push(0x75);
    k.push(0x73);
    k.push(0x74);
    k.push(0x65);
    k.push(0x72);
    proof {
        assert(k@ =~= default_cluster_id());
    }
    k
}

fn unknown_cluster_id_bytes() -> (r: Vec<u8>)
    ensures
        r@ == unknown_cluster_id(),
{
    let mut k: Vec<u8> = Vec::new();
    k.push(0x75);
    k.push(0x6e);
    k.push(0x6b);
    k.push(0x6e);
    k.push(0x6f);
    k.push(0x77);
    k.push(0x6e);
    k.push(0x2d);
    k.push(0x63);
    k.push(0x6c);
    k.push(0x75);
    k.push(0x73);
    k.push(0x74);
    k.push(0x65);
    k.push(0x72);
    proof {
        assert(k@ =~= unknown_cluster_id());
    }
    k
}

/// Default compute units when a message names none.
pub const DEFAULT_CPU_LIMIT: i64 = 2;

/// Default memory, in GiB, when a message names none.
pub const DEFAULT_RAM_LIMIT: i64 = 2;

/// Default disk, in GiB, when a message names none.
pub const DEFAULT_DISK_SIZE: i64 = 10;

/// The creation request the fields of a message denote, defaults
/// applied.
pub open spec fn creation_of(fields: Seq<SpecField>) -> SpecCreationMessage {
    SpecCreationMessage {
        identifier: match lookup(fields, identifier_key()) {
            Some(SpecScalar::Text(t)) => t,
            _ => default_cluster_id(),
        },
        cpu_limit: match lookup(fields, cpu_limit_key()) {
            Some(SpecScalar::Num { value, .. }) => value,
            _ => DEFAULT_CPU_LIMIT as int,
        },
        ram_limit: match lookup(fields, ram_limit_key()) {
            Some(SpecScalar::Num { value, .. }) => value,
            _ => DEFAULT_RAM_LIMIT as int,
        },
        disk_size: match lookup(fields, disk_size_key()) {
            Some(SpecScalar::Num { value, integral }) => if integral {
                value
            } else {
                DEFAULT_DISK_SIZE as int
            },
            _ => DEFAULT_DISK_SIZE as int,
        },
    }
}

/// The deletion request the fields of a message denote.
pub open spec fn deletion_of(fields: Seq<SpecField>) -> SpecDeletionMessage {
    SpecDeletionMessage {
        identifier: match lookup(fields, identifier_key()) {
            Some(SpecScalar::Text(t)) => t,
            _ => unknown_cluster_id(),
        },
    }
}

/// What a raw creation payload means: `None` when it is not a
/// well-formed message of the schema.
pub open spec fn spec_creation_message(raw: Seq<u8>) -> Option<SpecCreationMessage> {
    match spec_message(raw) {
        Some(fields) => Some(creation_of(fields)),
        None => None,
    }
}

/// What a raw deletion payload means.
pub open spec fn spec_deletion_message(raw: Seq<u8>) -> Option<SpecDeletionMessage> {
    match spec_message(raw) {
        Some(fields) => Some(deletion_of(fields)),
        None => None,
    }
}

/// Index of the field that decides `name` (the last occurrence), if
/// any field carries that name.
fn lookup_idx(fields: &Vec<JsonField>, name: &Vec<u8>, n: usize) -> (r: Option<usize>)
    requires
        n <= fields@.len(),
    ensures
        match r {
            Some(k) => k < n && lookup(fields.deep_view().take(n as int), name@) == Some(
                fields@[k as int]@.value,
            ),
            None => lookup(fields.deep_view().take(n as int), name@) is None,
        },
    decreases n,
{
    if n == 0 {
        None
    } else {
        proof {
            assert(fields.deep_view().take(n as int).last() == fields@[n - 1]@);
            assert(fields.deep_view().take(n as int).drop_last() =~= fields.deep_view().take(
                n - 1,
            ));
        }
        if bytes_eq(&fields[n - 1].name, name) {
            Some(n - 1)
        } else {
            lookup_idx(fields, name, n - 1)
        }
    }
}

/// The identifier a lookup result denotes: the text value when the
/// field holds one, the fallback otherwise.
fn identifier_or(fields: &Vec<JsonField>, fallback: Vec<u8>) -> (r: Vec<u8>)
    ensures
        r@ == (match lookup(fields.deep_view(), identifier_key()) {
            Some(SpecScalar::Text(t)) => t,
            _ => fallback@,
        }),
{
    let key = identifier_key_bytes();
    proof {
        assert(fields.deep_view().take(fields@.len() as int) =~= fields.deep_view());
    }
    match lookup_idx(fields, &key, fields.len()) {
        Some(k) => match &fields[k].value {
            JsonScalar::Text(t) => copy_range(t, 0, t.len()),
            _ => fallback,
        },
        None => fallback,
    }
}

/// The size a lookup result denotes: the (rounded) number when the
/// field holds one — whole ones only where `whole_only` — the default
/// otherwise.
fn size_or(fields: &Vec<JsonField>, key: &Vec<u8>, whole_only: bool, default: i64) -> (r: i64)
    ensures
        r as int == (match lookup(fields.deep_view(), key@) {
            Some(SpecScalar::Num { value, integral }) => if !whole_only || integral {
                value
            } else {
                default as int
            },
            _ => default as int,
        }),
{
    proof {
        assert(fields.deep_view().take(fields@.len() as int) =~= fields.deep_view());
    }
    match lookup_idx(fields, key, fields.len()) {
        Some(k) => match &fields[k].value {
            JsonScalar::Num { value, integral } => {
                if !whole_only || *integral {
                    *value
                } else {
                    default
                }
            },
            _ => default,
        },
        None => default,
    }
}

/// Parses a creation payload, applying the schema defaults.
pub fn parse_creation_message(raw: &Vec<u8>) -> (r: Option<CreationMessage>)
    ensures
        match r {
            Some(m) => spec_creation_message(raw@) == Some(m@),
            None => spec_creation_message(raw@) is None,
        },
{
    match parse_message(raw) {
        Some(fields) => {
            let identifier = identifier_or(&fields, default_cluster_id_bytes());
            let cpu_key = cpu_limit_key_bytes();
            let ram_key = ram_limit_key_bytes();
            let disk_key = disk_size_key_bytes();
            let cpu_limit = size_or(&fields, &cpu_key, false, DEFAULT_CPU_LIMIT);
            let ram_limit = size_or(&fields, &ram_key, false, DEFAULT_RAM_LIMIT);
            let disk_size = size_or(&fields, &disk_key, true, DEFAULT_DISK_SIZE);
            Some(CreationMessage { identifier, cpu_limit, ram_limit, disk_size })
        },
        None => None,
    }
}

/// Parses a deletion payload.
pub fn parse_deletion_message(raw: &Vec<u8>) -> (r: Option<DeletionMessage>)
    ensures
        match r {
            Some(m) => spec_deletion_message(raw@) == Some(m@),
            None => spec_deletion_message(raw@) is None,
        },
{
    match parse_message(raw) {
        Some(fields) => {
            let identifier = identifier_or(&fields, unknown_cluster_id_bytes());
            Some(DeletionMessage { identifier })
        },
        None => None,
    }
}

} // verus!
