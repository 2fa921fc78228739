//! Identifier types for graph objects, rules and groups.

use vstd::prelude::*;

verus! {

/// Identifier of a PipeWire node.
#[derive(Debug, Clone, Copy, PartialEq, Eq, Hash, PartialOrd, Ord, Structural)]
pub struct NodeId(pub u32);

/// Identifier of a PipeWire port.
#[derive(Debug, Clone, Copy, PartialEq, Eq, Hash, PartialOrd, Ord, Structural)]
pub struct PortId(pub u32);

/// Identifier of a PipeWire link.
#[derive(Debug, Clone, Copy, PartialEq, Eq, Hash, PartialOrd, Ord, Structural)]
pub struct LinkId(pub u32);

/// Identifier of a PipeWire client.
#[derive(Debug, Clone, Copy, PartialEq, Eq, Hash, PartialOrd, Ord, Structural)]
pub struct ClientId(pub u32);

/// Identifier of a PipeWire device.
#[derive(Debug, Clone, Copy, PartialEq, Eq, Hash, PartialOrd, Ord, Structural)]
pub struct DeviceId(pub u32);

impl NodeId {
    /// Wraps a raw PipeWire id.
    pub fn new(id: u32) -> (r: Self)
        ensures
            r.0 == id,
    {
        NodeId(id)
    }

    /// The raw PipeWire id.
    pub fn raw(&self) -> (r: u32)
        ensures
            r == self.0,
    {
        self.0
    }
}

impl PortId {
    /// Wraps a raw PipeWire id.
    pub fn new(id: u32) -> (r: Self)
        ensures
            r.0 == id,
    {
        PortId(id)
    }

    /// The raw PipeWire id.
    pub fn raw(&self) -> (r: u32)
        ensures
            r == self.0,
    {
        self.0
    }
}

impl LinkId {
    /// Wraps a raw PipeWire id.
    pub fn new(id: u32) -> (r: Self)
        ensures
            r.0 == id,
    {
        LinkId(id)
    }

    /// The raw PipeWire id.
    pub fn raw(&self) -> (r: u32)
        ensures
            r == self.0,
    {
        self.0
    }
}

impl ClientId {
    /// Wraps a raw PipeWire id.
    pub fn new(id: u32) -> (r: Self)
        ensures
            r.0 == id,
    {
        ClientId(id)
    }

    /// The raw PipeWire id.
    pub fn raw(&self) -> (r: u32)
        ensures
            r == self.0,
    {
        self.0
    }
}

impl DeviceId {
    /// Wraps a raw PipeWire id.
    pub fn new(id: u32) -> (r: Self)
        ensures
            r.0 == id,
    {
        DeviceId(id)
    }

    /// The raw PipeWire id.
    pub fn raw(&self) -> (r: u32)
        ensures
            r == self.0,
    {
        self.0
    }
}

/// The bits that a version 4 UUID fixes: the version nibble and the variant bits.
pub open spec fn uuid_v4_fixed_bits(v: u128) -> bool {
    v & 0xF000_C000_0000_0000_0000u128 == 0x4000_8000_0000_0000_0000u128
}

/// A fresh random version 4 UUID as a 128-bit number (uuid's `Uuid::new_v4`).
///
/// The value is random; the contract states only the version and variant
/// bits that `new_v4` sets on every value.
#[verifier::external_body]
pub(crate) fn new_v4_u128() -> (r: u128)
    ensures
        uuid_v4_fixed_bits(r),
{
    uuid::Uuid::new_v4().as_u128()
}

/// A version 4 UUID is never the nil UUID.
pub proof fn lemma_v4_not_nil(v: u128)
    requires
        uuid_v4_fixed_bits(v),
    ensures
        v != 0,
{
    assert(v & 0xF000_C000_0000_0000_0000u128 == 0x4000_8000_0000_0000_0000u128 ==> v != 0)
        by (bit_vector);
}

/// Identifier of a connection rule (a UUID).
#[derive(Debug, Clone, Copy, PartialEq, Eq, Hash, Structural)]
pub struct RuleId(pub u128);

impl RuleId {
    /// Creates a new random rule id.
    pub fn new() -> (r: Self)
        ensures
            uuid_v4_fixed_bits(r.0),
            r.0 != 0,
    {
        let v = new_v4_u128();
        proof {
            lemma_v4_not_nil(v);
        }
        RuleId(v)
    }
}

/// Identifier of a node group (a UUID).
#[derive(Debug, Clone, Copy, PartialEq, Eq, Hash, Structural)]
pub struct GroupId(pub u128);

impl GroupId {
    /// Creates a new random group id.
    pub fn new() -> (r: Self)
        ensures
            uuid_v4_fixed_bits(r.0),
            r.0 != 0,
    {
        let v = new_v4_u128();
        proof {
            lemma_v4_not_nil(v);
        }
        GroupId(v)
    }

    /// Returns true for the nil UUID.
    pub fn is_nil(&self) -> (r: bool)
        ensures
            r == (self.0 == 0),
    {
        self.0 == 0
    }
}

/// A stable identifier for a node that survives PipeWire restarts (node ids do not).
#[derive(Debug, Clone, PartialEq, Eq, Hash)]
pub struct NodeIdentifier {
    /// Node name.
    pub name: String,
    /// Application name, if known.
    pub application_name: Option<String>,
    /// Media class label, if known.
    pub media_class: Option<String>,
}

/// The view of a stable node identifier.
pub struct NodeIdentifierView {
    /// Node name.
    pub name: Seq<char>,
    /// Application name, if known.
    pub application_name: Option<Seq<char>>,
    /// Media class label, if known.
    pub media_class: Option<Seq<char>>,
}

/// The view of an optional string.
pub open spec fn opt_view(o: Option<String>) -> Option<Seq<char>> {
    match o {
        Some(s) => Some(s@),
        None => None,
    }
}

impl View for NodeIdentifier {
    type V = NodeIdentifierView;

    open spec fn view(&self) -> NodeIdentifierView {
        NodeIdentifierView {
            name: self.name@,
            application_name: opt_view(self.application_name),
            media_class: opt_view(self.media_class),
        }
    }
}

impl NodeIdentifier {
    /// Copies the identifier.
    pub fn duplicate(&self) -> (r: Self)
        ensures
            r == *self,
    {
        NodeIdentifier {
            name: self.name.clone(),
            application_name: match &self.application_name {
                Some(a) => Some(a.clone()),
                None => None,
            },
            media_class: match &self.media_class {
                Some(m) => Some(m.clone()),
                None => None,
            },
        }
    }

    /// Creates an identifier from its parts.
    pub fn new(name: String, application_name: Option<String>, media_class: Option<String>) -> (r: Self)
        ensures
            r.name == name,
            r.application_name == application_name,
            r.media_class == media_class,
    {
        NodeIdentifier { name, application_name, media_class }
    }
}

}
