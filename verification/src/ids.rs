use vstd::prelude::*;

verus! {

/// Identifies a cluster; the value is the 128 bits of its UUID.
#[derive(Clone, Copy, Debug, PartialEq, Eq, Structural, Hash)]
pub struct ClusterId(pub u128);

/// Identifies a peer; the value is the 128 bits of its UUID.
#[derive(Clone, Copy, Debug, PartialEq, Eq, Structural, Hash)]
pub struct PeerId(pub u128);

/// Identifies a device of a peer's topology; the value is the 128 bits of its UUID.
#[derive(Clone, Copy, Debug, PartialEq, Eq, Structural, Hash)]
pub struct DeviceId(pub u128);

/// Identifies a network interface of a peer; the value is the 128 bits of its UUID.
#[derive(Clone, Copy, Debug, PartialEq, Eq, Structural, Hash)]
pub struct NetworkInterfaceId(pub u128);

/// A network port.
#[derive(Clone, Copy, Debug, PartialEq, Eq, Structural, Hash)]
pub struct Port(pub u16);

/// The name of a cluster.
#[derive(Debug, PartialEq, Eq)]
pub struct ClusterName(pub String);

impl Clone for ClusterName {
    fn clone(&self) -> (name: Self)
        ensures
            name == *self,
    {
        ClusterName(self.0.clone())
    }
}

impl ClusterName {
    /// The name as a sequence of characters.
    pub open spec fn text(&self) -> Seq<char> {
        self.0@
    }

    /// A cluster name with the given text.
    pub fn from_text(text: &str) -> (name: Self)
        ensures
            name.text() == text@,
    {
        ClusterName(String::from_str(text))
    }
}

/// The name of a network interface.
#[derive(Debug, PartialEq, Eq)]
pub struct NetworkInterfaceName(pub String);

impl Clone for NetworkInterfaceName {
    fn clone(&self) -> (name: Self)
        ensures
            name == *self,
    {
        NetworkInterfaceName(self.0.clone())
    }
}

} // verus!
