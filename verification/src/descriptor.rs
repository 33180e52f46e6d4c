//! What a validated container descriptor tells the orchestrator.

use vstd::prelude::*;
use crate::names::NameMap;

verus! {

/// The role a described process may be started in.
#[derive(Clone, Copy, Debug, PartialEq, Eq, Structural)]
pub enum ContainerKind {
    Command,
    Daemon,
    CommandOrDaemon,
}

/// One value of a descriptor's free-form metadata, as far as it is read
/// here: either a string or something else.
#[derive(Debug)]
pub enum MetadataValue {
    Text(String),
    Other,
}

/// The parsed and validated content of one descriptor file.
#[derive(Debug)]
pub struct ContainerDescriptor {
    pub kind: ContainerKind,
    pub metadata: NameMap<MetadataValue>,
    /// The directories that the declared volumes are mounted at, in name order.
    pub volumes: Vec<String>,
    pub executable: String,
    pub arguments: Vec<String>,
}

/// What a descriptor says about the container it runs in.
#[derive(Debug)]
pub enum ContainerField {
    /// The metadata names this container.
    Named(String),
    /// The metadata has a `container` entry that is not a string.
    NotText,
    /// The metadata has no `container` entry.
    Absent,
}

/// The key under which a descriptor's metadata names its container.
pub open spec fn container_key() -> Seq<char> {
    "container"@
}

/// The container a metadata mapping declares.
pub open spec fn declared_container(metadata: Map<Seq<char>, MetadataValue>) -> Option<Seq<char>> {
    if metadata.dom().contains(container_key()) {
        match metadata[container_key()] {
            MetadataValue::Text(name) => Some(name@),
            MetadataValue::Other => None,
        }
    } else {
        None
    }
}

/// The name used for a process kind in messages.
pub fn str_kind(kind: ContainerKind) -> (r: &'static str)
    ensures
        kind == ContainerKind::Command ==> r@ == "command"@,
        kind == ContainerKind::Daemon ==> r@ == "daemon"@,
        kind == ContainerKind::CommandOrDaemon ==> r@ == "command-and-daemon"@,
{
    match kind {
        ContainerKind::Command => "command",
        ContainerKind::Daemon => "daemon",
        ContainerKind::CommandOrDaemon => "command-and-daemon",
    }
}

impl ContainerDescriptor {
    /// Looks up the declared container name in the metadata.
    pub fn container(&self) -> (r: ContainerField)
        ensures
            match r {
                ContainerField::Named(name) => declared_container(self.metadata@) == Some(name@),
                ContainerField::NotText => self.metadata@.dom().contains(container_key())
                    && self.metadata@[container_key()] is Other,
                ContainerField::Absent => !self.metadata@.dom().contains(container_key()),
            },
    {
        match self.metadata.get("container") {
            Some(MetadataValue::Text(name)) => ContainerField::Named(name.clone()),
            Some(MetadataValue::Other) => ContainerField::NotText,
            None => ContainerField::Absent,
        }
    }
}

} // verus!
