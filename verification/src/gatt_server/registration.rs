//! How far the registration of a node has come.

use vstd::prelude::*;

verus! {

/// The status that the host stack reports for a call that succeeded.
pub const GATT_OK: u32 = 0;

/// The registration of a characteristic or of a descriptor.
#[derive(Debug, Clone, Copy, PartialEq, Eq, Structural)]
pub enum Registration {
    /// Nothing was asked of the host stack yet.
    Unregistered,
    /// The call was made and its completion is awaited.
    Requested,
    /// The host stack has assigned this handle.
    Registered(u16),
    /// The host stack has refused the node. It is not asked again.
    Failed,
}

impl Registration {
    /// The handle, once one is assigned.
    pub open spec fn handle(self) -> Option<u16> {
        match self {
            Registration::Registered(handle) => Some(handle),
            _ => None,
        }
    }

    /// The host stack has answered, one way or the other.
    pub open spec fn settled(self) -> bool {
        self is Registered || self is Failed
    }

    /// The state that a completion with this outcome leads to.
    pub open spec fn completed(ok: bool, handle: u16) -> Registration {
        if ok {
            Registration::Registered(handle)
        } else {
            Registration::Failed
        }
    }

    /// The handle, once one is assigned.
    pub fn assigned(&self) -> (r: Option<u16>)
        ensures
            r == self.handle(),
    {
        match self {
            Registration::Registered(handle) => Some(*handle),
            _ => None,
        }
    }

    pub fn is_unregistered(&self) -> (r: bool)
        ensures
            r == (*self is Unregistered),
    {
        matches!(self, Registration::Unregistered)
    }

    pub fn is_requested(&self) -> (r: bool)
        ensures
            r == (*self is Requested),
    {
        matches!(self, Registration::Requested)
    }
}

/// The registration of a service, which is created first and started then.
#[derive(Debug, Clone, Copy, PartialEq, Eq, Structural)]
pub enum ServiceState {
    Unregistered,
    /// Creation was asked for.
    Requested,
    /// The host stack has created the service under this handle, and was
    /// asked to start it.
    Created(u16),
    /// The service runs. Only now are its characteristics registered.
    Started(u16),
    /// Creation or start was refused.
    Failed,
}

impl ServiceState {
    pub open spec fn handle(self) -> Option<u16> {
        match self {
            ServiceState::Created(handle) => Some(handle),
            ServiceState::Started(handle) => Some(handle),
            _ => None,
        }
    }

    pub fn assigned(&self) -> (r: Option<u16>)
        ensures
            r == self.handle(),
    {
        match self {
            ServiceState::Created(handle) => Some(*handle),
            ServiceState::Started(handle) => Some(*handle),
            _ => None,
        }
    }
}

/// The registration of a profile with the host stack.
#[derive(Debug, Clone, Copy, PartialEq, Eq, Structural)]
pub enum ProfileState {
    Unregistered,
    Requested,
    /// The host stack talks to the profile through this interface.
    Registered(u8),
    Failed,
}

impl ProfileState {
    pub open spec fn interface(self) -> Option<u8> {
        match self {
            ProfileState::Registered(interface) => Some(interface),
            _ => None,
        }
    }

    pub fn assigned(&self) -> (r: Option<u8>)
        ensures
            r == self.interface(),
    {
        match self {
            ProfileState::Registered(interface) => Some(*interface),
            _ => None,
        }
    }
}

} // verus!
