//! Who may read and write an attribute.

use vstd::prelude::*;

verus! {

/// Permission bit: the attribute may be read over any link.
pub const PERM_READ: u16 = 0x0001;

/// Permission bit: the attribute may be read over an encrypted link only.
pub const PERM_READ_ENCRYPTED: u16 = 0x0002;

/// Permission bit: the attribute may be written over any link.
pub const PERM_WRITE: u16 = 0x0010;

/// Permission bit: the attribute may be written over an encrypted link only.
pub const PERM_WRITE_ENCRYPTED: u16 = 0x0020;

/// The access that peers have to an attribute.
#[derive(Debug, Clone, Copy, PartialEq, Eq, Structural)]
pub struct AttributePermissions {
    pub read_access: bool,
    pub write_access: bool,
    pub encryption_required: bool,
}

impl AttributePermissions {
    #[must_use]
    pub fn read() -> (r: Self)
        ensures
            r == (AttributePermissions {
                read_access: true,
                write_access: false,
                encryption_required: false,
            }),
    {
        Self { read_access: true, write_access: false, encryption_required: false }
    }

    #[must_use]
    pub fn write() -> (r: Self)
        ensures
            r == (AttributePermissions {
                read_access: false,
                write_access: true,
                encryption_required: false,
            }),
    {
        Self { read_access: false, write_access: true, encryption_required: false }
    }

    #[must_use]
    pub fn read_write() -> (r: Self)
        ensures
            r == (AttributePermissions {
                read_access: true,
                write_access: true,
                encryption_required: false,
            }),
    {
        Self { read_access: true, write_access: true, encryption_required: false }
    }

    #[must_use]
    pub fn read_encrypted() -> (r: Self)
        ensures
            r == (AttributePermissions {
                read_access: true,
                write_access: false,
                encryption_required: true,
            }),
    {
        Self { read_access: true, write_access: false, encryption_required: true }
    }

    #[must_use]
    pub fn write_encrypted() -> (r: Self)
        ensures
            r == (AttributePermissions {
                read_access: false,
                write_access: true,
                encryption_required: true,
            }),
    {
        Self { read_access: false, write_access: true, encryption_required: true }
    }

    #[must_use]
    pub fn read_write_encrypted() -> (r: Self)
        ensures
            r == (AttributePermissions {
                read_access: true,
                write_access: true,
                encryption_required: true,
            }),
    {
        Self { read_access: true, write_access: true, encryption_required: true }
    }

    /// The permission mask that the host stack takes: one read bit and one
    /// write bit, each the encrypted one where encryption is required.
    /// Without read and write access the mask is empty, whatever the
    /// encryption flag says.
    pub open spec fn mask(self) -> int {
        (if !self.read_access {
            0int
        } else if self.encryption_required {
            PERM_READ_ENCRYPTED as int
        } else {
            PERM_READ as int
        }) + (if !self.write_access {
            0int
        } else if self.encryption_required {
            PERM_WRITE_ENCRYPTED as int
        } else {
            PERM_WRITE as int
        })
    }

    /// The permission mask as the host stack takes it.
    pub fn bits(&self) -> (r: u16)
        ensures
            r == self.mask(),
    {
        let read: u16 = if !self.read_access {
            0
        } else if self.encryption_required {
            PERM_READ_ENCRYPTED
        } else {
            PERM_READ
        };
        let write: u16 = if !self.write_access {
            0
        } else if self.encryption_required {
            PERM_WRITE_ENCRYPTED
        } else {
            PERM_WRITE
        };
        read + write
    }
}

impl Default for AttributePermissions {
    fn default() -> (r: Self)
        ensures
            r == (AttributePermissions {
                read_access: false,
                write_access: false,
                encryption_required: false,
            }),
    {
        Self { read_access: false, write_access: false, encryption_required: false }
    }
}

impl From<AttributePermissions> for u16 {
    fn from(permissions: AttributePermissions) -> (r: u16) {
        permissions.bits()
    }
}

impl vstd::std_specs::convert::FromSpecImpl<AttributePermissions> for u16 {
    open spec fn obeys_from_spec() -> bool {
        true
    }

    open spec fn from_spec(permissions: AttributePermissions) -> u16 {
        permissions.mask() as u16
    }
}

} // verus!
