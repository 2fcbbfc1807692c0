//! What a characteristic announces that peers may do with it.

use vstd::prelude::*;

verus! {

/// Property bit: the value may be broadcast.
pub const PROP_BROADCAST: u8 = 0x01;

/// Property bit: the value may be read.
pub const PROP_READ: u8 = 0x02;

/// Property bit: the value may be written without a response.
pub const PROP_WRITE_WITHOUT_RESPONSE: u8 = 0x04;

/// Property bit: the value may be written.
pub const PROP_WRITE: u8 = 0x08;

/// Property bit: value changes are pushed without acknowledgement.
pub const PROP_NOTIFY: u8 = 0x10;

/// Property bit: value changes are pushed and acknowledged.
pub const PROP_INDICATE: u8 = 0x20;

/// Property bit: signed writes are accepted.
pub const PROP_AUTHENTICATED_SIGNED_WRITES: u8 = 0x40;

/// Property bit: an extended properties descriptor follows.
pub const PROP_EXTENDED: u8 = 0x80;

/// The set of properties of a characteristic.
///
/// Built from `new()` by the methods below, a set never holds both
/// `notify` and `indicate`: whichever is asked for second is left out.
#[derive(Clone, Copy, Debug, PartialEq, Eq, Structural)]
pub struct CharacteristicProperties {
    pub broadcast: bool,
    pub read: bool,
    pub write_without_response: bool,
    pub write: bool,
    pub notify: bool,
    pub indicate: bool,
    pub authenticated_signed_writes: bool,
    pub extended_properties: bool,
}

/// The bit's value where the flag is set, nothing where it is not.
pub open spec fn bit(flag: bool, value: u8) -> int {
    if flag {
        value as int
    } else {
        0
    }
}

impl CharacteristicProperties {
    /// The empty set.
    pub open spec fn empty() -> Self {
        CharacteristicProperties {
            broadcast: false,
            read: false,
            write_without_response: false,
            write: false,
            notify: false,
            indicate: false,
            authenticated_signed_writes: false,
            extended_properties: false,
        }
    }

    /// The set does not ask for both ways of pushing a value.
    pub open spec fn exclusive(self) -> bool {
        !(self.notify && self.indicate)
    }

    #[must_use]
    pub fn new() -> (r: Self)
        ensures
            r == Self::empty(),
            r.exclusive(),
    {
        CharacteristicProperties {
            broadcast: false,
            read: false,
            write_without_response: false,
            write: false,
            notify: false,
            indicate: false,
            authenticated_signed_writes: false,
            extended_properties: false,
        }
    }

    #[must_use]
    pub fn broadcast(self) -> (r: Self)
        ensures
            r == (CharacteristicProperties { broadcast: true, ..self }),
    {
        let mut r = self;
        r.broadcast = true;
        r
    }

    #[must_use]
    pub fn read(self) -> (r: Self)
        ensures
            r == (CharacteristicProperties { read: true, ..self }),
    {
        let mut r = self;
        r.read = true;
        r
    }

    #[must_use]
    pub fn write_without_response(self) -> (r: Self)
        ensures
            r == (CharacteristicProperties { write_without_response: true, ..self }),
    {
        let mut r = self;
        r.write_without_response = true;
        r
    }

    #[must_use]
    pub fn write(self) -> (r: Self)
        ensures
            r == (CharacteristicProperties { write: true, ..self }),
    {
        let mut r = self;
        r.write = true;
        r
    }

    /// Adds `notify`, unless the set holds `indicate`: then it stays as it is.
    #[must_use]
    pub fn notify(self) -> (r: Self)
        ensures
            self.indicate ==> r == self,
            !self.indicate ==> r == (CharacteristicProperties { notify: true, ..self }),
            self.exclusive() ==> r.exclusive(),
    {
        if self.indicate {
            return self;
        }
        let mut r = self;
        r.notify = true;
        r
    }

    /// Adds `indicate`, unless the set holds `notify`: then it stays as it is.
    #[must_use]
    pub fn indicate(self) -> (r: Self)
        ensures
            self.notify ==> r == self,
            !self.notify ==> r == (CharacteristicProperties { indicate: true, ..self }),
            self.exclusive() ==> r.exclusive(),
    {
        if self.notify {
            return self;
        }
        let mut r = self;
        r.indicate = true;
        r
    }

    #[must_use]
    pub fn authenticated_signed_writes(self) -> (r: Self)
        ensures
            r == (CharacteristicProperties { authenticated_signed_writes: true, ..self }),
    {
        let mut r = self;
        r.authenticated_signed_writes = true;
        r
    }

    #[must_use]
    pub fn extended_properties(self) -> (r: Self)
        ensures
            r == (CharacteristicProperties { extended_properties: true, ..self }),
    {
        let mut r = self;
        r.extended_properties = true;
        r
    }

    /// The property byte that the host stack takes: the sum of the bits of
    /// the properties in the set.
    pub open spec fn mask(self) -> int {
        bit(self.broadcast, PROP_BROADCAST) + bit(self.read, PROP_READ) + bit(
            self.write_without_response,
            PROP_WRITE_WITHOUT_RESPONSE,
        ) + bit(self.write, PROP_WRITE) + bit(self.notify, PROP_NOTIFY) + bit(
            self.indicate,
            PROP_INDICATE,
        ) + bit(self.authenticated_signed_writes, PROP_AUTHENTICATED_SIGNED_WRITES) + bit(
            self.extended_properties,
            PROP_EXTENDED,
        )
    }

    /// The property byte as the host stack takes it.
    pub fn bits(&self) -> (r: u8)
        ensures
            r == self.mask(),
    {
        let mut result: u8 = 0;
        if self.broadcast {
            result = result + PROP_BROADCAST;
        }
        if self.read {
            result = result + PROP_READ;
        }
        if self.write_without_response {
            result = result + PROP_WRITE_WITHOUT_RESPONSE;
        }
        if self.write {
            result = result + PROP_WRITE;
        }
        if self.notify {
            result = result + PROP_NOTIFY;
        }
        if self.indicate {
            result = result + PROP_INDICATE;
        }
        if self.authenticated_signed_writes {
            result = result + PROP_AUTHENTICATED_SIGNED_WRITES;
        }
        if self.extended_properties {
            result = result + PROP_EXTENDED;
        }
        result
    }
}

impl Default for CharacteristicProperties {
    fn default() -> (r: Self)
        ensures
            r == Self::empty(),
    {
        Self::new()
    }
}

impl From<CharacteristicProperties> for u8 {
    fn from(properties: CharacteristicProperties) -> (r: u8) {
        properties.bits()
    }
}

impl vstd::std_specs::convert::FromSpecImpl<CharacteristicProperties> for u8 {
    open spec fn obeys_from_spec() -> bool {
        true
    }

    open spec fn from_spec(properties: CharacteristicProperties) -> u8 {
        properties.mask() as u8
    }
}

} // verus!
