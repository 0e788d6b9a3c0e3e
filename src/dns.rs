//! The DNS profile: a named pair of server addresses of one family.
use vstd::prelude::*;
use crate::addr::{is_address, address};
use crate::text::to_chars;

verus! {

/// A named pair of DNS server addresses; `v6` selects the address family.
#[derive(Clone)]
pub struct DnsServer {
    /// Primary DNS address
    pub primary: String,
    /// Secondary DNS address
    pub secondary: String,
    /// Server name
    pub name: String,
    /// IPv6 DNS address (IPv4 when false)
    pub v6: bool,
}

/// Which address of a profile is malformed.
#[derive(Clone, Copy, Debug, PartialEq, Eq, Structural)]
pub enum AddressError {
    Primary,
    Secondary,
}

impl DnsServer {
    /// Both addresses are of the profile's family.
    pub open spec fn valid(&self) -> bool {
        is_address(self.primary@, self.v6) && is_address(self.secondary@, self.v6)
    }

    /// Two profiles conflict when they hold the same address pair or the same name.
    pub open spec fn conflicts(&self, other: &DnsServer) -> bool {
        (self.primary@ == other.primary@ && self.secondary@ == other.secondary@)
            || self.name@ == other.name@
    }

    /// The outcome of validating a profile: the first malformed address, if any.
    pub open spec fn check(&self) -> Result<(), AddressError> {
        if !is_address(self.primary@, self.v6) {
            Err(AddressError::Primary)
        } else if !is_address(self.secondary@, self.v6) {
            Err(AddressError::Secondary)
        } else {
            Ok(())
        }
    }

    /// A profile with the given addresses and an empty name, provided both
    /// addresses are of the family that `v6` selects.
    pub fn build(primary: String, secondary: String, v6: bool) -> (r: Result<Self, AddressError>)
        ensures
            r is Ok <==> is_address(primary@, v6) && is_address(secondary@, v6),
            r matches Ok(d) ==> d.primary@ == primary@ && d.secondary@ == secondary@
                && d.name@ == Seq::<char>::empty() && d.v6 == v6 && d.valid(),
            r matches Err(e) ==> e == (if !is_address(primary@, v6) {
                AddressError::Primary
            } else {
                AddressError::Secondary
            }),
    {
        let dns = DnsServer { primary, secondary, v6, name: String::new() };
        match dns.verify_dns() {
            Ok(()) => Ok(dns),
            Err(e) => Err(e),
        }
    }

    /// Checks that both addresses are of the profile's family, the primary first.
    pub fn verify_dns(&self) -> (r: Result<(), AddressError>)
        ensures
            r == self.check(),
            r is Ok <==> self.valid(),
    {
        if !address(&to_chars(self.primary.as_str()), self.v6) {
            return Err(AddressError::Primary);
        }
        if !address(&to_chars(self.secondary.as_str()), self.v6) {
            return Err(AddressError::Secondary);
        }
        Ok(())
    }

    pub fn conflicts_with(&self, other: &Self) -> (r: bool)
        ensures
            r == self.conflicts(other),
    {
        (self.primary == other.primary && self.secondary == other.secondary)
            || self.name == other.name
    }

    /// A field-for-field copy.
    pub fn duplicate(&self) -> (r: Self)
        ensures
            r == *self,
    {
        DnsServer {
            primary: self.primary.clone(),
            secondary: self.secondary.clone(),
            name: self.name.clone(),
            v6: self.v6,
        }
    }
}

} // verus!
