//! The requests that the command line can make.
use vstd::prelude::*;
use crate::dns::{AddressError, DnsServer};
use crate::addr::is_address;

verus! {

/// A request from the command line.
pub enum Commands {
    /// Set a DNS server from the saved list
    Select { name: String },
    /// Add a DNS server to the saved list
    Add(DnsServer),
    /// Remove DNS servers from the saved list
    Rem { names: Vec<String> },
    /// List the saved DNS servers
    List,
    /// Directly set a DNS pair, or go back to DHCP
    Direct { primary: Option<String>, secondary: Option<String>, v6: bool, dhcp: bool },
}

/// What a direct request asks for.
pub enum DirectAction {
    /// Take DNS servers from DHCP again, for the given family.
    Dhcp(bool),
    /// Set this pair of servers.
    Static(DnsServer),
}

/// Why a direct request cannot be carried out.
#[derive(Clone, Copy, Debug, PartialEq, Eq, Structural)]
pub enum DirectError {
    /// Without `dhcp`, both addresses are needed.
    MissingAddress,
    /// An address is malformed.
    InvalidAddress(AddressError),
}

/// Reads a direct request: `dhcp` wins; otherwise both addresses must be
/// given and be of the family that `v6` selects.
pub fn direct_action(primary: Option<String>, secondary: Option<String>, v6: bool, dhcp: bool) -> (r:
    Result<DirectAction, DirectError>)
    ensures
        dhcp ==> (r matches Ok(DirectAction::Dhcp(f)) && f == v6),
        !dhcp && (primary is None || secondary is None) ==> r == Err::<DirectAction, DirectError>(
            DirectError::MissingAddress,
        ),
        !dhcp && primary is Some && secondary is Some ==> {
            let p = primary->0@;
            let s = secondary->0@;
            &&& (r is Ok <==> is_address(p, v6) && is_address(s, v6))
            &&& r matches Ok(a) ==> (a matches DirectAction::Static(d) && d.primary@ == p
                && d.secondary@ == s && d.v6 == v6)
            &&& !is_address(p, v6) ==> r == Err::<DirectAction, DirectError>(
                DirectError::InvalidAddress(AddressError::Primary),
            )
            &&& is_address(p, v6) && !is_address(s, v6) ==> r == Err::<
                DirectAction,
                DirectError,
            >(DirectError::InvalidAddress(AddressError::Secondary))
        },
{
    if dhcp {
        return Ok(DirectAction::Dhcp(v6));
    }
    match (primary, secondary) {
        (Some(p), Some(s)) => match DnsServer::build(p, s, v6) {
            Ok(d) => Ok(DirectAction::Static(d)),
            Err(e) => Err(DirectError::InvalidAddress(e)),
        },
        _ => Err(DirectError::MissingAddress),
    }
}

} // verus!
