//! The profile list: lookup by name, a guarded add, and removal by names.
use vstd::prelude::*;
use crate::addr::is_address;
use crate::dns::{AddressError, DnsServer};

verus! {

/// Why a profile was not added.
#[derive(Clone, Copy, Debug, PartialEq, Eq, Structural)]
pub enum AddError {
    /// One of its addresses is malformed.
    InvalidAddress(AddressError),
    /// Another profile has the same name or the same address pair.
    Conflict,
}

/// `i` is the first position of a profile named `name`.
pub open spec fn is_first_named(list: Seq<DnsServer>, name: Seq<char>, i: int) -> bool {
    &&& 0 <= i < list.len()
    &&& list[i].name@ == name
    &&& forall|j: int| 0 <= j < i ==> list[j].name@ != name
}

pub open spec fn has_named(list: Seq<DnsServer>, name: Seq<char>) -> bool {
    exists|i: int| 0 <= i < list.len() && list[i].name@ == name
}

/// The list without its first profile named `name`, or unchanged when there is none.
pub open spec fn remove_named(list: Seq<DnsServer>, name: Seq<char>) -> Seq<DnsServer> {
    if exists|i: int| is_first_named(list, name, i) {
        list.remove(choose|i: int| is_first_named(list, name, i))
    } else {
        list
    }
}

/// The list after removing, one name after the other, the first profile of each name.
pub open spec fn remove_all(list: Seq<DnsServer>, names: Seq<Seq<char>>) -> Seq<DnsServer>
    decreases names.len(),
{
    if names.len() == 0 {
        list
    } else {
        remove_named(remove_all(list, names.drop_last()), names.last())
    }
}

pub open spec fn conflicts_any(list: Seq<DnsServer>, dns: DnsServer) -> bool {
    exists|i: int| 0 <= i < list.len() && list[i].conflicts(&dns)
}

/// The outcome of adding `dns` to `list`: address errors come first, then conflicts.
pub open spec fn add_outcome(list: Seq<DnsServer>, dns: DnsServer) -> Result<(), AddError> {
    if dns.check() is Err {
        Err(AddError::InvalidAddress(dns.check()->Err_0))
    } else if conflicts_any(list, dns) {
        Err(AddError::Conflict)
    } else {
        Ok(())
    }
}

/// The names of a list of strings, as character sequences.
pub open spec fn name_views(names: Seq<String>) -> Seq<Seq<char>> {
    names.map_values(|n: String| n@)
}

/// The position of the first profile named `name`.
pub fn find_server(servers: &Vec<DnsServer>, name: &String) -> (r: Option<usize>)
    ensures
        r matches Some(i) ==> is_first_named(servers@, name@, i as int),
        r is None <==> !has_named(servers@, name@),
{
    let mut i: usize = 0;
    while i < servers.len()
        invariant
            i <= servers@.len(),
            forall|j: int| 0 <= j < i ==> servers@[j].name@ != name@,
        decreases servers.len() - i,
    {
        if servers[i].name == *name {
            return Some(i);
        }
        i += 1;
    }
    None
}

/// Appends `dns` when both its addresses are of its family and it conflicts
/// with no profile of the list; otherwise leaves the list as it was.
pub fn add_server(servers: &mut Vec<DnsServer>, dns: DnsServer) -> (r: Result<(), AddError>)
    ensures
        r == add_outcome(old(servers)@, dns),
        r is Ok ==> final(servers)@ == old(servers)@.push(dns),
        r is Err ==> final(servers)@ == old(servers)@,
        !dns.valid() ==> r is Err && final(servers)@ == old(servers)@,
        conflicts_any(old(servers)@, dns) ==> r is Err && final(servers)@.len() == old(
            servers,
        )@.len(),
{
    if let Err(e) = dns.verify_dns() {
        return Err(AddError::InvalidAddress(e));
    }
    let mut i: usize = 0;
    while i < servers.len()
        invariant
            i <= servers@.len(),
            servers@ == old(servers)@,
            dns.check() is Ok,
            forall|j: int| 0 <= j < i ==> !servers@[j].conflicts(&dns),
        decreases servers.len() - i,
    {
        if servers[i].conflicts_with(&dns) {
            assert(0 <= i < servers@.len() && servers@[i as int].conflicts(&dns));
            return Err(AddError::Conflict);
        }
        i += 1;
    }
    servers.push(dns);
    Ok(())
}

/// Removes the first profile named `name`; tells whether there was one.
pub fn remove_server(servers: &mut Vec<DnsServer>, name: &String) -> (r: bool)
    ensures
        r == has_named(old(servers)@, name@),
        final(servers)@ == remove_named(old(servers)@, name@),
{
    match find_server(servers, name) {
        Some(i) => {
            let ghost k = choose|k: int| is_first_named(servers@, name@, k);
            assert(k == i as int) by {
                if k < i as int {
                } else if k > i as int {
                }
            }
            servers.remove(i);
            true
        },
        None => {
            assert(!exists|k: int| is_first_named(servers@, name@, k));
            false
        },
    }
}

/// Removes, for each name in turn, the first profile of that name. The result
/// tells for each name whether a profile of that name was there to remove.
pub fn remove_servers(servers: &mut Vec<DnsServer>, names: &Vec<String>) -> (r: Vec<bool>)
    ensures
        final(servers)@ == remove_all(old(servers)@, name_views(names@)),
        r@.len() == names@.len(),
        forall|i: int|
            0 <= i < names@.len() ==> r@[i] == has_named(
                remove_all(old(servers)@, name_views(names@).subrange(0, i)),
                names@[i]@,
            ),
{
    let ghost start = servers@;
    let ghost all = name_views(names@);
    let mut found: Vec<bool> = Vec::new();
    let mut i: usize = 0;
    assert(all.subrange(0, 0) =~= Seq::<Seq<char>>::empty());
    while i < names.len()
        invariant
            i <= names@.len(),
            all == name_views(names@),
            servers@ == remove_all(start, all.subrange(0, i as int)),
            found@.len() == i,
            forall|j: int|
                0 <= j < i ==> found@[j] == has_named(
                    remove_all(start, all.subrange(0, j)),
                    names@[j]@,
                ),
        decreases names.len() - i,
    {
        assert(all.subrange(0, i + 1).drop_last() =~= all.subrange(0, i as int));
        let hit = remove_server(servers, &names[i]);
        found.push(hit);
        i += 1;
    }
    assert(all.subrange(0, names@.len() as int) =~= all);
    found
}

/// A profile with a malformed address is never added: building it fails,
/// and adding it fails for every list, which then stays as it was.
pub proof fn lemma_malformed_never_added(list: Seq<DnsServer>, dns: DnsServer)
    requires
        !is_address(dns.primary@, dns.v6) || !is_address(dns.secondary@, dns.v6),
    ensures
        !dns.valid(),
        dns.check() is Err,
        add_outcome(list, dns) matches Err(AddError::InvalidAddress(_)),
{
}

/// A well-formed profile that shares its name, or its address pair, with a
/// profile of the list is refused as a conflict.
pub proof fn lemma_conflict_refused(list: Seq<DnsServer>, dns: DnsServer, i: int)
    requires
        dns.valid(),
        0 <= i < list.len(),
        list[i].name@ == dns.name@ || (list[i].primary@ == dns.primary@ && list[i].secondary@
            == dns.secondary@),
    ensures
        add_outcome(list, dns) == Err::<(), AddError>(AddError::Conflict),
{
    assert(list[i].conflicts(&dns));
}

} // verus!
