//! Which addresses of a host are connected to.

use vstd::prelude::*;

verus! {

/// The kind of addresses that the user allows.
#[derive(Debug, Clone, Copy, PartialEq, Eq, Structural)]
pub enum IpType {
    Any,
    IPV4,
    IPV6,
}

/// The kind of an address.
#[derive(Debug, Clone, Copy, PartialEq, Eq, Structural)]
pub enum AddressFamily {
    V4,
    V6,
}

impl IpType {
    /// Whether addresses of a kind are allowed.
    pub open spec fn allows(self, family: AddressFamily) -> bool {
        match self {
            IpType::Any => true,
            IpType::IPV4 => family == AddressFamily::V4,
            IpType::IPV6 => family == AddressFamily::V6,
        }
    }

    /// Whether an address of a kind is connected to.
    pub fn admits(&self, family: AddressFamily) -> (admitted: bool)
        ensures
            admitted == self.allows(family),
    {
        match self {
            IpType::Any => true,
            IpType::IPV4 => family == AddressFamily::V4,
            IpType::IPV6 => family == AddressFamily::V6,
        }
    }
}

/// The positions of the addresses that are allowed, in order.
pub open spec fn admitted_positions(ip_type: IpType, families: Seq<AddressFamily>) -> Seq<usize>
    decreases families.len(),
{
    if families.len() == 0 {
        Seq::empty()
    } else {
        let rest = admitted_positions(ip_type, families.drop_last());
        if ip_type.allows(families.last()) {
            rest.push((families.len() - 1) as usize)
        } else {
            rest
        }
    }
}

impl IpType {
    /// Picks the addresses to connect to, by position, from the kinds of all addresses that
    /// a host resolves to.
    pub fn resolve(&self, families: &[AddressFamily]) -> (positions: Vec<usize>)
        ensures
            positions@ == admitted_positions(*self, families@),
    {
        let mut positions: Vec<usize> = Vec::new();
        let mut i: usize = 0;
        while i < families.len()
            invariant
                i <= families@.len(),
                positions@ == admitted_positions(*self, families@.take(i as int)),
            decreases families@.len() - i,
        {
            assert(families@.take(i + 1).drop_last() == families@.take(i as int));
            if self.admits(families[i]) {
                positions.push(i);
            }
            i += 1;
        }
        assert(families@.take(i as int) == families@);
        positions
    }
}

/// An address is picked exactly if its kind is allowed, and the picked addresses keep
/// their order.
pub proof fn lemma_admitted_exactly(ip_type: IpType, families: Seq<AddressFamily>)
    requires
        families.len() <= usize::MAX,
    ensures
        forall|i: int|
            0 <= i < families.len() ==> (admitted_positions(ip_type, families).contains(i as usize)
                <==> ip_type.allows(#[trigger] families[i])),
        forall|k: int|
            0 <= k < admitted_positions(ip_type, families).len() ==> #[trigger] admitted_positions(
                ip_type,
                families,
            )[k] < families.len(),
        forall|j: int, k: int|
            0 <= j < k < admitted_positions(ip_type, families).len() ==> admitted_positions(
                ip_type,
                families,
            )[j] < admitted_positions(ip_type, families)[k],
    decreases families.len(),
{
    if families.len() > 0 {
        let front = families.drop_last();
        let rest = admitted_positions(ip_type, front);
        let all = admitted_positions(ip_type, families);
        let last = (families.len() - 1) as usize;
        lemma_admitted_exactly(ip_type, front);
        assert forall|i: int| 0 <= i < families.len() implies (all.contains(i as usize)
            <==> ip_type.allows(#[trigger] families[i])) by {
            if i < last {
                assert(front[i] == families[i]);
                if all.contains(i as usize) {
                    let k = choose|k: int| 0 <= k < all.len() && all[k] == i as usize;
                    assert(rest[k] == i as usize);
                }
                if rest.contains(i as usize) {
                    let k = choose|k: int| 0 <= k < rest.len() && rest[k] == i as usize;
                    assert(all[k] == i as usize);
                }
            } else if ip_type.allows(families[i]) {
                assert(all[rest.len() as int] == last);
            }
        }
    }
}

/// Every address is allowed where the kind does not matter, and by exactly one of the
/// two restrictions.
pub proof fn lemma_restrictions_partition(family: AddressFamily)
    ensures
        IpType::Any.allows(family),
        IpType::IPV4.allows(family) != IpType::IPV6.allows(family),
{
}

/// Without a restriction every address is allowed, and with one exactly those of its kind.
pub proof fn lemma_restrictions(family: AddressFamily)
    ensures
        IpType::Any.allows(family),
        IpType::IPV4.allows(family) <==> family == AddressFamily::V4,
        IpType::IPV6.allows(family) <==> family == AddressFamily::V6,
{
}

/// One more address is picked, behind the others and by its own position, exactly if the
/// restriction allows its kind.
pub proof fn lemma_one_more_address(
    ip_type: IpType,
    families: Seq<AddressFamily>,
    family: AddressFamily,
)
    requires
        families.len() < usize::MAX,
    ensures
        admitted_positions(ip_type, Seq::empty()).len() == 0,
        admitted_positions(ip_type, families.push(family)) == if ip_type == IpType::Any || (ip_type
            == IpType::IPV4 && family == AddressFamily::V4) || (ip_type == IpType::IPV6 && family
            == AddressFamily::V6) {
            admitted_positions(ip_type, families).push(families.len() as usize)
        } else {
            admitted_positions(ip_type, families)
        },
{
    assert(families.push(family).drop_last() == families);
}

} // verus!
