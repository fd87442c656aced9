use vstd::prelude::*;

verus! {

/// An IP address, by its parts: four bytes for version 4, eight groups for version 6.
#[derive(Debug, Clone, Copy, PartialEq, Eq, Structural)]
pub enum IpAddress {
    V4(u8, u8, u8, u8),
    V6(u16, u16, u16, u16, u16, u16, u16, u16),
}

/// An IP address with a port.
#[derive(Debug, Clone, Copy, PartialEq, Eq, Structural)]
pub struct SocketAddress {
    pub ip: IpAddress,
    pub port: u16,
}

/// `0.0.0.0`: every IPv4 interface.
pub open spec fn any_v4() -> IpAddress {
    IpAddress::V4(0, 0, 0, 0)
}

/// `::`: every IPv6 interface.
pub open spec fn any_v6() -> IpAddress {
    IpAddress::V6(0, 0, 0, 0, 0, 0, 0, 0)
}

/// `127.0.0.1`.
pub open spec fn loopback_v4() -> IpAddress {
    IpAddress::V4(127, 0, 0, 1)
}

impl IpAddress {
    pub fn any_v4() -> (r: Self)
        ensures
            r == any_v4(),
    {
        IpAddress::V4(0, 0, 0, 0)
    }

    pub fn any_v6() -> (r: Self)
        ensures
            r == any_v6(),
    {
        IpAddress::V6(0, 0, 0, 0, 0, 0, 0, 0)
    }

    pub fn loopback_v4() -> (r: Self)
        ensures
            r == loopback_v4(),
    {
        IpAddress::V4(127, 0, 0, 1)
    }
}

/// Whether `v` holds `x`.
pub fn contains_ip(v: &Vec<IpAddress>, x: IpAddress) -> (r: bool)
    ensures
        r == v@.contains(x),
{
    let mut i: usize = 0;
    while i < v.len()
        invariant
            i <= v@.len(),
            forall|j: int| 0 <= j < i ==> v@[j] != x,
        decreases v@.len() - i,
    {
        if v[i] == x {
            assert(v@[i as int] == x);
            return true;
        }
        i = i + 1;
    }
    false
}

/// Adds `x` to `v` unless it is there already.
pub fn insert_ip(v: &mut Vec<IpAddress>, x: IpAddress)
    ensures
        final(v)@.to_set() == old(v)@.to_set().insert(x),
{
    if !contains_ip(v, x) {
        let ghost before = v@;
        v.push(x);
        assert(v@.to_set() =~= before.to_set().insert(x)) by {
            assert forall|y: IpAddress| #[trigger] v@.to_set().contains(y) implies before.to_set().insert(x).contains(y) by {
                let i = choose|i: int| 0 <= i < v@.len() && v@[i] == y;
                if i < before.len() {
                    assert(before[i] == y);
                }
            }
            assert forall|y: IpAddress| #[trigger] before.to_set().insert(x).contains(y) implies v@.to_set().contains(y) by {
                if y == x {
                    assert(v@[before.len() as int] == y);
                } else {
                    let i = choose|i: int| 0 <= i < before.len() && before[i] == y;
                    assert(v@[i] == y);
                }
            }
        }
    } else {
        assert(v@.to_set() =~= v@.to_set().insert(x));
    }
}


/// Whether `v` holds `x`.
pub fn contains_port(v: &Vec<u16>, x: u16) -> (r: bool)
    ensures
        r == v@.contains(x),
{
    let mut i: usize = 0;
    while i < v.len()
        invariant
            i <= v@.len(),
            forall|j: int| 0 <= j < i ==> v@[j] != x,
        decreases v@.len() - i,
    {
        if v[i] == x {
            assert(v@[i as int] == x);
            return true;
        }
        i = i + 1;
    }
    false
}

/// Adds `x` to `v` unless it is there already.
pub fn insert_port(v: &mut Vec<u16>, x: u16)
    ensures
        final(v)@.to_set() == old(v)@.to_set().insert(x),
{
    if !contains_port(v, x) {
        let ghost before = v@;
        v.push(x);
        assert(v@.to_set() =~= before.to_set().insert(x)) by {
            assert forall|y: u16| #[trigger] v@.to_set().contains(y) implies before.to_set().insert(x).contains(y) by {
                let i = choose|i: int| 0 <= i < v@.len() && v@[i] == y;
                if i < before.len() {
                    assert(before[i] == y);
                }
            }
            assert forall|y: u16| #[trigger] before.to_set().insert(x).contains(y) implies v@.to_set().contains(y) by {
                if y == x {
                    assert(v@[before.len() as int] == y);
                } else {
                    let i = choose|i: int| 0 <= i < before.len() && before[i] == y;
                    assert(v@[i] == y);
                }
            }
        }
    } else {
        assert(v@.to_set() =~= v@.to_set().insert(x));
    }
}

} // verus!
