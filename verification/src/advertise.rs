//! What a server advertises about itself on the local network: an instance
//! name, its host name, the IPv4 addresses of its usable interfaces and the
//! port on which it listens.

use crate::discovery::SERVICE_TYPE;
use crate::net::{dotted_quad, push_dotted_quad, Ipv4Address};
use crate::text::{decimal_text, push_decimal, string_of};
use rand::Rng;
use vstd::prelude::*;

verus! {

/// Instance names are the numerals of the numbers below this bound.
pub const INSTANCE_NUMBERS: i32 = 255;

/// One address of a network interface.
#[derive(Clone, Copy, Debug, PartialEq, Eq)]
pub enum InterfaceAddress {
    /// An IPv4 address.
    V4(Ipv4Address),
    /// An address of another family; it is not advertised.
    Other,
}

/// What the advertisement reads of a network interface.
#[derive(Clone, Debug, PartialEq, Eq)]
pub struct Interface {
    /// Whether the interface is up.
    pub up: bool,
    /// Whether it is a loopback interface.
    pub loopback: bool,
    /// Whether it is running.
    pub running: bool,
    /// Its addresses, in the system's order.
    pub addresses: Vec<InterfaceAddress>,
}

/// Whether the addresses of `interface` are advertised: it is up and running
/// and no loopback.
pub open spec fn is_usable(interface: Interface) -> bool {
    interface.up && !interface.loopback && interface.running
}

/// The IPv4 addresses among `addresses`, in order.
pub open spec fn ipv4_of(addresses: Seq<InterfaceAddress>) -> Seq<Ipv4Address>
    decreases addresses.len(),
{
    if addresses.len() == 0 {
        Seq::empty()
    } else {
        match addresses.last() {
            InterfaceAddress::V4(ip) => ipv4_of(addresses.drop_last()).push(ip),
            InterfaceAddress::Other => ipv4_of(addresses.drop_last()),
        }
    }
}

/// The addresses that are advertised: the IPv4 addresses of the usable
/// interfaces, interface by interface, in order.
pub open spec fn advertised_of(interfaces: Seq<Interface>) -> Seq<Ipv4Address>
    decreases interfaces.len(),
{
    if interfaces.len() == 0 {
        Seq::empty()
    } else if is_usable(interfaces.last()) {
        advertised_of(interfaces.drop_last()) + ipv4_of(interfaces.last().addresses@)
    } else {
        advertised_of(interfaces.drop_last())
    }
}

/// The dotted-quad forms of `addresses`, joined by `,`.
pub open spec fn joined(addresses: Seq<Ipv4Address>) -> Seq<char>
    decreases addresses.len(),
{
    if addresses.len() == 0 {
        Seq::empty()
    } else if addresses.len() == 1 {
        dotted_quad(addresses[0])
    } else {
        joined(addresses.drop_last()) + seq![','] + dotted_quad(addresses.last())
    }
}

/// The IPv4 addresses of the usable interfaces among `interfaces`, in order.
pub fn advertised_addresses(interfaces: &Vec<Interface>) -> (addresses: Vec<Ipv4Address>)
    ensures
        addresses@ == advertised_of(interfaces@),
{
    let mut addresses: Vec<Ipv4Address> = Vec::new();
    let mut i: usize = 0;
    while i < interfaces.len()
        invariant
            i <= interfaces.len(),
            addresses@ == advertised_of(interfaces@.take(i as int)),
        decreases interfaces.len() - i,
    {
        let interface = &interfaces[i];
        let ghost before = addresses@;
        proof {
            assert(interfaces@.take(i + 1).drop_last() =~= interfaces@.take(i as int));
        }
        if interface.up && !interface.loopback && interface.running {
            let mut j: usize = 0;
            while j < interface.addresses.len()
                invariant
                    j <= interface.addresses.len(),
                    addresses@ == before + ipv4_of(interface.addresses@.take(j as int)),
                decreases interface.addresses.len() - j,
            {
                proof {
                    assert(interface.addresses@.take(j + 1).drop_last()
                        =~= interface.addresses@.take(j as int));
                }
                match interface.addresses[j] {
                    InterfaceAddress::V4(ip) => {
                        addresses.push(ip);
                    },
                    InterfaceAddress::Other => {},
                }
                j = j + 1;
                proof {
                    assert(addresses@ =~= before + ipv4_of(interface.addresses@.take(j as int)));
                }
            }
            proof {
                assert(interface.addresses@.take(j as int) =~= interface.addresses@);
            }
        }
        i = i + 1;
    }
    proof {
        assert(interfaces@.take(i as int) =~= interfaces@);
    }
    addresses
}

/// The dotted-quad forms of `addresses`, joined by `,`.
pub fn join_addresses(addresses: &Vec<Ipv4Address>) -> (text: String)
    ensures
        text@ == joined(addresses@),
{
    let mut out: Vec<char> = Vec::new();
    let mut i: usize = 0;
    while i < addresses.len()
        invariant
            i <= addresses.len(),
            out@ == joined(addresses@.take(i as int)),
        decreases addresses.len() - i,
    {
        proof {
            assert(addresses@.take(i + 1).drop_last() =~= addresses@.take(i as int));
        }
        if i > 0 {
            out.push(',');
        }
        push_dotted_quad(&mut out, addresses[i]);
        i = i + 1;
        proof {
            assert(out@ =~= joined(addresses@.take(i as int)));
        }
    }
    proof {
        assert(addresses@.take(i as int) =~= addresses@);
    }
    string_of(&out)
}

/// The instance name for `number`: its decimal numeral.
pub fn instance_name(number: u32) -> (name: String)
    ensures
        name@ == decimal_text(number as nat),
{
    let mut out: Vec<char> = Vec::new();
    push_decimal(&mut out, number);
    proof {
        assert(out@ =~= decimal_text(number as nat));
    }
    string_of(&out)
}

/// Calls `Rng::gen_range` on the thread's generator with the range from zero
/// up to, and without, `bound`: some number within that range. An empty
/// range makes `gen_range` panic, so `bound` is positive.
#[verifier::external_body]
fn random_below(bound: i32) -> (number: i32)
    requires
        bound > 0,
    ensures
        0 <= number < bound,
{
    rand::thread_rng().gen_range(0..bound)
}

/// Picks an instance name at random: the numeral of some number below
/// `INSTANCE_NUMBERS`.
pub fn pick_instance_name() -> (name: String)
    ensures
        exists|number: nat| number < INSTANCE_NUMBERS && name@ == decimal_text(number),
{
    let number = random_below(INSTANCE_NUMBERS);
    let name = instance_name(number as u32);
    proof {
        assert((number as nat) < INSTANCE_NUMBERS && name@ == decimal_text(number as nat));
    }
    name
}

/// The record that a server announces.
#[derive(Clone, Debug, PartialEq, Eq)]
pub struct Advertisement {
    /// The service type.
    pub service_type: String,
    /// The name of this instance.
    pub instance_name: String,
    /// The name of the host.
    pub host_name: String,
    /// The advertised addresses, joined by `,`.
    pub addresses: String,
    /// The port on which the server listens.
    pub port: u16,
}

/// The record that a server on `port` announces, given the name picked for
/// the instance, the host's name and the host's interfaces.
pub fn advertisement(
    instance_name: String,
    host_name: String,
    interfaces: &Vec<Interface>,
    port: u16,
) -> (record: Advertisement)
    ensures
        record.service_type@ == SERVICE_TYPE@,
        record.instance_name@ == instance_name@,
        record.host_name@ == host_name@,
        record.addresses@ == joined(advertised_of(interfaces@)),
        record.port == port,
{
    let addresses = advertised_addresses(interfaces);
    Advertisement {
        service_type: SERVICE_TYPE.to_owned(),
        instance_name,
        host_name,
        addresses: join_addresses(&addresses),
        port,
    }
}

} // verus!
