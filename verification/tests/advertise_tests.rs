use lan_speed_test::advertise::{
    advertised_addresses, advertisement, instance_name, join_addresses, pick_instance_name,
    Advertisement, Interface, InterfaceAddress, INSTANCE_NUMBERS,
};
use lan_speed_test::net::Ipv4Address;

fn interface(up: bool, loopback: bool, running: bool, addresses: Vec<InterfaceAddress>) -> Interface {
    Interface { up, loopback, running, addresses }
}

fn sample_interfaces() -> Vec<Interface> {
    vec![
        interface(true, true, true, vec![InterfaceAddress::V4(Ipv4Address(127, 0, 0, 1))]),
        interface(
            true,
            false,
            true,
            vec![
                InterfaceAddress::V4(Ipv4Address(192, 168, 1, 5)),
                InterfaceAddress::Other,
                InterfaceAddress::V4(Ipv4Address(192, 168, 1, 6)),
            ],
        ),
        interface(false, false, true, vec![InterfaceAddress::V4(Ipv4Address(10, 0, 0, 1))]),
        interface(true, false, false, vec![InterfaceAddress::V4(Ipv4Address(10, 0, 0, 2))]),
        interface(true, false, true, vec![InterfaceAddress::Other]),
        interface(true, false, true, vec![InterfaceAddress::V4(Ipv4Address(172, 16, 0, 9))]),
    ]
}

#[test]
fn only_usable_interfaces_are_advertised() {
    assert_eq!(
        advertised_addresses(&sample_interfaces()),
        vec![Ipv4Address(192, 168, 1, 5), Ipv4Address(192, 168, 1, 6), Ipv4Address(172, 16, 0, 9)]
    );
    assert_eq!(advertised_addresses(&vec![]), vec![]);
}

#[test]
fn addresses_are_joined_by_commas() {
    assert_eq!(join_addresses(&vec![]), "");
    assert_eq!(join_addresses(&vec![Ipv4Address(1, 2, 3, 4)]), "1.2.3.4");
    assert_eq!(
        join_addresses(&vec![Ipv4Address(1, 2, 3, 4), Ipv4Address(0, 0, 0, 0), Ipv4Address(255, 255, 255, 255)]),
        "1.2.3.4,0.0.0.0,255.255.255.255"
    );
}

#[test]
fn instance_name_is_the_numeral() {
    assert_eq!(instance_name(0), "0");
    assert_eq!(instance_name(7), "7");
    assert_eq!(instance_name(10), "10");
    assert_eq!(instance_name(254), "254");
    assert_eq!(instance_name(4_294_967_295), "4294967295");
}

#[test]
fn picked_instance_name_is_a_numeral_below_the_bound() {
    assert_eq!(INSTANCE_NUMBERS, 255);
    for _ in 0..2000 {
        let name = pick_instance_name();
        let number: i32 = name.parse().unwrap();
        assert!((0..255).contains(&number));
        assert_eq!(number.to_string(), name);
    }
}

#[test]
fn picked_instance_names_vary() {
    let first = pick_instance_name();
    let mut differs = false;
    for _ in 0..2000 {
        if pick_instance_name() != first {
            differs = true;
        }
    }
    assert!(differs);
}

#[test]
fn advertisement_carries_the_record() {
    let record = advertisement(String::from("17"), String::from("box.local"), &sample_interfaces(), 30000);
    assert_eq!(
        record,
        Advertisement {
            service_type: String::from("_speedtestd._tcp.local."),
            instance_name: String::from("17"),
            host_name: String::from("box.local"),
            addresses: String::from("192.168.1.5,192.168.1.6,172.16.0.9"),
            port: 30000,
        }
    );
}
