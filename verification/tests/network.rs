use gitweb_release_downloader::network::{AddressFamily, IpType};

#[test]
fn addresses_are_picked_by_kind() {
    let families = [AddressFamily::V6, AddressFamily::V4, AddressFamily::V6, AddressFamily::V4];
    assert_eq!(IpType::Any.resolve(&families), vec![0, 1, 2, 3]);
    assert_eq!(IpType::IPV4.resolve(&families), vec![1, 3]);
    assert_eq!(IpType::IPV6.resolve(&families), vec![0, 2]);
    assert!(IpType::IPV4.resolve(&[AddressFamily::V6]).is_empty());
    assert!(IpType::Any.resolve(&[]).is_empty());
}

#[test]
fn restrictions_partition_the_addresses() {
    for family in [AddressFamily::V4, AddressFamily::V6] {
        assert!(IpType::Any.admits(family));
        assert_ne!(IpType::IPV4.admits(family), IpType::IPV6.admits(family));
    }
}
