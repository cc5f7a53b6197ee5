//! Addresses and who has them.

use ember::error::Error;
use ember::store::{StateStore, StoreAction};
use ember::ip::{
    allocate, allocate_single, block_ips, changing_allocations, max_blocks, parse_cidr, release, IpAllocations, Ipv4Addr,
};

#[test]
fn parse_cidr_valid() {
    let (ip, prefix) = parse_cidr("10.100.0.0/16").unwrap();
    assert_eq!(ip, Ipv4Addr::new(10, 100, 0, 0));
    assert_eq!(prefix, 16);
}

#[test]
fn parse_cidr_slash_30() {
    let (ip, prefix) = parse_cidr("192.168.1.0/30").unwrap();
    assert_eq!(ip, Ipv4Addr::new(192, 168, 1, 0));
    assert_eq!(prefix, 30);
}

#[test]
fn parse_cidr_accepts_up_to_slash_32() {
    // The /30-minimum constraint moved into `allocate` so the
    // shared parser can also serve `allocate_single`, which
    // accepts narrow prefixes (a /27 or even /32).
    assert!(parse_cidr("10.0.0.0/31").is_ok());
    assert!(parse_cidr("192.168.64.0/27").is_ok());
    assert!(parse_cidr("10.0.0.5/32").is_ok());
}

#[test]
fn parse_cidr_rejects_slash_above_32() {
    assert!(parse_cidr("10.0.0.0/33").is_err());
}

#[test]
fn parse_cidr_rejects_host_bits() {
    assert!(parse_cidr("10.100.0.1/16").is_err());
}

#[test]
fn parse_cidr_rejects_no_slash() {
    assert!(parse_cidr("10.100.0.0").is_err());
}

#[test]
fn max_blocks_slash_16() {
    assert_eq!(max_blocks(16), 16384);
}

#[test]
fn max_blocks_slash_24() {
    assert_eq!(max_blocks(24), 64);
}

#[test]
fn max_blocks_slash_30() {
    assert_eq!(max_blocks(30), 1);
}

#[test]
fn block_ips_first() {
    let alloc = block_ips(Ipv4Addr::new(10, 100, 0, 0), 0);
    assert_eq!(alloc.host_ip, "10.100.0.1");
    assert_eq!(alloc.guest_ip, "10.100.0.2");
    assert_eq!(alloc.netmask, "255.255.255.252");
}

#[test]
fn block_ips_second() {
    let alloc = block_ips(Ipv4Addr::new(10, 100, 0, 0), 1);
    assert_eq!(alloc.host_ip, "10.100.0.5");
    assert_eq!(alloc.guest_ip, "10.100.0.6");
}

#[test]
fn block_ips_wraps_octet() {
    // Block 64 in a 10.100.0.0 base: 64 * 4 = 256 → rolls into second octet.
    let alloc = block_ips(Ipv4Addr::new(10, 100, 0, 0), 64);
    assert_eq!(alloc.host_ip, "10.100.1.1");
    assert_eq!(alloc.guest_ip, "10.100.1.2");
}

#[test]
fn allocate_first_block() {
    let mut store: Option<IpAllocations> = None;
    let alloc = allocate(&mut store, "10.100.0.0/16", "vm1").unwrap();
    assert_eq!(alloc.block_index, 0);
    assert_eq!(alloc.host_ip, "10.100.0.1");
    assert_eq!(alloc.guest_ip, "10.100.0.2");
}

#[test]
fn allocate_sequential() {
    let mut store: Option<IpAllocations> = None;
    let a1 = allocate(&mut store, "10.100.0.0/16", "vm1").unwrap();
    let a2 = allocate(&mut store, "10.100.0.0/16", "vm2").unwrap();
    let a3 = allocate(&mut store, "10.100.0.0/16", "vm3").unwrap();

    assert_eq!(a1.block_index, 0);
    assert_eq!(a2.block_index, 1);
    assert_eq!(a3.block_index, 2);

    assert_eq!(a1.host_ip, "10.100.0.1");
    assert_eq!(a2.host_ip, "10.100.0.5");
    assert_eq!(a3.host_ip, "10.100.0.9");
}

#[test]
fn allocate_reuses_released_block() {
    let mut store: Option<IpAllocations> = None;
    allocate(&mut store, "10.100.0.0/16", "vm1").unwrap();
    allocate(&mut store, "10.100.0.0/16", "vm2").unwrap();
    allocate(&mut store, "10.100.0.0/16", "vm3").unwrap();

    // Release the middle one.
    release(&mut store, "vm2");

    // Next allocation should reuse block 1.
    let a4 = allocate(&mut store, "10.100.0.0/16", "vm4").unwrap();
    assert_eq!(a4.block_index, 1);
    assert_eq!(a4.host_ip, "10.100.0.5");
}

#[test]
fn allocate_exhausts_small_subnet() {
    let mut store: Option<IpAllocations> = None;
    // A /30 has only 1 block.
    allocate(&mut store, "192.168.1.0/30", "vm1").unwrap();
    let err = allocate(&mut store, "192.168.1.0/30", "vm2").unwrap_err();
    assert!(err.to_string().contains("no free /30 blocks"));
}

#[test]
fn allocate_rejects_subnet_mismatch() {
    let mut store: Option<IpAllocations> = None;
    allocate(&mut store, "10.100.0.0/16", "vm1").unwrap();
    let err = allocate(&mut store, "10.200.0.0/16", "vm2").unwrap_err();
    assert!(err.to_string().contains("subnet mismatch"));
}

#[test]
fn release_idempotent() {
    let mut store: Option<IpAllocations> = None;
    // Release with no allocations at all.
    release(&mut store, "nonexistent");

    // Allocate then release twice.
    allocate(&mut store, "10.100.0.0/16", "vm1").unwrap();
    release(&mut store, "vm1");
    release(&mut store, "vm1");
}

#[test]
fn release_only_removes_target_vm() {
    let mut store: Option<IpAllocations> = None;
    allocate(&mut store, "10.100.0.0/16", "vm1").unwrap();
    allocate(&mut store, "10.100.0.0/16", "vm2").unwrap();
    allocate(&mut store, "10.100.0.0/16", "vm3").unwrap();

    release(&mut store, "vm2");

    // vm1 and vm3 should still be allocated.
    let allocs: IpAllocations = store.unwrap();
    assert_eq!(allocs.allocations.len(), 2);
    assert_eq!(allocs.allocations[&0], "vm1");
    assert_eq!(allocs.allocations[&2], "vm3");
}

#[test]
fn allocations_persist_across_reads() {
    let mut store: Option<IpAllocations> = None;
    allocate(&mut store, "10.100.0.0/16", "vm1").unwrap();
    allocate(&mut store, "10.100.0.0/16", "vm2").unwrap();

    let allocs: IpAllocations = store.unwrap();
    assert_eq!(allocs.base_subnet, "10.100.0.0/16");
    assert_eq!(allocs.allocations.len(), 2);
}

#[test]
fn allocate_rejects_too_narrow_subnet() {
    // /31 is too small for /30 P2P allocation; the constraint
    // lives on `allocate` (not `parse_cidr`) since the shared
    // parser also serves `allocate_single`.
    let mut store: Option<IpAllocations> = None;
    let err = allocate(&mut store, "10.0.0.0/31", "vm1").unwrap_err();
    assert!(matches!(err, Error::Network(_)));
}

/// Helper: vmnet's host-global reservations carved out of the /24.
fn vmnet_reserved() -> [Ipv4Addr; 3] {
    [
        Ipv4Addr::new(192, 168, 64, 0),   // /24 network
        Ipv4Addr::new(192, 168, 64, 1),   // vmnet gateway
        Ipv4Addr::new(192, 168, 64, 255), // /24 broadcast
    ]
}

#[test]
fn allocate_single_skips_network_and_gateway_in_slot_zero() {
    // Slot 0 (192.168.64.0/27) contains both the /24 network
    // (.0) and the vmnet gateway (.1). The first guest allocated
    // must land on .2, not .0 or .1.
    let mut store: Option<IpAllocations> = None;
    let reserved = vmnet_reserved();
    let alloc = allocate_single(
        &mut store,
        "192.168.64.0/27",
        "vm1",
        "192.168.64.1",
        "255.255.255.0",
        &reserved,
    )
    .unwrap();
    assert_eq!(alloc.guest_ip, "192.168.64.2");
    assert_eq!(alloc.host_ip, "192.168.64.1");
    assert_eq!(alloc.netmask, "255.255.255.0");
    // block_index reflects the address offset, not a /30 index.
    assert_eq!(alloc.block_index, 2);
}

#[test]
fn allocate_single_packs_addresses_one_per_vm() {
    // /27 with 2 reserved addresses (.0, .1) yields 30 usable
    // single-IP slots — 4× what /30 allocation gets.
    let mut store: Option<IpAllocations> = None;
    let reserved = vmnet_reserved();
    let mut last_octet = None;
    for i in 0..30 {
        let alloc = allocate_single(
            &mut store,
            "192.168.64.0/27",
            &format!("vm{i}"),
            "192.168.64.1",
            "255.255.255.0",
            &reserved,
        )
        .unwrap();
        let octet: u8 = alloc.guest_ip.split('.').nth(3).unwrap().parse().unwrap();
        // Strictly monotonic, never .0 or .1.
        assert!(octet >= 2);
        if let Some(prev) = last_octet {
            assert!(octet > prev, "expected strictly monotonic guest IPs");
        }
        last_octet = Some(octet);
    }
}

#[test]
fn allocate_single_skips_broadcast_in_top_slot() {
    // Slot 7 (192.168.64.224/27) ends at .255, which is the
    // surrounding /24's broadcast. The allocator must not hand
    // it out, so the slot holds 31 (not 32) usable addresses.
    let mut store: Option<IpAllocations> = None;
    let reserved = vmnet_reserved();
    for i in 0..31 {
        allocate_single(
            &mut store,
            "192.168.64.224/27",
            &format!("vm{i}"),
            "192.168.64.1",
            "255.255.255.0",
            &reserved,
        )
        .unwrap();
    }
    // 32nd allocation hits .255 → reserved → no free slot.
    let err = allocate_single(
        &mut store,
        "192.168.64.224/27",
        "overflow",
        "192.168.64.1",
        "255.255.255.0",
        &reserved,
    )
    .unwrap_err();
    assert!(matches!(err, Error::Network(_)));
}

#[test]
fn allocate_single_reuses_released_addresses() {
    // Drop vm2, allocate vm4 → vm4 should land on vm2's freed
    // slot (lowest unused index).
    let mut store: Option<IpAllocations> = None;
    let reserved = vmnet_reserved();
    let a1 = allocate_single(
        &mut store,
        "192.168.64.32/27",
        "vm1",
        "192.168.64.1",
        "255.255.255.0",
        &reserved,
    )
    .unwrap();
    let a2 = allocate_single(
        &mut store,
        "192.168.64.32/27",
        "vm2",
        "192.168.64.1",
        "255.255.255.0",
        &reserved,
    )
    .unwrap();
    let a3 = allocate_single(
        &mut store,
        "192.168.64.32/27",
        "vm3",
        "192.168.64.1",
        "255.255.255.0",
        &reserved,
    )
    .unwrap();
    assert_ne!(a1.guest_ip, a2.guest_ip);
    assert_ne!(a2.guest_ip, a3.guest_ip);

    release(&mut store, "vm2");

    let a4 = allocate_single(
        &mut store,
        "192.168.64.32/27",
        "vm4",
        "192.168.64.1",
        "255.255.255.0",
        &reserved,
    )
    .unwrap();
    assert_eq!(
        a4.guest_ip, a2.guest_ip,
        "freed slot should be reused before allocating beyond the high-water mark"
    );
}

#[test]
fn allocate_single_rejects_subnet_mismatch_on_reread() {
    // allocations.json pins the base subnet so an install can't
    // accidentally re-interpret block indices in a different
    // layout (e.g. switching between /30 and /32 strategies
    // would re-stamp every existing entry).
    let mut store: Option<IpAllocations> = None;
    let reserved = vmnet_reserved();
    allocate_single(
        &mut store,
        "192.168.64.32/27",
        "vm1",
        "192.168.64.1",
        "255.255.255.0",
        &reserved,
    )
    .unwrap();
    let err = allocate_single(
        &mut store,
        "192.168.64.64/27",
        "vm2",
        "192.168.64.1",
        "255.255.255.0",
        &reserved,
    )
    .unwrap_err();
    assert!(matches!(err, Error::Network(msg) if msg.contains("subnet mismatch")));
}

#[test]
fn addresses_are_read_strictly() {
    assert_eq!(Ipv4Addr::parse("10.0.255.1"), Some(Ipv4Addr::new(10, 0, 255, 1)));
    assert_eq!(Ipv4Addr::parse("10.0.256.1"), None);
    assert_eq!(Ipv4Addr::parse("10.0.01.1"), None);
    assert_eq!(Ipv4Addr::parse("10.0.1"), None);
    assert_eq!(Ipv4Addr::parse("10.0.1.2.3"), None);
    assert_eq!(Ipv4Addr::new(1, 2, 3, 4).to_string(), "1.2.3.4");
}

#[test]
fn releasing_says_whether_anything_changed() {
    let mut store: Option<IpAllocations> = None;
    assert!(!release(&mut store, "vm1"));
    allocate(&mut store, "10.100.0.0/16", "vm1").unwrap();
    assert!(release(&mut store, "vm1"));
    assert!(store.unwrap().allocations.is_empty());
}

#[test]
fn no_block_is_handed_out_twice() {
    let mut state: Option<IpAllocations> = None;
    let a = allocate(&mut state, "10.0.0.0/29", "a").unwrap();
    let b = allocate(&mut state, "10.0.0.0/29", "b").unwrap();
    assert_ne!(a.block_index, b.block_index);
    let kept = &state.as_ref().unwrap().allocations;
    assert_eq!(kept[&a.block_index], "a");
    assert_eq!(kept[&b.block_index], "b");
    assert!(allocate(&mut state, "10.0.0.0/29", "c").is_err());
    let store = StateStore {
        root: "/s".to_string(),
    };
    let actions: Vec<StoreAction> = changing_allocations(&store, 7)
        .into_iter()
        .map(|s| s.action)
        .collect();
    let at = |a: StoreAction| actions.iter().position(|x| *x == a).unwrap();
    let locked = at(StoreAction::LockExclusive("/s/network/allocations.json.lock".to_string()));
    let read = at(StoreAction::ReadOrDefault("/s/network/allocations.json".to_string()));
    assert!(locked < read && read < at(StoreAction::Change));
}
