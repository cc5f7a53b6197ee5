//! Addresses for virtual machines, handed out from one subnet.
//!
//! On a point-to-point network every machine gets a block of four addresses;
//! on a shared network every machine gets one address. Either way the lowest
//! number that is free is taken, and what a machine gives back is free again.

use std::collections::HashMap;
use vstd::arithmetic::power2::{lemma_pow2_adds, lemma_pow2_pos, lemma_pow2_unfold, pow2};
use vstd::prelude::*;
use vstd::string::*;

use crate::error::{outcome, Error, ErrorView};
use crate::path::joined;
use crate::procedure::{plan, Step};
use crate::store::{changing, tmp_of, Purpose, StateStore, StoreAction};
use crate::text::{
    all_digits, around, chars_of, dec, decimal, is_digit, number_fault, parse_max, parsed, pieces,
    same, split, split_once, texts, value,
};
use crate::transaction::{
    course, law_no_update_is_lost, law_only_jobs_are_done, law_the_done_were_accepted, replay, Job,
    World,
};

verus! {

broadcast use vstd::std_specs::hash::group_hash_axioms;

/// An IPv4 address.
#[derive(Debug, Clone, Copy, PartialEq, Eq, Structural)]
pub struct Ipv4Addr {
    /// The four octets, the first one in the highest bits.
    pub bits: u32,
}

/// An address with dots between its octets.
pub open spec fn dotted(bits: nat) -> Seq<char> {
    dec(bits / 0x100_0000) + "."@ + dec(bits / 0x1_0000 % 256) + "."@ + dec(bits / 256 % 256) + "."@
        + dec(bits % 256)
}

/// Whether `p` is one octet of an address: one to three digits, no more than
/// 255, without a leading zero.
pub open spec fn is_octet(p: Seq<char>) -> bool {
    1 <= p.len() <= 3 && all_digits(p) && value(p) <= 255 && (p.len() > 1 ==> p[0] != '0')
}

/// The address that a text stands for.
pub open spec fn address(s: Seq<char>) -> Option<nat> {
    let p = pieces(s, '.');
    if p.len() == 4 && is_octet(p[0]) && is_octet(p[1]) && is_octet(p[2]) && is_octet(p[3]) {
        Some(
            value(p[0]) * 0x100_0000 + value(p[1]) * 0x1_0000 + value(p[2]) * 256 + value(p[3]),
        )
    } else {
        None
    }
}

fn parse_octet(s: &str) -> (r: Option<u32>)
    ensures
        r matches Some(n) ==> is_octet(s@) && n == value(s@),
        r is None ==> !is_octet(s@),
{
    let v = chars_of(s);
    if v.len() == 0 || v.len() > 3 || (v.len() > 1 && v[0] == '0') || v[0] == '+' {
        proof {
            if s@.len() > 0 && s@[0] == '+' {
                assert(!is_digit(s@[0]));
            }
        }
        return None;
    }
    match parse_max(s, 255) {
        Ok(n) => Some(n as u32),
        Err(_) => None,
    }
}

impl Ipv4Addr {
    /// The address with the given octets.
    pub fn new(a: u8, b: u8, c: u8, d: u8) -> (r: Ipv4Addr)
        ensures
            r.bits == a * 0x100_0000 + b * 0x1_0000 + c * 256 + d,
    {
        Ipv4Addr { bits: a as u32 * 0x100_0000 + b as u32 * 0x1_0000 + c as u32 * 256 + d as u32 }
    }

    /// The address with dots between its octets.
    pub fn to_string(&self) -> (r: String)
        ensures
            r@ == dotted(self.bits as nat),
    {
        let b: u32 = self.bits;
        let o0 = decimal((b / 0x100_0000) as u64);
        let o1 = decimal((b / 0x1_0000 % 256) as u64);
        let o2 = decimal((b / 256 % 256) as u64);
        let o3 = decimal((b % 256) as u64);
        o0.concat(".").concat(o1.as_str()).concat(".").concat(o2.as_str()).concat(".").concat(
            o3.as_str(),
        )
    }

    /// Reads an address.
    pub fn parse(s: &str) -> (r: Option<Ipv4Addr>)
        ensures
            r matches Some(ip) ==> address(s@) == Some(ip.bits as nat),
            r is None ==> address(s@) is None,
    {
        let p = split(s, '.');
        assert(texts(p@).len() == p@.len());
        if p.len() != 4 {
            return None;
        }
        assert(forall|i: int| 0 <= i < 4 ==> texts(p@)[i] == #[trigger] p@[i]@);
        let a = parse_octet(p[0].as_str());
        let b = parse_octet(p[1].as_str());
        let c = parse_octet(p[2].as_str());
        let d = parse_octet(p[3].as_str());
        match (a, b, c, d) {
            (Some(a), Some(b), Some(c), Some(d)) => Some(
                Ipv4Addr { bits: a * 0x100_0000 + b * 0x1_0000 + c * 256 + d },
            ),
            _ => None,
        }
    }
}

/// Which virtual machine holds which part of a subnet.
#[derive(Debug)]
pub struct IpAllocations {
    /// The subnet in CIDR notation.
    pub base_subnet: String,
    /// The machine that holds the block or the address of this number.
    pub allocations: HashMap<u32, String>,
}

/// The addresses that a virtual machine got.
#[derive(Debug, PartialEq)]
pub struct IpAllocation {
    pub block_index: u32,
    pub host_ip: String,
    pub guest_ip: String,
    pub netmask: String,
}

/// The netmask of a block of four addresses.
pub open spec fn netmask_30() -> Seq<char> {
    "255.255.255.252"@
}

fn network_error(message: String) -> (r: Error)
    ensures
        r@ == ErrorView::Network(message@),
{
    Error::Network(message)
}

/// Two to the power of `k`.
fn power_of_two(k: u8) -> (r: u64)
    requires
        k <= 32,
    ensures
        r == pow2(k as nat),
        1 <= r <= 0x1_0000_0000,
{
    let mut r: u64 = 1;
    let mut i: u8 = 0;
    proof {
        vstd::arithmetic::power2::lemma2_to64();
    }
    while i < k
        invariant
            i <= k <= 32,
            r == pow2(i as nat),
            1 <= r,
            r * pow2((32 - i) as nat) == 0x1_0000_0000,
        decreases k - i,
    {
        proof {
            lemma_pow2_unfold((i + 1) as nat);
            lemma_pow2_unfold((32 - i) as nat);
            lemma_pow2_pos((32 - i - 1) as nat);
            let q = pow2((32 - i - 1) as nat);
            assert(r * (2 * q) == (r * 2) * q) by (nonlinear_arith);
            assert(r * 2 <= 0x1_0000_0000) by (nonlinear_arith)
                requires
                    (r * 2) * q == 0x1_0000_0000,
                    q >= 1,
            ;
        }
        r = r * 2;
        i = i + 1;
    }
    proof {
        lemma_pow2_pos((32 - k) as nat);
        let q = pow2((32 - k) as nat);
        assert(r <= 0x1_0000_0000) by (nonlinear_arith)
            requires
                r * q == 0x1_0000_0000,
                q >= 1,
        ;
    }
    r
}

/// What a subnet in CIDR notation reads as: its first address and the length
/// of its prefix.
pub open spec fn subnet_of(cidr: Seq<char>) -> Result<(nat, nat), ErrorView> {
    match around(cidr, '/') {
        None => Err(ErrorView::Network("invalid CIDR notation: "@ + cidr)),
        Some((ip_text, prefix_text)) => match address(ip_text) {
            None => Err(
                ErrorView::Network(
                    "invalid IP in CIDR '"@ + cidr + "': "@ + "invalid IPv4 address syntax"@,
                ),
            ),
            Some(ip) => match parsed(prefix_text, 255) {
                None => Err(
                    ErrorView::Network(
                        "invalid prefix in CIDR '"@ + cidr + "': "@ + number_fault(
                            prefix_text,
                            255,
                        ).text(),
                    ),
                ),
                Some(prefix) => if prefix > 32 {
                    Err(
                        ErrorView::Network(
                            "invalid CIDR prefix /"@ + dec(prefix) + ": must be 0..=32"@,
                        ),
                    )
                } else if ip % pow2((32 - prefix) as nat) != 0 {
                    Err(
                        ErrorView::Network(
                            "IP "@ + dotted(ip) + " has host bits set for /"@ + dec(prefix),
                        ),
                    )
                } else {
                    Ok((ip, prefix))
                },
            },
        },
    }
}

/// Reads a subnet in CIDR notation.
pub fn parse_cidr(cidr: &str) -> (r: Result<(Ipv4Addr, u8), Error>)
    ensures
        match r {
            Ok((ip, prefix)) => subnet_of(cidr@) == Ok::<(nat, nat), ErrorView>(
                (ip.bits as nat, prefix as nat),
            ),
            Err(e) => subnet_of(cidr@) == Err::<(nat, nat), ErrorView>(e@),
        },
{
    let (ip_text, prefix_text) = match split_once(cidr, '/') {
        Some(parts) => parts,
        None => {
            return Err(network_error("invalid CIDR notation: ".to_owned().concat(cidr)));
        },
    };
    let ip = match Ipv4Addr::parse(ip_text) {
        Some(ip) => ip,
        None => {
            return Err(
                network_error(
                    "invalid IP in CIDR '".to_owned().concat(cidr).concat("': ").concat(
                        "invalid IPv4 address syntax",
                    ),
                ),
            );
        },
    };
    let prefix: u8 = match parse_max(prefix_text, 255) {
        Ok(p) => p as u8,
        Err(f) => {
            let why = f.message();
            return Err(
                network_error(
                    "invalid prefix in CIDR '".to_owned().concat(cidr).concat("': ").concat(
                        why.as_str(),
                    ),
                ),
            );
        },
    };
    let prefix_digits = decimal(prefix as u64);
    if prefix > 32 {
        return Err(
            network_error(
                "invalid CIDR prefix /".to_owned().concat(prefix_digits.as_str()).concat(
                    ": must be 0..=32",
                ),
            ),
        );
    }
    let size: u64 = power_of_two(32 - prefix);
    if ip.bits as u64 % size != 0 {
        let ip_digits = ip.to_string();
        return Err(
            network_error(
                "IP ".to_owned().concat(ip_digits.as_str()).concat(
                    " has host bits set for /",
                ).concat(prefix_digits.as_str()),
            ),
        );
    }
    Ok((ip, prefix))
}

/// A subnet ends inside the address space.
proof fn lemma_subnet_fits(ip: nat, prefix: nat)
    requires
        prefix <= 32,
        ip < 0x1_0000_0000,
        ip % pow2((32 - prefix) as nat) == 0,
    ensures
        ip + pow2((32 - prefix) as nat) <= 0x1_0000_0000,
{
    let size = pow2((32 - prefix) as nat);
    lemma_pow2_pos((32 - prefix) as nat);
    lemma_pow2_adds((32 - prefix) as nat, prefix);
    vstd::arithmetic::power2::lemma2_to64();
    let n = pow2(prefix);
    let q = ip / size;
    assert(size * n == 0x1_0000_0000);
    assert(ip == size * q) by (nonlinear_arith)
        requires
            size > 0,
            q == ip / size,
            ip % size == 0,
    ;
    assert(q < n) by (nonlinear_arith)
        requires
            size > 0,
            size * q < size * n,
    ;
    assert(size * q + size <= size * n) by (nonlinear_arith)
        requires
            size > 0,
            q + 1 <= n,
    ;
}

/// How many blocks of four addresses a subnet has.
pub fn max_blocks(prefix_len: u8) -> (r: u32)
    requires
        prefix_len <= 30,
    ensures
        r == pow2((30 - prefix_len) as nat),
        r >= 1,
{
    proof {
        vstd::arithmetic::power2::lemma2_to64();
        lemma_pow2_adds((30 - prefix_len) as nat, (prefix_len + 2) as nat);
        lemma_pow2_pos((30 - prefix_len) as nat);
        lemma_pow2_pos(prefix_len as nat);
        lemma_pow2_unfold((prefix_len + 2) as nat);
        lemma_pow2_unfold((prefix_len + 1) as nat);
        let a = pow2((30 - prefix_len) as nat);
        let b = pow2((prefix_len + 2) as nat);
        assert(a < 0x1_0000_0000) by (nonlinear_arith)
            requires
                a * b == 0x1_0000_0000,
                a >= 1,
                b >= 4,
        ;
    }
    power_of_two(30 - prefix_len) as u32
}

/// Whether `a` holds the addresses of the block `i` of the subnet at `base`.
pub open spec fn is_block(a: IpAllocation, base: nat, i: nat) -> bool {
    &&& a.block_index == i
    &&& a.host_ip@ == dotted(base + i * 4 + 1)
    &&& a.guest_ip@ == dotted(base + i * 4 + 2)
    &&& a.netmask@ == netmask_30()
}

/// The addresses of the block `block_index` of the subnet at `base`.
pub fn block_ips(base: Ipv4Addr, block_index: u32) -> (r: IpAllocation)
    requires
        base.bits + block_index * 4 + 2 <= u32::MAX,
    ensures
        is_block(r, base.bits as nat, block_index as nat),
{
    let network: u32 = base.bits + block_index * 4;
    let host = Ipv4Addr { bits: network + 1 };
    let guest = Ipv4Addr { bits: network + 2 };
    IpAllocation {
        block_index,
        host_ip: host.to_string(),
        guest_ip: guest.to_string(),
        netmask: "255.255.255.252".to_owned(),
    }
}

/// Which machine holds which number.
pub open spec fn holders(m: Map<u32, String>) -> Map<u32, Seq<char>> {
    m.map_values(|s: String| s@)
}

/// The subnet of the stored state: the requested one when nothing is stored.
pub open spec fn stored_subnet(state: Option<IpAllocations>, subnet: Seq<char>) -> Seq<char> {
    match state {
        Some(a) => a.base_subnet@,
        None => subnet,
    }
}

/// The holders in the stored state: none when nothing is stored.
pub open spec fn stored_holders(state: Option<IpAllocations>) -> Map<u32, Seq<char>> {
    match state {
        Some(a) => holders(a.allocations@),
        None => Map::empty(),
    }
}

/// Whether `i` is the lowest of the numbers below `max` that is not taken.
pub open spec fn lowest_free(taken: spec_fn(u32) -> bool, max: nat, i: nat) -> bool {
    &&& i < max
    &&& i <= u32::MAX
    &&& !taken(i as u32)
    &&& forall|j: u32| j < i ==> #[trigger] taken(j)
}

/// Whether every number below `max` is taken.
pub open spec fn all_taken(taken: spec_fn(u32) -> bool, max: nat) -> bool {
    forall|j: u32| j < max ==> #[trigger] taken(j)
}

/// Why a subnet may not be used with the stored state.
pub open spec fn mismatch(state: Option<IpAllocations>, subnet: Seq<char>) -> ErrorView {
    ErrorView::Network(
        "subnet mismatch: state has '"@ + stored_subnet(state, subnet) + "', requested '"@ + subnet
            + "'"@,
    )
}

/// Whether `after` is `before` with the number `i` held by `vm_name`.
pub open spec fn took(
    before: Option<IpAllocations>,
    after: Option<IpAllocations>,
    subnet: Seq<char>,
    i: u32,
    vm_name: Seq<char>,
) -> bool {
    &&& after is Some
    &&& after->0.base_subnet@ == subnet
    &&& stored_holders(after) == stored_holders(before).insert(i, vm_name)
}

/// Refuses a subnet that is not the one of the stored state.
fn check_subnet(state: &Option<IpAllocations>, subnet: &str) -> (r: Result<(), Error>)
    ensures
        outcome(r) == (if stored_subnet(*state, subnet@) == subnet@ {
            Ok::<(), ErrorView>(())
        } else {
            Err(mismatch(*state, subnet@))
        }),
{
    match state {
        None => Ok(()),
        Some(a) => {
            if same(a.base_subnet.as_str(), subnet) {
                Ok(())
            } else {
                Err(
                    network_error(
                        "subnet mismatch: state has '".to_owned().concat(
                            a.base_subnet.as_str(),
                        ).concat("', requested '").concat(subnet).concat("'"),
                    ),
                )
            }
        },
    }
}

/// Whether a machine holds the number `i`.
fn is_held(state: &Option<IpAllocations>, i: u32) -> (r: bool)
    ensures
        r == stored_holders(*state).contains_key(i),
{
    match state {
        None => false,
        Some(a) => a.allocations.contains_key(&i),
    }
}

/// Lets a machine hold the number `i`.
fn hold(state: &mut Option<IpAllocations>, subnet: &str, i: u32, vm_name: &str)
    requires
        stored_subnet(*old(state), subnet@) == subnet@,
    ensures
        took(*old(state), *final(state), subnet@, i, vm_name@),
{
    let mut allocs = match state.take() {
        Some(a) => a,
        None => {
            let m: HashMap<u32, String> = HashMap::new();
            assert(holders(m@) =~= Map::empty());
            IpAllocations { base_subnet: subnet.to_owned(), allocations: m }
        },
    };
    let ghost m = allocs.allocations@;
    let name = vm_name.to_owned();
    allocs.allocations.insert(i, name);
    assert(holders(m.insert(i, name)) =~= holders(m).insert(i, vm_name@));
    *state = Some(allocs);
}

/// What is stored of who holds what.
#[verifier::ext_equal]
pub struct Table {
    pub subnet: Seq<char>,
    pub holders: Map<u32, Seq<char>>,
}

/// What is stored, where anything is.
pub open spec fn table(state: Option<IpAllocations>) -> Option<Table> {
    match state {
        Some(a) => Some(Table { subnet: a.base_subnet@, holders: holders(a.allocations@) }),
        None => None,
    }
}

/// Whether the number `i` is held.
pub open spec fn holds(stored: Option<Table>, i: u32) -> bool {
    stored is Some && stored->0.holders.contains_key(i)
}

/// Whether `i` is the lowest of the numbers below `max` that is not taken.
pub open spec fn is_lowest(taken: spec_fn(u32) -> bool, max: nat, i: u32) -> bool {
    lowest_free(taken, max, i as nat)
}

/// The lowest of the numbers below `max` that is not taken.
pub open spec fn lowest(taken: spec_fn(u32) -> bool, max: nat) -> u32 {
    choose|i: u32| is_lowest(taken, max, i)
}

/// The number of the block of `subnet` that the next machine gets, given what is
/// stored: the lowest that nobody holds. `None` where it gets none.
pub open spec fn next_block(stored: Option<Table>, subnet: Seq<char>) -> Option<u32> {
    let taken = |i: u32| holds(stored, i);
    match subnet_of(subnet) {
        Err(_) => None,
        Ok((_, prefix)) => if prefix > 30 || (stored is Some && stored->0.subnet != subnet)
            || all_taken(taken, pow2((30 - prefix) as nat)) {
            None
        } else {
            Some(lowest(taken, pow2((30 - prefix) as nat)))
        },
    }
}

/// What is stored once a machine has the number `i`.
pub open spec fn with_holder(
    stored: Option<Table>,
    subnet: Seq<char>,
    i: u32,
    vm_name: Seq<char>,
) -> Table {
    Table {
        subnet,
        holders: (match stored {
            Some(t) => t.holders,
            None => Map::empty(),
        }).insert(i, vm_name),
    }
}

/// Gives the lowest free block of four addresses of `subnet` to a machine.
///
/// `state` is what is stored: `None` when nothing is. What is read and what is
/// written have to be one change of the file: see [`changing_allocations`].
pub fn allocate(state: &mut Option<IpAllocations>, subnet: &str, vm_name: &str) -> (r: Result<
    IpAllocation,
    Error,
>)
    ensures
        match r {
            Ok(a) => {
                &&& next_block(table(*old(state)), subnet@) == Some(a.block_index)
                &&& table(*final(state)) == Some(
                    with_holder(table(*old(state)), subnet@, a.block_index, vm_name@),
                )
            },
            Err(_) => next_block(table(*old(state)), subnet@) is None,
        },
        r is Err ==> *final(state) == *old(state),
        match subnet_of(subnet@) {
            Err(e) => outcome(r) == Err::<IpAllocation, ErrorView>(e),
            Ok((base, prefix)) => {
                let taken = |i: u32| stored_holders(*old(state)).contains_key(i);
                if prefix > 30 {
                    outcome(r) == Err::<IpAllocation, ErrorView>(
                        ErrorView::Network(
                            "subnet /"@ + dec(prefix) + " is too small for /30 allocations"@,
                        ),
                    )
                } else if stored_subnet(*old(state), subnet@) != subnet@ {
                    outcome(r) == Err::<IpAllocation, ErrorView>(mismatch(*old(state), subnet@))
                } else if all_taken(taken, pow2((30 - prefix) as nat)) {
                    outcome(r) == Err::<IpAllocation, ErrorView>(
                        ErrorView::Network(
                            "no free /30 blocks in "@ + subnet@ + " (all "@ + dec(
                                pow2((30 - prefix) as nat),
                            ) + " blocks allocated)"@,
                        ),
                    )
                } else {
                    &&& r matches Ok(a)
                    &&& lowest_free(taken, pow2((30 - prefix) as nat), a.block_index as nat)
                    &&& is_block(a, base, a.block_index as nat)
                    &&& took(*old(state), *final(state), subnet@, a.block_index, vm_name@)
                }
            },
        },
{
    let (base, prefix) = match parse_cidr(subnet) {
        Ok(parts) => parts,
        Err(e) => {
            return Err(e);
        },
    };
    if prefix > 30 {
        let digits = decimal(prefix as u64);
        return Err(
            network_error(
                "subnet /".to_owned().concat(digits.as_str()).concat(
                    " is too small for /30 allocations",
                ),
            ),
        );
    }
    let max: u32 = max_blocks(prefix);
    match check_subnet(state, subnet) {
        Ok(()) => {},
        Err(e) => {
            return Err(e);
        },
    }
    let ghost before = stored_holders(*old(state));
    let ghost taken = |i: u32| before.contains_key(i);
    let mut i: u32 = 0;
    while i < max
        invariant
            i <= max,
            before == stored_holders(*state),
            *state == *old(state),
            taken == (|i: u32| before.contains_key(i)),
            forall|j: u32| j < i ==> #[trigger] taken(j),
        ensures
            i <= max,
            i < max ==> !taken(i),
            forall|j: u32| j < i ==> #[trigger] taken(j),
        decreases max - i,
    {
        if !is_held(state, i) {
            break;
        }
        assert(taken(i));
        i = i + 1;
    }
    let ghost stored = table(*old(state));
    proof {
        assert(taken =~= (|j: u32| holds(stored, j)));
    }
    if i >= max {
        let digits = decimal(max as u64);
        return Err(
            network_error(
                "no free /30 blocks in ".to_owned().concat(subnet).concat(" (all ").concat(
                    digits.as_str(),
                ).concat(" blocks allocated)"),
            ),
        );
    }
    proof {
        lemma_subnet_fits(base.bits as nat, prefix as nat);
        lemma_pow2_unfold((32 - prefix) as nat);
        lemma_pow2_unfold((31 - prefix) as nat);
    }
    let allocation = block_ips(base, i);
    hold(state, subnet, i, vm_name);
    proof {
        let n = pow2((30 - prefix) as nat);
        assert(is_lowest(taken, n, i));
        let other = lowest(taken, n);
        law_lowest_free_is_unique(taken, n, i as nat, other as nat);
        assert(table(*state)->0 =~= with_holder(stored, subnet@, i, vm_name@));
    }
    Ok(allocation)
}

/// Whether an address is among the reserved ones.
pub open spec fn is_reserved(reserved: Seq<Ipv4Addr>, bits: nat) -> bool {
    exists|k: int| 0 <= k < reserved.len() && (#[trigger] reserved[k]).bits == bits
}

fn reserved_contains(reserved: &[Ipv4Addr], bits: u32) -> (r: bool)
    ensures
        r == is_reserved(reserved@, bits as nat),
{
    let mut k: usize = 0;
    while k < reserved.len()
        invariant
            k <= reserved.len(),
            forall|j: int| 0 <= j < k ==> (#[trigger] reserved@[j]).bits != bits,
        decreases reserved.len() - k,
    {
        if reserved[k].bits == bits {
            return true;
        }
        k = k + 1;
    }
    false
}

/// Gives the lowest free address of `subnet` that is not reserved to a machine.
///
/// `state` is what is stored: `None` when nothing is.
pub fn allocate_single(
    state: &mut Option<IpAllocations>,
    subnet: &str,
    vm_name: &str,
    host_ip: &str,
    netmask: &str,
    reserved: &[Ipv4Addr],
) -> (r: Result<IpAllocation, Error>)
    requires
        subnet_of(subnet@) matches Ok((base, prefix)) ==> prefix > 0,
    ensures
        r is Err ==> *final(state) == *old(state),
        match subnet_of(subnet@) {
            Err(e) => outcome(r) == Err::<IpAllocation, ErrorView>(e),
            Ok((base, prefix)) => {
                let max = pow2((32 - prefix) as nat);
                let taken = |i: u32|
                    stored_holders(*old(state)).contains_key(i) || is_reserved(
                        reserved@,
                        base + i as nat,
                    );
                if stored_subnet(*old(state), subnet@) != subnet@ {
                    outcome(r) == Err::<IpAllocation, ErrorView>(mismatch(*old(state), subnet@))
                } else if all_taken(taken, max) {
                    outcome(r) == Err::<IpAllocation, ErrorView>(
                        ErrorView::Network(
                            "no free addresses in "@ + subnet@ + " (all "@ + dec(max)
                                + " candidates allocated or reserved)"@,
                        ),
                    )
                } else {
                    &&& r matches Ok(a)
                    &&& lowest_free(taken, max, a.block_index as nat)
                    &&& a.host_ip@ == host_ip@
                    &&& a.guest_ip@ == dotted(base + a.block_index as nat)
                    &&& a.netmask@ == netmask@
                    &&& took(*old(state), *final(state), subnet@, a.block_index, vm_name@)
                }
            },
        },
{
    let (base, prefix) = match parse_cidr(subnet) {
        Ok(parts) => parts,
        Err(e) => {
            return Err(e);
        },
    };
    let max: u64 = power_of_two(32 - prefix);
    proof {
        lemma_subnet_fits(base.bits as nat, prefix as nat);
        lemma_pow2_unfold(32);
        lemma_pow2_adds((32 - prefix) as nat, prefix as nat);
        vstd::arithmetic::power2::lemma2_to64();
        lemma_pow2_unfold(prefix as nat);
        lemma_pow2_pos((prefix - 1) as nat);
        let n = pow2(prefix as nat);
        assert(max < 0x1_0000_0000) by (nonlinear_arith)
            requires
                max * n == 0x1_0000_0000,
                n >= 2,
        ;
    }
    match check_subnet(state, subnet) {
        Ok(()) => {},
        Err(e) => {
            return Err(e);
        },
    }
    let ghost before = stored_holders(*old(state));
    let ghost taken = |i: u32|
        before.contains_key(i) || is_reserved(reserved@, base.bits as nat + i as nat);
    let mut i: u32 = 0;
    while (i as u64) < max
        invariant
            i <= max < 0x1_0000_0000,
            base.bits + max <= 0x1_0000_0000,
            before == stored_holders(*state),
            *state == *old(state),
            taken == (|i: u32|
                before.contains_key(i) || is_reserved(reserved@, base.bits as nat + i as nat)),
            forall|j: u32| j < i ==> #[trigger] taken(j),
        ensures
            i <= max,
            i < max ==> !taken(i),
            forall|j: u32| j < i ==> #[trigger] taken(j),
        decreases max - i,
    {
        if !is_held(state, i) && !reserved_contains(reserved, base.bits + i) {
            break;
        }
        assert(taken(i));
        i = i + 1;
    }
    if i as u64 >= max {
        let digits = decimal(max);
        return Err(
            network_error(
                "no free addresses in ".to_owned().concat(subnet).concat(" (all ").concat(
                    digits.as_str(),
                ).concat(" candidates allocated or reserved)"),
            ),
        );
    }
    let guest = Ipv4Addr { bits: base.bits + i };
    hold(state, subnet, i, vm_name);
    Ok(
        IpAllocation {
            block_index: i,
            host_ip: host_ip.to_owned(),
            guest_ip: guest.to_string(),
            netmask: netmask.to_owned(),
        },
    )
}

/// The holders without those of the given name.
pub open spec fn released(m: Map<u32, Seq<char>>, vm_name: Seq<char>) -> Map<u32, Seq<char>> {
    Map::new(|k: u32| m.contains_key(k) && m[k] != vm_name, |k: u32| m[k])
}

/// Takes back all that a machine holds. Says whether it held anything.
pub fn release(state: &mut Option<IpAllocations>, vm_name: &str) -> (r: bool)
    ensures
        stored_holders(*final(state)) == released(stored_holders(*old(state)), vm_name@),
        *old(state) is None <==> *final(state) is None,
        *old(state) is Some ==> (*final(state))->0.base_subnet@ == (*old(state))->0.base_subnet@,
        r <==> exists|k: u32|
            stored_holders(*old(state)).contains_key(k) && stored_holders(*old(state))[k]
                == vm_name@,
{
    match state.take() {
        None => {
            assert(released(Map::empty(), vm_name@) =~= Map::empty());
            false
        },
        Some(a) => {
            let ghost m = a.allocations@;
            let mut kept: HashMap<u32, String> = HashMap::new();
            let mut found = false;
            let ghost mut seen: Set<u32> = Set::empty();
            let ghost mut hit: u32 = 0;
            assert(holders(kept@) =~= Map::empty());
            for k in it: a.allocations.keys()
                invariant
                    m == a.allocations@,
                    it.seq().unref().to_set() == m.dom(),
                    forall|j: int|
                        0 <= j < it.index() ==> seen.contains(#[trigger] it.seq().unref()[j]),
                    seen.subset_of(m.dom()),
                    holders(kept@) == released(holders(m).restrict(seen), vm_name@),
                    found <==> exists|x: u32| seen.contains(x) && holders(m)[x] == vm_name@,
            {
                let ghost old_kept = kept@;
                let ghost old_seen = seen;
                assert(it.seq().unref()[it.index() as int] == *k);
                assert(it.seq().unref().to_set().contains(*k));
                match a.allocations.get(k) {
                    Some(name) => {
                        if same(name.as_str(), vm_name) {
                            found = true;
                        } else {
                            kept.insert(*k, name.clone());
                            assert(holders(kept@) =~= holders(old_kept).insert(*k, name@));
                        }
                    },
                    None => {
                        assert(false);
                    },
                }
                proof {
                    seen = seen.insert(*k);
                    assert(holders(m)[*k] == m[*k]@);
                    if found {
                        if exists|x: u32| old_seen.contains(x) && holders(m)[x] == vm_name@ {
                            let x = choose|x: u32|
                                old_seen.contains(x) && holders(m)[x] == vm_name@;
                            assert(seen.contains(x));
                        } else {
                            assert(seen.contains(*k));
                        }
                    }
                    assert(holders(kept@) =~= released(holders(m).restrict(seen), vm_name@));
                }
            }
            proof {
                assert forall|x: u32| m.dom().contains(x) implies seen.contains(x) by {
                    assert(m.contains_key(x));
                }
                assert(holders(m).restrict(seen) =~= holders(m));
                if found {
                    let x = choose|x: u32| seen.contains(x) && holders(m)[x] == vm_name@;
                    assert(holders(m).contains_key(x));
                }
            }
            *state = Some(IpAllocations { base_subnet: a.base_subnet, allocations: kept });
            found
        },
    }
}

/// Releasing a machine a second time changes nothing.
pub proof fn law_release_idempotent(m: Map<u32, Seq<char>>, vm_name: Seq<char>)
    ensures
        released(released(m, vm_name), vm_name) == released(m, vm_name),
{
    assert(released(released(m, vm_name), vm_name) =~= released(m, vm_name));
}

/// Releasing one machine takes nothing from another.
pub proof fn law_release_spares_others(m: Map<u32, Seq<char>>, vm_name: Seq<char>, k: u32)
    requires
        m.contains_key(k),
        m[k] != vm_name,
    ensures
        released(m, vm_name).contains_key(k),
        released(m, vm_name)[k] == m[k],
{
}

/// A number that a machine gives back is free, and is the next to be taken
/// when all lower ones are held by others.
pub proof fn law_released_number_is_reused(m: Map<u32, Seq<char>>, vm_name: Seq<char>, i: u32, max: nat)
    requires
        i < max,
        m.contains_key(i),
        m[i] == vm_name,
        forall|j: u32| j < i ==> #[trigger] m.contains_key(j) && m[j] != vm_name,
    ensures
        lowest_free(|k: u32| released(m, vm_name).contains_key(k), max, i as nat),
{
    let taken = |k: u32| released(m, vm_name).contains_key(k);
    assert forall|j: u32| j < i implies #[trigger] taken(j) by {
        assert(m.contains_key(j));
    }
}

/// Two blocks of a subnet share no address.
pub proof fn law_blocks_are_disjoint(base: nat, i: nat, j: nat, x: nat)
    requires
        i != j,
        base + i * 4 <= x < base + i * 4 + 4,
    ensures
        !(base + j * 4 <= x < base + j * 4 + 4),
{
}

/// What is newly taken was held by nobody before.
pub proof fn law_lowest_free_is_unique(taken: spec_fn(u32) -> bool, max: nat, i: nat, j: nat)
    requires
        lowest_free(taken, max, i),
        lowest_free(taken, max, j),
    ensures
        i == j,
{
    if i < j {
        assert(taken(i as u32));
    }
    if j < i {
        assert(taken(j as u32));
    }
}

/// How the file of who holds what is changed, by [`allocate`] and the like: what
/// is read and what is written belong to one change, so that nobody else comes
/// between them.
pub fn changing_allocations(store: &StateStore, pid: u32) -> (r: Vec<Step<StoreAction>>)
    ensures
        ({
            let path = joined(joined(store.root@, "network"@), "allocations.json"@);
            plan(r@) == changing(Purpose::UpdateWith, path, tmp_of(path, pid as nat))
        }),
{
    let path = store.network_allocations_path();
    store.update_with(path.as_str(), pid)
}

/// How tables are written to a file and read from it.
pub struct Format {
    pub write: spec_fn(Table) -> Seq<char>,
    /// `None` where a text is not that of a table.
    pub read: spec_fn(Seq<char>) -> Option<Table>,
}

impl Format {
    /// Whether what is written is what is read.
    pub open spec fn is_faithful(self) -> bool {
        forall|t: Table| (self.read)(#[trigger] (self.write)(t)) == Some(t)
    }

    /// What is stored in a file; `None` where the file cannot be read.
    pub open spec fn stored(self, content: Option<Seq<char>>) -> Option<Option<Table>> {
        match content {
            None => Some(None),
            Some(text) => match (self.read)(text) {
                Some(t) => Some(Some(t)),
                None => None,
            },
        }
    }

    /// What [`allocate`] makes of a file; `None` where it fails.
    pub open spec fn allocating(
        self,
        content: Option<Seq<char>>,
        subnet: Seq<char>,
        vm_name: Seq<char>,
    ) -> Option<Seq<char>> {
        match self.stored(content) {
            None => None,
            Some(t) => match next_block(t, subnet) {
                None => None,
                Some(i) => Some((self.write)(with_holder(t, subnet, i, vm_name))),
            },
        }
    }
}

/// Whether each of these jobs is to get a block of `subnet` for the machine whose
/// name has the same number.
pub open spec fn all_allocate(
    jobs: Seq<Job>,
    format: Format,
    subnet: Seq<char>,
    names: Seq<Seq<char>>,
) -> bool {
    &&& jobs.len() == names.len()
    &&& forall|i: int|
        0 <= i < jobs.len() ==> (#[trigger] jobs[i]).purpose == Purpose::UpdateWith
            && jobs[i].change == (|old: Option<Seq<char>>|
            format.allocating(old, subnet, names[i]))
}

/// The block that the job gets that is done at the place `x`.
pub open spec fn block_at(
    first: Option<Seq<char>>,
    jobs: Seq<Job>,
    done: Seq<int>,
    format: Format,
    subnet: Seq<char>,
    x: int,
) -> Option<u32> {
    match format.stored(replay(first, jobs, done.take(x))) {
        None => None,
        Some(t) => next_block(t, subnet),
    }
}

proof fn lemma_next_block_is_free(stored: Option<Table>, subnet: Seq<char>)
    ensures
        next_block(stored, subnet) matches Some(i) ==> !holds(stored, i),
{
    match subnet_of(subnet) {
        Err(_) => {},
        Ok((_, prefix)) => {
            let taken = |i: u32| holds(stored, i);
            let max = pow2((30 - prefix) as nat);
            if next_block(stored, subnet) is Some {
                let j = choose|j: u32| j < max && !#[trigger] taken(j);
                lemma_lowest(taken, max, j);
            }
        },
    }
}

/// Where a number is free there is a lowest one that is.
proof fn lemma_lowest(taken: spec_fn(u32) -> bool, max: nat, j: u32)
    requires
        j < max,
        !taken(j),
    ensures
        exists|i: u32| is_lowest(taken, max, i),
    decreases j,
{
    if forall|k: u32| k < j ==> #[trigger] taken(k) {
        assert(is_lowest(taken, max, j));
    } else {
        let k = choose|k: u32| k < j && !#[trigger] taken(k);
        lemma_lowest(taken, max, k);
    }
}

/// What is stored once the first `d` jobs that are done are done.
proof fn lemma_allocated(
    trace: Seq<World>,
    k: int,
    format: Format,
    subnet: Seq<char>,
    names: Seq<Seq<char>>,
    d: int,
)
    requires
        course(trace),
        0 <= k < trace.len(),
        format.is_faithful(),
        all_allocate(trace[0].jobs, format, subnet, names),
        0 <= d <= trace[k].done.len(),
    ensures
        ({
            let first = trace[0].content();
            let jobs = trace[0].jobs;
            let done = trace[k].done;
            let now = format.stored(replay(first, jobs, done.take(d)));
            forall|x: int|
                0 <= x < d ==> {
                    let b = #[trigger] block_at(first, jobs, done, format, subnet, x);
                    &&& b is Some
                    &&& now is Some
                    &&& holds(now->0, b->0)
                    &&& now->0->0.holders[b->0] == names[done[x]]
                }
        }),
    decreases d,
{
    let first = trace[0].content();
    let jobs = trace[0].jobs;
    let done = trace[k].done;
    if d > 0 {
        lemma_allocated(trace, k, format, subnet, names, d - 1);
        law_the_done_were_accepted(trace, k, d - 1);
        law_only_jobs_are_done(trace, k, d - 1);
        let j = done[d - 1];
        let before = replay(first, jobs, done.take(d - 1));
        assert(done.take(d).drop_last() =~= done.take(d - 1));
        assert(jobs[j].accepts(before));
        let t = format.stored(before)->0;
        let b = next_block(t, subnet)->0;
        lemma_next_block_is_free(t, subnet);
        let after = with_holder(t, subnet, b, names[j]);
        assert(replay(first, jobs, done.take(d)) == Some((format.write)(after)));
        assert((format.read)((format.write)(after)) == Some(after));
    }
}

/// Processes that allocate at the same time get different blocks, and every block
/// that one of them got is stored with the name of its machine: at every moment,
/// for all that have come to their end.
pub proof fn law_no_block_is_handed_out_twice(
    trace: Seq<World>,
    k: int,
    format: Format,
    subnet: Seq<char>,
    names: Seq<Seq<char>>,
    x: int,
    y: int,
)
    requires
        course(trace),
        0 <= k < trace.len(),
        format.is_faithful(),
        all_allocate(trace[0].jobs, format, subnet, names),
        0 <= x < y < trace[k].done.len(),
    ensures
        ({
            let done = trace[k].done;
            let a = block_at(trace[0].content(), trace[0].jobs, done, format, subnet, x);
            let b = block_at(trace[0].content(), trace[0].jobs, done, format, subnet, y);
            let now = format.stored(trace[k].content());
            &&& a is Some && b is Some
            &&& a != b
            &&& now is Some && now->0 is Some
            &&& now->0->0.holders.contains_pair(a->0, names[done[x]])
            &&& now->0->0.holders.contains_pair(b->0, names[done[y]])
        }),
{
    let first = trace[0].content();
    let jobs = trace[0].jobs;
    let done = trace[k].done;
    lemma_allocated(trace, k, format, subnet, names, y);
    lemma_allocated(trace, k, format, subnet, names, done.len() as int);
    law_no_update_is_lost(trace, k);
    assert(done.take(done.len() as int) =~= done);
    let t = format.stored(replay(first, jobs, done.take(y)));
    let a = block_at(first, jobs, done, format, subnet, x);
    let b = block_at(first, jobs, done, format, subnet, y);
    assert(holds(t->0, a->0));
    lemma_next_block_is_free(t->0, subnet);
}

} // verus!
