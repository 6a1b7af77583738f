//! Per-client rate limiting and the IPv4 access list.
//!
//! [`RateLimiter`] remembers when each of up to [`RATE_TABLE_SIZE`] clients was
//! last accepted and turns away those that come back too soon. [`Acl`] lists the
//! address blocks that are served. Sources without an IPv4 address pass both.

use crate::text;
use vstd::arithmetic::power2::pow2;
use vstd::prelude::*;
use vstd::slice::slice_subrange;

verus! {

/// Number of clients that the rate limiter tracks.
pub const RATE_TABLE_SIZE: usize = 32;

/// Time that must pass between two accepted requests of one client.
pub const MIN_POLL_INTERVAL_US: i64 = 2_000_000;

/// Number of address blocks that an access list holds.
pub const ACL_MAX_ENTRIES: usize = 8;

/// A client and the time of its last accepted request.
#[derive(Clone, Copy)]
pub struct ClientRecord {
    /// IPv4 source address.
    pub addr: u32,
    /// Monotonic microseconds of the last accepted request.
    pub last_us: i64,
}

/// A fixed table of clients and the times of their last accepted requests.
///
/// No address occurs twice. When the table is full, the client that has waited
/// longest makes room for a new one.
pub struct RateLimiter {
    table: [Option<ClientRecord>; RATE_TABLE_SIZE],
}

/// Whether slot `i` holds the record of `addr`.
pub open spec fn holds(table: Seq<Option<ClientRecord>>, i: int, addr: u32) -> bool {
    0 <= i < table.len() && (table[i] matches Some(r) && r.addr == addr)
}

/// Whether some slot holds the record of `addr`.
pub open spec fn tracked_addr(table: Seq<Option<ClientRecord>>, addr: u32) -> bool {
    exists|i: int| holds(table, i, addr)
}

/// The slot that a new client gets: the first free one, and in a full table the
/// first of those whose last accepted request lies furthest back.
pub open spec fn is_vacancy(table: Seq<Option<ClientRecord>>, s: int) -> bool {
    &&& 0 <= s < table.len()
    &&& if table[s] is None {
        forall|j: int| 0 <= j < s ==> (#[trigger] table[j]) is Some
    } else {
        &&& forall|j: int| 0 <= j < table.len() ==> (#[trigger] table[j]) is Some
        &&& forall|j: int|
            0 <= j < table.len() ==> table[s]->0.last_us <= (#[trigger] table[j])->0.last_us
        &&& forall|j: int|
            0 <= j < s ==> table[s]->0.last_us < (#[trigger] table[j])->0.last_us
    }
}

/// Whether a request from `addr` at `now_us` comes late enough to be served: the
/// client is not in the table, or was last accepted at least the minimum interval
/// before.
pub open spec fn is_due(table: Seq<Option<ClientRecord>>, addr: u32, now_us: i64) -> bool {
    forall|i: int| #[trigger]
        holds(table, i, addr) ==> now_us - table[i]->0.last_us >= MIN_POLL_INTERVAL_US
}

/// What a request from `addr` at `now_us` does to the table, and whether it is
/// served.
///
/// A client in the table is served if its last accepted request lies at least
/// the minimum interval back, and its time is renewed only then. A client that is
/// not in the table is served and entered.
pub open spec fn rate_step(
    before: Seq<Option<ClientRecord>>,
    addr: u32,
    now_us: i64,
    served: bool,
    after: Seq<Option<ClientRecord>>,
) -> bool {
    let record = Some(ClientRecord { addr, last_us: now_us });
    &&& forall|i: int| #[trigger]
        holds(before, i, addr) ==> {
            let due = now_us - before[i]->0.last_us >= MIN_POLL_INTERVAL_US;
            &&& served == due
            &&& after == if due {
                before.update(i, record)
            } else {
                before
            }
        }
    &&& !tracked_addr(before, addr) ==> served && exists|s: int| #[trigger]
        is_vacancy(before, s) && after == before.update(s, record)
}

impl View for RateLimiter {
    type V = Seq<Option<ClientRecord>>;

    closed spec fn view(&self) -> Seq<Option<ClientRecord>> {
        self.table@
    }
}

impl RateLimiter {
    /// The table has its fixed size and no address occurs twice.
    pub open spec fn wf(&self) -> bool {
        &&& self@.len() == RATE_TABLE_SIZE
        &&& forall|i: int, j: int, addr: u32|
            #![trigger holds(self@, i, addr), holds(self@, j, addr)]
            holds(self@, i, addr) && holds(self@, j, addr) ==> i == j
    }

    /// An empty table.
    pub fn new() -> (r: Self)
        ensures
            r.wf(),
            r@ == Seq::new(RATE_TABLE_SIZE as nat, |i: int| None::<ClientRecord>),
    {
        let r = RateLimiter { table: [None; RATE_TABLE_SIZE] };
        assert(r.table@ == Seq::new(RATE_TABLE_SIZE as nat, |i: int| None::<ClientRecord>));
        r
    }

    /// Decide on a request from `addr` at `now_us` and remember it if accepted.
    ///
    /// A client that is in the table and was accepted less than
    /// [`MIN_POLL_INTERVAL_US`] ago is turned away, and the table stays as it is.
    /// Every other client is accepted and its time recorded.
    pub fn check(&mut self, addr: u32, now_us: i64) -> (served: bool)
        requires
            old(self).wf(),
        ensures
            final(self).wf(),
            rate_step(old(self)@, addr, now_us, served, final(self)@),
            served == is_due(old(self)@, addr, now_us),
    {
        let mut i: usize = 0;
        while i < RATE_TABLE_SIZE
            invariant
                i <= RATE_TABLE_SIZE,
                self@ == old(self)@,
                self.wf(),
                forall|j: int| 0 <= j < i ==> !holds(self@, j, addr),
            decreases RATE_TABLE_SIZE - i,
        {
            if let Some(record) = self.table[i] {
                if record.addr == addr {
                    assert(holds(self@, i as int, addr));
                    if (now_us as i128) - (record.last_us as i128) < MIN_POLL_INTERVAL_US as i128 {
                        return false;
                    }
                    self.table[i] = Some(ClientRecord { addr, last_us: now_us });
                    proof {
                        lemma_update_keeps_addr(old(self)@, i as int, addr, now_us);
                    }
                    return true;
                }
            }
            i = i + 1;
        }
        assert(!tracked_addr(self@, addr));
        let slot: usize = self.vacancy();
        self.table[slot] = Some(ClientRecord { addr, last_us: now_us });
        proof {
            lemma_insert_new_addr(old(self)@, slot as int, addr, now_us);
        }
        true
    }

    /// Tell whether a request from `addr` at `now_us` would be accepted.
    pub fn due(&self, addr: u32, now_us: i64) -> (r: bool)
        requires
            self.wf(),
        ensures
            r == is_due(self@, addr, now_us),
    {
        let mut i: usize = 0;
        while i < RATE_TABLE_SIZE
            invariant
                i <= RATE_TABLE_SIZE,
                self.wf(),
                forall|j: int|
                    0 <= j < i && #[trigger] holds(self@, j, addr) ==> now_us - self@[j]->0.last_us
                        >= MIN_POLL_INTERVAL_US,
            decreases RATE_TABLE_SIZE - i,
        {
            if let Some(record) = self.table[i] {
                if record.addr == addr && (now_us as i128) - (record.last_us as i128)
                    < MIN_POLL_INTERVAL_US as i128 {
                    assert(holds(self@, i as int, addr));
                    return false;
                }
            }
            i = i + 1;
        }
        true
    }

    /// Find the slot for a new client.
    fn vacancy(&self) -> (slot: usize)
        requires
            self.wf(),
        ensures
            is_vacancy(self@, slot as int),
    {
        let mut best: usize = 0;
        let mut i: usize = 0;
        while i < RATE_TABLE_SIZE
            invariant
                i <= RATE_TABLE_SIZE,
                self.wf(),
                best < RATE_TABLE_SIZE,
                i > 0 ==> best < i,
                forall|j: int| 0 <= j < i ==> (#[trigger] self@[j]) is Some,
                forall|j: int|
                    0 <= j < i ==> self@[best as int]->0.last_us <= (
                    #[trigger] self@[j])->0.last_us,
                forall|j: int|
                    0 <= j < best && i > 0 ==> self@[best as int]->0.last_us < (
                    #[trigger] self@[j])->0.last_us,
                i == 0 ==> best == 0,
            decreases RATE_TABLE_SIZE - i,
        {
            match (self.table[i], self.table[best]) {
                (None, _) => {
                    return i;
                },
                (Some(record), Some(oldest)) => {
                    if record.last_us < oldest.last_us {
                        best = i;
                    }
                },
                (Some(_), None) => {},
            }
            i = i + 1;
        }
        best
    }

    /// Move every recorded time back by `by_us`.
    pub fn subtract_time(&mut self, by_us: i64)
        requires
            old(self).wf(),
            forall|i: int|
                0 <= i < RATE_TABLE_SIZE && (#[trigger] old(self)@[i]) is Some ==> i64::MIN
                    <= old(self)@[i]->0.last_us - by_us <= i64::MAX,
        ensures
            final(self).wf(),
            final(self)@ == old(self)@.map_values(
                |slot: Option<ClientRecord>| match slot {
                    Some(r) => Some(
                        ClientRecord { addr: r.addr, last_us: (r.last_us - by_us) as i64 },
                    ),
                    None => None,
                },
            ),
    {
        let mut i: usize = 0;
        while i < RATE_TABLE_SIZE
            invariant
                i <= RATE_TABLE_SIZE,
                self@.len() == RATE_TABLE_SIZE,
                old(self).wf(),
                forall|j: int| i <= j < RATE_TABLE_SIZE ==> self@[j] == old(self)@[j],
                forall|j: int|
                    0 <= j < i ==> (#[trigger] self@[j]) == match old(self)@[j] {
                        Some(r) => Some(
                            ClientRecord { addr: r.addr, last_us: (r.last_us - by_us) as i64 },
                        ),
                        None => None,
                    },
                forall|j: int|
                    0 <= j < RATE_TABLE_SIZE && (#[trigger] old(self)@[j]) is Some ==> i64::MIN
                        <= old(self)@[j]->0.last_us - by_us <= i64::MAX,
            decreases RATE_TABLE_SIZE - i,
        {
            if let Some(record) = self.table[i] {
                assert(old(self)@[i as int] is Some);
                self.table[i] = Some(
                    ClientRecord { addr: record.addr, last_us: record.last_us - by_us },
                );
            }
            i = i + 1;
        }
        assert forall|a: int, b: int, addr: u32|
            #![trigger holds(self@, a, addr), holds(self@, b, addr)]
            holds(self@, a, addr) && holds(self@, b, addr) implies a == b by {
            assert(holds(old(self)@, a, addr) && holds(old(self)@, b, addr));
        }
    }
}

/// Renewing a client's time leaves every slot with the address it had.
proof fn lemma_update_keeps_addr(table: Seq<Option<ClientRecord>>, i: int, addr: u32, now_us: i64)
    requires
        holds(table, i, addr),
    ensures
        forall|j: int, a: u32| #[trigger]
            holds(
                table.update(i, Some(ClientRecord { addr, last_us: now_us })),
                j,
                a,
            ) ==> holds(table, j, a),
{
}

/// Entering a client that is not in the table makes no address occur twice.
proof fn lemma_insert_new_addr(table: Seq<Option<ClientRecord>>, s: int, addr: u32, now_us: i64)
    requires
        0 <= s < table.len(),
        !tracked_addr(table, addr),
    ensures
        forall|j: int, a: u32| #[trigger]
            holds(table.update(s, Some(ClientRecord { addr, last_us: now_us })), j, a) ==> {
                ||| j == s && a == addr
                ||| j != s && a != addr && holds(table, j, a)
            },
{
    assert forall|j: int, a: u32| #[trigger]
        holds(table.update(s, Some(ClientRecord { addr, last_us: now_us })), j, a) implies {
        ||| j == s && a == addr
        ||| j != s && a != addr && holds(table, j, a)
    } by {
        if j != s {
            assert(holds(table, j, a));
        }
    }
}

/// After a client is served, it is in the table with the time of that request.
pub proof fn law_served_is_recorded(
    before: Seq<Option<ClientRecord>>,
    addr: u32,
    now_us: i64,
    after: Seq<Option<ClientRecord>>,
)
    requires
        rate_step(before, addr, now_us, true, after),
    ensures
        exists|i: int| #[trigger] holds(after, i, addr) && after[i]->0.last_us == now_us,
{
    if tracked_addr(before, addr) {
        let i = choose|i: int| holds(before, i, addr);
        assert(holds(after, i, addr));
    } else {
        let s = choose|s: int| #[trigger]
            is_vacancy(before, s) && after == before.update(
                s,
                Some(ClientRecord { addr, last_us: now_us }),
            );
        assert(holds(after, s, addr));
    }
}

/// A client that comes back too soon is turned away, however often, and is
/// served again as soon as the minimum interval since its last accepted request
/// has passed: being turned away does not put it off any further.
pub proof fn law_served_again_after_interval(
    start: Seq<Option<ClientRecord>>,
    addr: u32,
    first_us: i64,
    accepted: Seq<Option<ClientRecord>>,
    early_us: i64,
    early_served: bool,
    between: Seq<Option<ClientRecord>>,
    late_us: i64,
    late_served: bool,
    end: Seq<Option<ClientRecord>>,
)
    requires
        rate_step(start, addr, first_us, true, accepted),
        rate_step(accepted, addr, early_us, early_served, between),
        rate_step(between, addr, late_us, late_served, end),
        early_us - first_us < MIN_POLL_INTERVAL_US,
    ensures
        !early_served,
        between == accepted,
        late_served == (late_us - first_us >= MIN_POLL_INTERVAL_US),
{
    law_served_is_recorded(start, addr, first_us, accepted);
    let i = choose|i: int| #[trigger]
        holds(accepted, i, addr) && accepted[i]->0.last_us == first_us;
    assert(holds(between, i, addr));
}

/// While the table has room, a request leaves the records of all other clients
/// as they are.
pub proof fn law_other_clients_unaffected(
    before: Seq<Option<ClientRecord>>,
    addr: u32,
    now_us: i64,
    served: bool,
    after: Seq<Option<ClientRecord>>,
    i: int,
    other: u32,
)
    requires
        rate_step(before, addr, now_us, served, after),
        holds(before, i, other),
        other != addr,
        tracked_addr(before, addr) || exists|j: int|
            0 <= j < before.len() && (#[trigger] before[j]) is None,
    ensures
        holds(after, i, other),
        after[i] == before[i],
{
    if tracked_addr(before, addr) {
        let k = choose|k: int| holds(before, k, addr);
        assert(holds(before, k, addr));
    } else {
        let s = choose|s: int| #[trigger]
            is_vacancy(before, s) && after == before.update(
                s,
                Some(ClientRecord { addr, last_us: now_us }),
            );
        let j = choose|j: int| 0 <= j < before.len() && (#[trigger] before[j]) is None;
        assert(before[s] is None);
    }
}

/// In a full table a new client takes the place of one whose last accepted
/// request lies at least as far back as every other.
pub proof fn law_eviction_takes_the_oldest(
    before: Seq<Option<ClientRecord>>,
    addr: u32,
    now_us: i64,
    served: bool,
    after: Seq<Option<ClientRecord>>,
    i: int,
)
    requires
        rate_step(before, addr, now_us, served, after),
        !tracked_addr(before, addr),
        forall|j: int| 0 <= j < before.len() ==> (#[trigger] before[j]) is Some,
        0 <= i < before.len(),
        after[i] != before[i],
    ensures
        served,
        forall|j: int|
            0 <= j < before.len() ==> before[i]->0.last_us <= (#[trigger] before[j])->0.last_us,
{
}

/// The address `a.b.c.d` as a number.
pub open spec fn ipv4(a: u8, b: u8, c: u8, d: u8) -> u32 {
    (a * 0x1000000 + b * 0x10000 + c * 0x100 + d) as u32
}

/// The addresses that agree with `network` in their first `prefix` bits.
pub open spec fn cidr_block(network: u32, prefix: int) -> Set<u32> {
    Set::new(
        |addr: u32|
            addr as int / pow2((32 - prefix) as nat) as int == network as int / pow2(
                (32 - prefix) as nat,
            ) as int,
    )
}

/// An address block as a network and a mask.
#[derive(Clone, Copy)]
pub struct AclEntry {
    /// Network address.
    pub network: u32,
    /// Mask of the bits that must agree with the network address.
    pub mask: u32,
}

impl AclEntry {
    /// The addresses that agree with the network under the mask.
    pub open spec fn addresses(self) -> Set<u32> {
        Set::new(|addr: u32| addr & self.mask == self.network & self.mask)
    }

    /// Tell whether an address lies in this block.
    pub fn contains(self, addr: u32) -> (r: bool)
        ensures
            r == self.addresses().contains(addr),
    {
        (addr & self.mask) == (self.network & self.mask)
    }
}

/// A list of the address blocks that are served.
///
/// The addresses of the listed blocks are served. The default decides on all others.
#[derive(Clone, Copy)]
pub struct Acl {
    entries: [Option<AclEntry>; ACL_MAX_ENTRIES],
    len: usize,
    default_allow: bool,
}

/// The blocks for a configured text: the block that it names, or the private networks
/// when it names none.
pub open spec fn configured_blocks(cidr: Seq<char>) -> Seq<Set<u32>> {
    match ipv4_cidr(cidr) {
        Some((a, b, c, d, prefix)) => seq![cidr_block(ipv4(a, b, c, d), prefix as int)],
        None => private_blocks(),
    }
}

impl Acl {
    /// The entries stand at the front of the table.
    pub closed spec fn wf(&self) -> bool {
        &&& self.len <= ACL_MAX_ENTRIES
        &&& forall|i: int|
            0 <= i < ACL_MAX_ENTRIES ==> ((#[trigger] self.entries@[i]) is Some <==> i < self.len)
    }

    /// The listed address blocks, in the order in which they were added.
    pub closed spec fn blocks(&self) -> Seq<Set<u32>> {
        Seq::new(self.len as nat, |i: int| self.entries@[i]->0.addresses())
    }

    /// Whether an address is served that lies in no listed block.
    pub closed spec fn allows_by_default(&self) -> bool {
        self.default_allow
    }

    /// Whether the list serves `addr`.
    pub open spec fn permits(&self, addr: u32) -> bool {
        self.lists(addr) || self.allows_by_default()
    }

    /// Whether `addr` lies in a listed block.
    pub open spec fn lists(&self, addr: u32) -> bool {
        exists|i: int| 0 <= i < self.blocks().len() && #[trigger] self.blocks()[i].contains(addr)
    }

    /// An empty list that serves everybody.
    pub fn allow_all() -> (r: Self)
        ensures
            r.wf(),
            r.blocks() == Seq::<Set<u32>>::empty(),
            r.allows_by_default(),
    {
        Acl { entries: [None; ACL_MAX_ENTRIES], len: 0, default_allow: true }
    }

    /// An empty list that serves nobody.
    pub fn deny_all() -> (r: Self)
        ensures
            r.wf(),
            r.blocks() == Seq::<Set<u32>>::empty(),
            !r.allows_by_default(),
    {
        Acl { entries: [None; ACL_MAX_ENTRIES], len: 0, default_allow: false }
    }

    /// The list for a configured block: that block alone, or the private
    /// networks when the text is no block.
    pub fn from_config(cidr: &str) -> (r: Self)
        ensures
            r.wf(),
            !r.allows_by_default(),
            r.blocks() == configured_blocks(cidr@),
    {
        match parse_ipv4_cidr(cidr) {
            Some((a, b, c, d, prefix)) => {
                let mut acl = Self::deny_all();
                acl.add_ipv4_cidr(a, b, c, d, prefix);
                acl
            },
            None => Self::private_lan(),
        }
    }

    /// The list of the loopback and private networks.
    pub fn private_lan() -> (r: Self)
        ensures
            r.wf(),
            !r.allows_by_default(),
            r.blocks() == private_blocks(),
    {
        let mut acl = Self::deny_all();
        acl.add_ipv4_cidr(127, 0, 0, 0, 8);
        acl.add_ipv4_cidr(10, 0, 0, 0, 8);
        acl.add_ipv4_cidr(172, 16, 0, 0, 12);
        acl.add_ipv4_cidr(192, 168, 0, 0, 16);
        acl
    }

    /// Add the block of the addresses that share `prefix_bits` bits with
    /// `a.b.c.d`. A full list refuses and stays as it is.
    pub fn add_ipv4_cidr(&mut self, a: u8, b: u8, c: u8, d: u8, prefix_bits: u8) -> (added: bool)
        requires
            old(self).wf(),
            prefix_bits <= 32,
        ensures
            final(self).wf(),
            added == (old(self).blocks().len() < ACL_MAX_ENTRIES),
            final(self).allows_by_default() == old(self).allows_by_default(),
            final(self).blocks() == if added {
                old(self).blocks().push(cidr_block(ipv4(a, b, c, d), prefix_bits as int))
            } else {
                old(self).blocks()
            },
    {
        if self.len >= ACL_MAX_ENTRIES {
            return false;
        }
        let network: u32 = a as u32 * 0x1000000 + b as u32 * 0x10000 + c as u32 * 0x100 + d as u32;
        let mask: u32 = if prefix_bits == 0 {
            0
        } else {
            let host_bits: u32 = 32 - prefix_bits as u32;
            assert((1u32 << host_bits) >= 1) by (bit_vector)
                requires
                    host_bits < 32,
            ;
            !((1u32 << host_bits) - 1)
        };
        let entry = AclEntry { network, mask };
        proof {
            lemma_mask_is_block(entry, prefix_bits as int);
        }
        let slot: usize = self.len;
        self.entries[slot] = Some(entry);
        self.len = slot + 1;
        assert(self.blocks() == old(self).blocks().push(
            cidr_block(ipv4(a, b, c, d), prefix_bits as int),
        ));
        true
    }

    /// Tell whether the list serves `addr`.
    pub fn allows(&self, addr: u32) -> (r: bool)
        requires
            self.wf(),
        ensures
            r == self.permits(addr),
    {
        let mut i: usize = 0;
        while i < ACL_MAX_ENTRIES
            invariant
                i <= ACL_MAX_ENTRIES,
                self.wf(),
                forall|j: int|
                    0 <= j < i && j < self.blocks().len() ==> !(
                    #[trigger] self.blocks()[j].contains(addr)),
            decreases ACL_MAX_ENTRIES - i,
        {
            if let Some(entry) = self.entries[i] {
                assert(self.blocks()[i as int] == entry.addresses());
                if entry.contains(addr) {
                    return true;
                }
            }
            i = i + 1;
        }
        self.default_allow
    }
}

/// The mask with `prefix` leading ones selects the addresses that share that
/// many leading bits.
proof fn lemma_mask_is_block(entry: AclEntry, prefix: int)
    requires
        0 <= prefix <= 32,
        prefix == 0 ==> entry.mask == 0,
        prefix > 0 ==> entry.mask == !(((1u32 << ((32 - prefix) as u32)) - 1) as u32),
    ensures
        entry.addresses() == cidr_block(entry.network, prefix),
{
    let network = entry.network;
    let mask = entry.mask;
    vstd::arithmetic::power2::lemma2_to64();
    assert forall|addr: u32| #[trigger]
        entry.addresses().contains(addr) == cidr_block(network, prefix).contains(addr) by {
        if prefix == 0 {
            assert(addr & mask == network & mask) by (bit_vector)
                requires
                    mask == 0,
            ;
            assert(addr as int / 0x1_0000_0000int == 0);
            assert(network as int / 0x1_0000_0000int == 0);
        } else {
            let s: u32 = (32 - prefix) as u32;
            assert((addr & mask == network & mask) <==> (addr >> s == network >> s))
                by (bit_vector)
                requires
                    s < 32,
                    mask == !(((1u32 << s) - 1) as u32),
            ;
            vstd::bits::lemma_u32_shr_is_div(addr, s);
            vstd::bits::lemma_u32_shr_is_div(network, s);
        }
    }
    assert(entry.addresses() =~= cidr_block(network, prefix));
}

/// The loopback network and the private networks of RFC 1918.
pub open spec fn private_blocks() -> Seq<Set<u32>> {
    seq![
        cidr_block(ipv4(127, 0, 0, 0), 8),
        cidr_block(ipv4(10, 0, 0, 0), 8),
        cidr_block(ipv4(172, 16, 0, 0), 12),
        cidr_block(ipv4(192, 168, 0, 0), 16),
    ]
}

/// The list of the private networks serves exactly `127.0.0.0/8`, `10.0.0.0/8`,
/// `172.16.0.0/12` and `192.168.0.0/16`.
pub proof fn law_private_lan_ranges(acl: Acl, addr: u32)
    requires
        acl.blocks() == private_blocks(),
        !acl.allows_by_default(),
    ensures
        acl.permits(addr) <==> {
            ||| 0x7F000000 <= addr <= 0x7FFFFFFF
            ||| 0x0A000000 <= addr <= 0x0AFFFFFF
            ||| 0xAC100000 <= addr <= 0xAC1FFFFF
            ||| 0xC0A80000 <= addr <= 0xC0A8FFFF
        },
{
    vstd::arithmetic::power2::lemma2_to64();
    assert(pow2((32 - 8) as nat) == 0x1000000 && pow2((32 - 12) as nat) == 0x100000 && pow2(
        (32 - 16) as nat,
    ) == 0x10000);
    let blocks = acl.blocks();
    assert(blocks[0].contains(addr) <==> addr as int / 0x1000000 == 0x7F000000int / 0x1000000);
    assert(blocks[0].contains(addr) <==> 0x7F000000 <= addr <= 0x7FFFFFFF);
    assert(blocks[1].contains(addr) <==> addr as int / 0x1000000 == 0x0A000000int / 0x1000000);
    assert(blocks[1].contains(addr) <==> 0x0A000000 <= addr <= 0x0AFFFFFF);
    assert(blocks[2].contains(addr) <==> addr as int / 0x100000 == 0xAC100000int / 0x100000);
    assert(blocks[2].contains(addr) <==> 0xAC100000 <= addr <= 0xAC1FFFFF);
    assert(blocks[3].contains(addr) <==> addr as int / 0x10000 == 0xC0A80000int / 0x10000);
    assert(blocks[3].contains(addr) <==> 0xC0A80000 <= addr <= 0xC0A8FFFF);
    if acl.permits(addr) {
        let i = choose|i: int| 0 <= i < blocks.len() && #[trigger] blocks[i].contains(addr);
        assert(i == 0 || i == 1 || i == 2 || i == 3);
    }
}

/// An empty list serves everybody or nobody.
pub proof fn law_empty_list_follows_default(acl: Acl, addr: u32)
    requires
        acl.blocks() == Seq::<Set<u32>>::empty(),
    ensures
        acl.permits(addr) == acl.allows_by_default(),
{
}

/// A listed address is served, whatever the default. The default decides on the
/// others, however many blocks are listed.
pub proof fn law_default_decides_on_the_unlisted(acl: Acl, addr: u32)
    ensures
        acl.lists(addr) ==> acl.permits(addr),
        !acl.lists(addr) ==> acl.permits(addr) == acl.allows_by_default(),
{
}

/// A block of thirty-two bits holds one address, a block of none holds all.
pub proof fn law_block_extremes(network: u32, addr: u32)
    ensures
        cidr_block(network, 32).contains(addr) <==> addr == network,
        cidr_block(network, 0).contains(addr),
{
    vstd::arithmetic::power2::lemma2_to64();
    assert(pow2((32 - 32) as nat) == 1);
    assert(addr as int / 1 == addr);
    assert(network as int / 1 == network);
    assert(addr as int / 0x1_0000_0000int == 0);
    assert(network as int / 0x1_0000_0000int == 0);
}

/// The parts of a block written as `a.b.c.d/prefix`, with white space around it.
pub open spec fn ipv4_cidr(s: Seq<char>) -> Option<(u8, u8, u8, u8, u8)> {
    let t = text::trimmed(s);
    let slash = text::first_index(t, '/');
    let octets = text::fields(t.take(slash), '.');
    if slash < t.len() && octets.len() == 4 {
        match (
            text::unsigned_number(octets[0], 255),
            text::unsigned_number(octets[1], 255),
            text::unsigned_number(octets[2], 255),
            text::unsigned_number(octets[3], 255),
            text::unsigned_number(t.skip(slash + 1), 32),
        ) {
            (Some(a), Some(b), Some(c), Some(d), Some(prefix)) => Some(
                (a as u8, b as u8, c as u8, d as u8, prefix as u8),
            ),
            _ => None,
        }
    } else {
        None
    }
}

/// Read a block written as `a.b.c.d/prefix`.
pub fn parse_ipv4_cidr(s: &str) -> (r: Option<(u8, u8, u8, u8, u8)>)
    ensures
        r == ipv4_cidr(s@),
        r matches Some((_, _, _, _, prefix)) ==> prefix <= 32,
{
    let chars = text::chars_of(s);
    let t = text::trim(chars.as_slice());
    let slash: usize = text::index_of(t, '/');
    if slash >= t.len() {
        return None;
    }
    let addr = slice_subrange(t, 0, slash);
    assert(addr@ == t@.take(slash as int));
    let rest = slice_subrange(t, slash + 1, t.len());
    assert(rest@ == t@.skip(slash + 1));
    let octets = text::split(addr, '.');
    if octets.len() != 4 {
        return None;
    }
    match (
        text::read_unsigned(octets[0].as_slice(), 255),
        text::read_unsigned(octets[1].as_slice(), 255),
        text::read_unsigned(octets[2].as_slice(), 255),
        text::read_unsigned(octets[3].as_slice(), 255),
        text::read_unsigned(rest, 32),
    ) {
        (Some(a), Some(b), Some(c), Some(d), Some(prefix)) => Some(
            (a as u8, b as u8, c as u8, d as u8, prefix as u8),
        ),
        _ => None,
    }
}

/// Digits are neither white space nor marks, so a number in decimal ends where a mark
/// begins.
proof fn lemma_decimal_has_no_mark(n: int, mark: char)
    requires
        0 <= n,
        mark == '.' || mark == '/',
    ensures
        !text::dec(n).contains(mark),
        text::dec(n).len() > 0,
        !text::is_white_space(text::dec(n)[0]),
        !text::is_white_space(text::dec(n).last()),
{
    text::law_decimal(n);
    let s = text::dec(n);
    assert(text::is_digit(s[0]) && text::is_digit(s[s.len() - 1]));
    assert forall|i: int| 0 <= i < s.len() implies s[i] != mark by {
        assert(text::is_digit(s[i]));
    }
}

/// Four numbers with points between them.
pub open spec fn dotted(a: int, b: int, c: int, d: int) -> Seq<char> {
    text::dec(a) + seq!['.'] + text::dec(b) + seq!['.'] + text::dec(c) + seq!['.'] + text::dec(d)
}

/// Splitting four numbers at the points gives the four.
pub proof fn lemma_dotted(a: int, b: int, c: int, d: int)
    requires
        0 <= a,
        0 <= b,
        0 <= c,
        0 <= d,
    ensures
        text::fields(dotted(a, b, c, d), '.') == seq![
            text::dec(a),
            text::dec(b),
            text::dec(c),
            text::dec(d),
        ],
        !dotted(a, b, c, d).contains('/'),
        dotted(a, b, c, d).len() > 0,
        !text::is_white_space(dotted(a, b, c, d)[0]),
{
    let (x, y, z, w) = (text::dec(a), text::dec(b), text::dec(c), text::dec(d));
    lemma_decimal_has_no_mark(a, '.');
    lemma_decimal_has_no_mark(b, '.');
    lemma_decimal_has_no_mark(c, '.');
    lemma_decimal_has_no_mark(d, '.');
    text::law_one_piece(x, '.');
    text::law_one_piece(y, '.');
    text::law_one_piece(z, '.');
    text::law_one_piece(w, '.');
    let xy = x + seq!['.'] + y;
    let xyz = xy + seq!['.'] + z;
    text::law_pieces_add_up(x, y, '.');
    text::law_pieces_add_up(xy, z, '.');
    text::law_pieces_add_up(xyz, w, '.');
    let all = dotted(a, b, c, d);
    assert(all == xyz + seq!['.'] + w);
    assert(text::fields(all, '.') =~= seq![x, y, z, w]);
    assert(all[0] == x[0]);
    lemma_decimal_has_no_mark(a, '/');
    lemma_decimal_has_no_mark(b, '/');
    lemma_decimal_has_no_mark(c, '/');
    lemma_decimal_has_no_mark(d, '/');
    assert forall|i: int| 0 <= i < all.len() implies all[i] != '/' by {
        let (p, q, r) = (x.len() as int, y.len() as int, z.len() as int);
        if i < p {
            assert(all[i] == x[i] && x.contains(x[i]));
        } else if i == p {
        } else if i < p + 1 + q {
            assert(all[i] == y[i - p - 1] && y.contains(y[i - p - 1]));
        } else if i == p + 1 + q {
        } else if i < p + q + r + 2 {
            assert(all[i] == z[i - p - q - 2] && z.contains(z[i - p - q - 2]));
        } else if i == p + q + r + 2 {
        } else {
            assert(all[i] == w[i - p - q - r - 3] && w.contains(w[i - p - q - r - 3]));
        }
    }
}

/// A block written as four numbers with points between them, a slash and the number of
/// bits, with white space around it or without, is read as these five numbers if none of
/// the four is above 255 and the last is not above 32. Otherwise it is refused.
pub proof fn law_block_is_read(
    front: Seq<char>,
    a: int,
    b: int,
    c: int,
    d: int,
    prefix: int,
    back: Seq<char>,
)
    requires
        forall|i: int| 0 <= i < front.len() ==> text::is_white_space(#[trigger] front[i]),
        forall|i: int| 0 <= i < back.len() ==> text::is_white_space(#[trigger] back[i]),
        0 <= a,
        0 <= b,
        0 <= c,
        0 <= d,
        0 <= prefix,
    ensures
        ({
            let written = front + (dotted(a, b, c, d) + seq!['/'] + text::dec(prefix)) + back;
            ipv4_cidr(written) == if a <= 255 && b <= 255 && c <= 255 && d <= 255 && prefix <= 32 {
                Some((a as u8, b as u8, c as u8, d as u8, prefix as u8))
            } else {
                None
            }
        }),
{
    let addr = dotted(a, b, c, d);
    let bits = text::dec(prefix);
    let block = addr + seq!['/'] + bits;
    lemma_dotted(a, b, c, d);
    lemma_decimal_has_no_mark(prefix, '/');
    assert(block[0] == addr[0]);
    assert(block.last() == bits.last());
    text::law_white_space_is_cut_off(front, block, back);
    let slash = addr.len() as int;
    assert forall|j: int| 0 <= j < slash implies block[j] != '/' by {
        assert(block[j] == addr[j] && addr.contains(addr[j]));
    }
    assert(block[slash] == '/');
    text::lemma_first_index(block, '/', slash);
    assert(block.take(slash) == addr);
    assert(block.skip(slash + 1) == bits);
    text::law_number_is_read_back(a, 255);
    text::law_number_is_read_back(b, 255);
    text::law_number_is_read_back(c, 255);
    text::law_number_is_read_back(d, 255);
    text::law_number_is_read_back(prefix, 32);
}

/// The list configured by a block serves exactly the addresses that agree with it in
/// their first bits.
pub proof fn law_configured_block_is_served(
    acl: Acl,
    a: u8,
    b: u8,
    c: u8,
    d: u8,
    prefix: u8,
    addr: u32,
)
    requires
        prefix <= 32,
        !acl.allows_by_default(),
        acl.blocks() == configured_blocks(
            dotted(a as int, b as int, c as int, d as int) + seq!['/'] + text::dec(prefix as int),
        ),
    ensures
        ({
            let network = 0x100_0000 * a + 0x1_0000 * b + 0x100 * c + d;
            let hosts = pow2((32 - prefix) as nat) as int;
            acl.permits(addr) <==> addr as int / hosts == network / hosts
        }),
{
    let empty = Seq::<char>::empty();
    let block = dotted(a as int, b as int, c as int, d as int) + seq!['/'] + text::dec(
        prefix as int,
    );
    law_block_is_read(empty, a as int, b as int, c as int, d as int, prefix as int, empty);
    assert(empty + block + empty == block);
    let network = 0x100_0000 * a + 0x1_0000 * b + 0x100 * c + d;
    assert(ipv4(a, b, c, d) == network);
    assert(acl.blocks()[0].contains(addr) <==> acl.lists(addr)) by {
        if acl.lists(addr) {
            let i = choose|i: int|
                0 <= i < acl.blocks().len() && #[trigger] acl.blocks()[i].contains(addr);
            assert(i == 0);
        }
    }
}

/// A text without a slash is no block, and the list configured by it is that of the
/// private networks.
pub proof fn law_no_block_means_private_networks(s: Seq<char>)
    requires
        !text::trimmed(s).contains('/'),
    ensures
        ipv4_cidr(s) is None,
        configured_blocks(s) == private_blocks(),
{
    let t = text::trimmed(s);
    text::lemma_at_first_index(t, '/');
    let i = text::first_index(t, '/');
    assert(i < t.len() ==> t.contains(t[i]));
}

/// A client is served if it is not in the table, or if two seconds have passed since its
/// last accepted request, and at no other time.
pub proof fn law_two_seconds_between_requests(
    limiter: RateLimiter,
    i: int,
    addr: u32,
    now_us: i64,
)
    requires
        limiter.wf(),
    ensures
        !tracked_addr(limiter@, addr) ==> is_due(limiter@, addr, now_us),
        holds(limiter@, i, addr) ==> (is_due(limiter@, addr, now_us) <==> now_us
            - limiter@[i]->0.last_us >= 2_000_000),
{
}

/// There is one slot for a new client: a free one before any that is taken, and in a full
/// table one whose last accepted request no other precedes, and of several such the first.
pub proof fn law_slot_for_a_new_client(table: Seq<Option<ClientRecord>>, s: int, other: int)
    requires
        is_vacancy(table, s),
        0 <= other < table.len(),
    ensures
        0 <= s < table.len(),
        table[other] is None ==> table[s] is None && s <= other,
        table[s] is Some && table[other] is Some ==> table[s]->0.last_us
            <= table[other]->0.last_us,
        table[s] is Some && table[other]->0.last_us == table[s]->0.last_us ==> s <= other,
        is_vacancy(table, other) ==> other == s,
{
}

/// The limiter remembers 32 clients, and an access list holds eight blocks.
pub proof fn law_sizes(limiter: RateLimiter, acl: Acl)
    ensures
        limiter.wf() ==> limiter@.len() == 32,
        acl.wf() ==> acl.blocks().len() <= 8,
        acl.blocks().len() < ACL_MAX_ENTRIES <==> acl.blocks().len() < 8,
{
}

} // verus!
