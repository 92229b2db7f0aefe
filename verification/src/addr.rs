//! Socket addresses and the ordered, duplicate-free collections of them that
//! identify a proxy instance.

use vstd::prelude::*;
use crate::text::{concat2, decimal, hexadecimal, to_decimal, to_hexadecimal};

verus! {

/// An IP address and a port.
///
/// The address of an IPv4 endpoint is its four octets read as one number,
/// most significant first; that of an IPv6 endpoint its sixteen octets read
/// the same way.
#[derive(Clone, Copy, Debug, PartialEq, Eq, Hash, Structural)]
#[allow(inconsistent_fields)]
pub enum SocketAddress {
    V4 { ip: u32, port: u16 },
    V6 { ip: u128, port: u16, flowinfo: u32, scope_id: u32 },
}

impl SocketAddress {
    /// The order of socket addresses: IPv4 before IPv6, then by the address
    /// octets, then by the port and the remaining fields.
    pub open spec fn lt(self, other: SocketAddress) -> bool {
        match (self, other) {
            (SocketAddress::V4 { .. }, SocketAddress::V6 { .. }) => true,
            (SocketAddress::V6 { .. }, SocketAddress::V4 { .. }) => false,
            (
                SocketAddress::V4 { ip: a, port: p },
                SocketAddress::V4 { ip: b, port: q },
            ) => a < b || (a == b && p < q),
            (
                SocketAddress::V6 { ip: a, port: p, flowinfo: f, scope_id: s },
                SocketAddress::V6 { ip: b, port: q, flowinfo: g, scope_id: t },
            ) => a < b || (a == b && (p < q || (p == q && (f < g || (f == g && s < t))))),
        }
    }

    /// The port.
    pub open spec fn port_of(self) -> u16 {
        match self {
            SocketAddress::V4 { port, .. } => port,
            SocketAddress::V6 { port, .. } => port,
        }
    }

    /// An IPv4 socket address from its octets and port.
    pub fn v4(a: u8, b: u8, c: u8, d: u8, port: u16) -> (r: SocketAddress)
        ensures
            r == (SocketAddress::V4 {
                ip: (a as u32 * 0x100_0000 + b as u32 * 0x1_0000 + c as u32 * 0x100 + d as u32) as u32,
                port,
            }),
    {
        let ip: u32 = a as u32 * 0x100_0000 + b as u32 * 0x1_0000 + c as u32 * 0x100 + d as u32;
        SocketAddress::V4 { ip, port }
    }

    /// Whether `self` comes before `other`.
    pub fn before(&self, other: &SocketAddress) -> (r: bool)
        ensures
            r == self.lt(*other),
    {
        match (*self, *other) {
            (SocketAddress::V4 { .. }, SocketAddress::V6 { .. }) => true,
            (SocketAddress::V6 { .. }, SocketAddress::V4 { .. }) => false,
            (
                SocketAddress::V4 { ip: a, port: p },
                SocketAddress::V4 { ip: b, port: q },
            ) => a < b || (a == b && p < q),
            (
                SocketAddress::V6 { ip: a, port: p, flowinfo: f, scope_id: s },
                SocketAddress::V6 { ip: b, port: q, flowinfo: g, scope_id: t },
            ) => a < b || (a == b && (p < q || (p == q && (f < g || (f == g && s < t))))),
        }
    }

    /// The port.
    pub fn port(&self) -> (p: u16)
        ensures
            p == self.port_of(),
    {
        match *self {
            SocketAddress::V4 { port, .. } => port,
            SocketAddress::V6 { port, .. } => port,
        }
    }

    /// The address as text: `a.b.c.d:port` for IPv4; for IPv6 the address
    /// in its short form between brackets, with `%` and the scope where the
    /// scope is not zero, then the port.
    pub open spec fn text(self) -> Seq<char> {
        match self {
            SocketAddress::V4 { ip, port } => decimal((ip / 0x100_0000) as nat) + seq!['.']
                + decimal((ip / 0x1_0000 % 0x100) as nat) + seq!['.'] + decimal(
                (ip / 0x100 % 0x100) as nat,
            ) + seq!['.'] + decimal((ip % 0x100) as nat) + seq![':'] + decimal(port as nat),
            SocketAddress::V6 { ip, port, scope_id, .. } => seq!['['] + ipv6_text(ip) + (
            if scope_id != 0 {
                seq!['%'] + decimal(scope_id as nat)
            } else {
                Seq::empty()
            }) + seq![']', ':'] + decimal(port as nat),
        }
    }

    /// Writes the address as text.
    pub fn to_text(&self) -> (r: String)
        ensures
            r@ == self.text(),
    {
        proof {
            reveal_strlit(".");
            reveal_strlit(":");
            reveal_strlit("[");
            reveal_strlit("]:");
            assert("."@ =~= seq!['.']);
            assert(":"@ =~= seq![':']);
            assert("["@ =~= seq!['[']);
            assert("]:"@ =~= seq![']', ':']);
        }
        match *self {
            SocketAddress::V4 { ip, port } => {
                let mut r = to_decimal((ip / 0x100_0000) as u64);
                r.append(".");
                r.append(to_decimal((ip / 0x1_0000 % 0x100) as u64).as_str());
                r.append(".");
                r.append(to_decimal((ip / 0x100 % 0x100) as u64).as_str());
                r.append(".");
                r.append(to_decimal((ip % 0x100) as u64).as_str());
                r.append(":");
                r.append(to_decimal(port as u64).as_str());
                r
            },
            SocketAddress::V6 { ip, port, scope_id, .. } => {
                proof {
                    reveal_strlit("%");
                    assert("%"@ =~= seq!['%']);
                }
                let mut r = concat2("[", ipv6_to_text(ip).as_str());
                if scope_id != 0 {
                    r.append("%");
                    r.append(to_decimal(scope_id as u64).as_str());
                    assert(r@ =~= seq!['['] + ipv6_text(ip) + (seq!['%'] + decimal(scope_id as nat)));
                } else {
                    assert(r@ =~= seq!['['] + ipv6_text(ip) + Seq::<char>::empty());
                }
                r.append("]:");
                r.append(to_decimal(port as u64).as_str());
                r
            },
        }
    }
}

/// The lowest `count` sixteen-bit groups of `ip`, most significant first.
pub open spec fn groups_of(ip: u128, count: nat) -> Seq<u16>
    decreases count,
{
    if count == 0 {
        Seq::empty()
    } else {
        groups_of(ip / 0x1_0000, (count - 1) as nat).push((ip % 0x1_0000) as u16)
    }
}

/// Lemma: there are as many groups as were asked for.
pub proof fn lemma_groups_len(ip: u128, count: nat)
    ensures
        groups_of(ip, count).len() == count,
    decreases count,
{
    if count > 0 {
        lemma_groups_len(ip / 0x1_0000, (count - 1) as nat);
    }
}

/// Takes the lowest `count` groups of `ip` apart.
pub fn to_groups(ip: u128, count: u8) -> (g: Vec<u16>)
    ensures
        g@ == groups_of(ip, count as nat),
        g@.len() == count,
    decreases count,
{
    proof {
        lemma_groups_len(ip, count as nat);
    }
    if count == 0 {
        Vec::new()
    } else {
        let mut g = to_groups(ip / 0x1_0000, count - 1);
        g.push((ip % 0x1_0000) as u16);
        g
    }
}

/// A run of groups: where it begins and how many groups it holds.
#[derive(Clone, Copy, Debug, PartialEq, Eq, Structural)]
pub struct Span {
    pub start: usize,
    pub len: usize,
}

/// The longest run of zero groups among the first `i` groups, the first of
/// them where several are as long, and the run of zero groups that ends
/// with the `i`-th group.
pub open spec fn scanned(groups: Seq<u16>, i: nat) -> (Span, Span)
    decreases i,
{
    if i == 0 {
        (Span { start: 0, len: 0 }, Span { start: 0, len: 0 })
    } else {
        let (longest, current) = scanned(groups, (i - 1) as nat);
        if groups[i - 1] == 0 {
            let grown = Span {
                start: if current.len == 0 {
                    (i - 1) as usize
                } else {
                    current.start
                },
                len: (current.len + 1) as usize,
            };
            (
                if grown.len > longest.len {
                    grown
                } else {
                    longest
                },
                grown,
            )
        } else {
            (longest, Span { start: 0, len: 0 })
        }
    }
}

/// The longest run of zero groups, the first of them where several are as
/// long.
pub open spec fn longest_zero_run(groups: Seq<u16>) -> Span {
    scanned(groups, groups.len()).0
}

/// Lemma: the runs lie within the groups scanned.
pub proof fn lemma_scanned(groups: Seq<u16>, i: nat)
    requires
        i <= groups.len() <= usize::MAX,
    ensures
        scanned(groups, i).0.start + scanned(groups, i).0.len <= i,
        scanned(groups, i).1.start + scanned(groups, i).1.len <= i,
    decreases i,
{
    if i > 0 {
        lemma_scanned(groups, (i - 1) as nat);
    }
}

/// Finds the longest run of zero groups.
pub fn find_zero_run(groups: &Vec<u16>) -> (r: Span)
    ensures
        r == longest_zero_run(groups@),
        r.start + r.len <= groups@.len(),
{
    let mut longest = Span { start: 0, len: 0 };
    let mut current = Span { start: 0, len: 0 };
    let mut i: usize = 0;
    while i < groups.len()
        invariant
            i <= groups.len(),
            (longest, current) == scanned(groups@, i as nat),
            longest.start + longest.len <= i,
            current.start + current.len <= i,
        decreases groups.len() - i,
    {
        proof {
            lemma_scanned(groups@, (i + 1) as nat);
        }
        if groups[i] == 0 {
            if current.len == 0 {
                current.start = i;
            }
            current.len = current.len + 1;
            if current.len > longest.len {
                longest = current;
            }
        } else {
            current = Span { start: 0, len: 0 };
        }
        i += 1;
    }
    longest
}

/// The groups in hexadecimal, without leading zeros, separated by colons.
pub open spec fn groups_joined(groups: Seq<u16>) -> Seq<char>
    decreases groups.len(),
{
    if groups.len() == 0 {
        Seq::empty()
    } else if groups.len() == 1 {
        hexadecimal(groups[0] as nat)
    } else {
        groups_joined(groups.drop_last()) + seq![':'] + hexadecimal(groups.last() as nat)
    }
}

/// Writes the groups from position `from` up to position `to`.
pub fn join_groups(groups: &Vec<u16>, from: usize, to: usize) -> (r: String)
    requires
        from <= to <= groups@.len(),
    ensures
        r@ == groups_joined(groups@.subrange(from as int, to as int)),
{
    proof {
        reveal_strlit(":");
        assert(":"@ =~= seq![':']);
    }
    let mut r = String::new();
    let mut i: usize = from;
    assert(groups@.subrange(from as int, from as int) =~= Seq::<u16>::empty());
    while i < to
        invariant
            from <= i <= to <= groups@.len(),
            ":"@ == seq![':'],
            r@ == groups_joined(groups@.subrange(from as int, i as int)),
        decreases to - i,
    {
        proof {
            let next = groups@.subrange(from as int, i + 1);
            assert(next.drop_last() =~= groups@.subrange(from as int, i as int));
            assert(next.last() == groups@[i as int]);
            if i == from {
                assert(next[0] == groups@[i as int]);
                assert(Seq::<char>::empty() + hexadecimal(groups@[i as int] as nat)
                    =~= hexadecimal(groups@[i as int] as nat));
            }
        }
        if i != from {
            r.append(":");
        }
        r.append(to_hexadecimal(groups[i] as u64).as_str());
        i += 1;
    }
    r
}

/// Whether the groups are those of an IPv4 address mapped into IPv6: five
/// zero groups, then `ffff`.
pub open spec fn is_v4_mapped(groups: Seq<u16>) -> bool {
    groups.len() == 8 && groups[0] == 0 && groups[1] == 0 && groups[2] == 0 && groups[3] == 0
        && groups[4] == 0 && groups[5] == 0xffff
}

/// The short text of an IPv6 address. A mapped IPv4 address is `::ffff:`
/// and the IPv4 address in dotted form. In any other address the longest
/// run of two or more zero groups, the first of them where several are as
/// long, is written as `::`; the groups before it and after it are written
/// in hexadecimal, without leading zeros, separated by colons.
pub open spec fn ipv6_text(ip: u128) -> Seq<char> {
    let groups = groups_of(ip, 8);
    if is_v4_mapped(groups) {
        seq![':', ':', 'f', 'f', 'f', 'f', ':'] + decimal((groups[6] / 0x100) as nat) + seq!['.']
            + decimal((groups[6] % 0x100) as nat) + seq!['.'] + decimal(
            (groups[7] / 0x100) as nat,
        ) + seq!['.'] + decimal((groups[7] % 0x100) as nat)
    } else {
        let zeroes = longest_zero_run(groups);
        if zeroes.len > 1 {
            groups_joined(groups.subrange(0, zeroes.start as int)) + seq![':', ':'] + groups_joined(
                groups.subrange(zeroes.start + zeroes.len, 8),
            )
        } else {
            groups_joined(groups)
        }
    }
}

/// Writes the short text of an IPv6 address.
pub fn ipv6_to_text(ip: u128) -> (r: String)
    ensures
        r@ == ipv6_text(ip),
{
    proof {
        reveal_strlit("::ffff:");
        reveal_strlit("::");
        reveal_strlit(".");
        assert("::ffff:"@ =~= seq![':', ':', 'f', 'f', 'f', 'f', ':']);
        assert("::"@ =~= seq![':', ':']);
        assert("."@ =~= seq!['.']);
    }
    let groups = to_groups(ip, 8);
    if groups[0] == 0 && groups[1] == 0 && groups[2] == 0 && groups[3] == 0 && groups[4] == 0
        && groups[5] == 0xffff {
        let mut r = concat2("::ffff:", to_decimal((groups[6] / 0x100) as u64).as_str());
        r.append(".");
        r.append(to_decimal((groups[6] % 0x100) as u64).as_str());
        r.append(".");
        r.append(to_decimal((groups[7] / 0x100) as u64).as_str());
        r.append(".");
        r.append(to_decimal((groups[7] % 0x100) as u64).as_str());
        r
    } else {
        let zeroes = find_zero_run(&groups);
        if zeroes.len > 1 {
            let mut r = join_groups(&groups, 0, zeroes.start);
            r.append("::");
            r.append(join_groups(&groups, zeroes.start + zeroes.len, 8).as_str());
            r
        } else {
            assert(groups@.subrange(0, 8) =~= groups@);
            join_groups(&groups, 0, 8)
        }
    }
}

/// Whether `s` is in strictly increasing order, so that it holds nothing twice.
pub open spec fn strictly_sorted(s: Seq<SocketAddress>) -> bool {
    forall|i: int, j: int| 0 <= i < j < s.len() ==> (#[trigger] s[i]).lt(#[trigger] s[j])
}

/// Whether `r` holds exactly what `a` and `b` hold together.
pub open spec fn is_union(r: Seq<SocketAddress>, a: Seq<SocketAddress>, b: Seq<SocketAddress>) -> bool {
    &&& forall|x: SocketAddress| #[trigger] r.contains(x) ==> a.contains(x) || b.contains(x)
    &&& forall|x: SocketAddress| #[trigger] a.contains(x) ==> r.contains(x)
    &&& forall|x: SocketAddress| #[trigger] b.contains(x) ==> r.contains(x)
}

/// Whether `a` and `b` hold the same addresses.
pub open spec fn same_members(a: Seq<SocketAddress>, b: Seq<SocketAddress>) -> bool {
    &&& forall|x: SocketAddress| #[trigger] a.contains(x) ==> b.contains(x)
    &&& forall|x: SocketAddress| #[trigger] b.contains(x) ==> a.contains(x)
}

/// Whether `p` lists the ports of `addrs`, each once, in increasing order.
pub open spec fn is_port_list(p: Seq<u16>, addrs: Seq<SocketAddress>) -> bool {
    &&& forall|i: int, j: int| 0 <= i < j < p.len() ==> p[i] < p[j]
    &&& forall|i: int| 0 <= i < addrs.len() ==> p.contains((#[trigger] addrs[i]).port_of())
    &&& forall|n: u16| #[trigger]
        p.contains(n) ==> exists|i: int| 0 <= i < addrs.len() && (#[trigger] addrs[i]).port_of() == n
}

/// A collection of socket addresses, in order and without duplicates.
#[derive(Clone, Debug, PartialEq, Eq, Hash)]
pub struct Addresses(Vec<SocketAddress>);

impl View for Addresses {
    type V = Seq<SocketAddress>;

    closed spec fn view(&self) -> Seq<SocketAddress> {
        self.0@
    }
}

/// One address or several, as a binding may be given on the wire.
pub enum OneOrMany {
    One(SocketAddress),
    Many(Vec<SocketAddress>),
}

impl OneOrMany {
    /// The addresses given, in the order given.
    pub open spec fn items(self) -> Seq<SocketAddress> {
        match self {
            OneOrMany::One(a) => seq![a],
            OneOrMany::Many(v) => v@,
        }
    }
}

impl Addresses {
    /// Well-formedness: the addresses are in strictly increasing order.
    pub open spec fn wf(self) -> bool {
        strictly_sorted(self@)
    }

    /// The collection that holds exactly the addresses of `addrs`.
    pub open spec fn holds(self, addrs: Seq<SocketAddress>) -> bool {
        &&& self.wf()
        &&& same_members(self@, addrs)
    }

    /// The empty collection.
    pub fn empty() -> (r: Self)
        ensures
            r.wf(),
            r@ == Seq::<SocketAddress>::empty(),
    {
        Addresses(Vec::new())
    }

    /// The collection of the addresses in `addrs`.
    pub fn new(addrs: Vec<SocketAddress>) -> (r: Self)
        ensures
            r.holds(addrs@),
    {
        let mut r = Addresses::empty();
        r.extend(&addrs);
        r
    }

    /// The collection that holds `addr` alone.
    pub fn from_addr(addr: SocketAddress) -> (r: Self)
        ensures
            r.wf(),
            r@ == seq![addr],
    {
        let mut v = Vec::new();
        v.push(addr);
        Addresses(v)
    }

    /// Reads a binding given as one address or as a sequence of them. An
    /// empty sequence is refused.
    pub fn from_one_or_many(given: OneOrMany) -> (r: Result<Self, String>)
        ensures
            match r {
                Ok(a) => given.items().len() > 0 && a.holds(given.items()),
                Err(e) => given.items().len() == 0 && e@ == "empty sequence"@,
            },
    {
        let visitor = crate::deser::one_or_many::OneOrManyVisitor;
        let items = match given {
            OneOrMany::One(a) => visitor.visit_str(a),
            OneOrMany::Many(v) => visitor.visit_seq(v),
        };
        if items.len() == 0 {
            Err("empty sequence".to_owned())
        } else {
            Ok(Addresses::new(items))
        }
    }

    /// Adds one address, keeping the order; an address already there is not
    /// added again.
    pub fn insert(&mut self, addr: SocketAddress)
        requires
            old(self).wf(),
        ensures
            final(self).wf(),
            is_union(final(self)@, old(self)@, seq![addr]),
    {
        let ghost before = self@;
        let mut i: usize = 0;
        while i < self.0.len() && self.0[i].before(&addr)
            invariant
                i <= self.0.len(),
                self@ == before,
                forall|j: int| 0 <= j < i ==> (#[trigger] self@[j]).lt(addr),
            decreases self.0.len() - i,
        {
            i += 1;
        }
        assert(seq![addr][0] == addr);
        if i < self.0.len() && self.0[i] == addr {
            assert(before.contains(addr));
            return ;
        }
        self.0.insert(i, addr);
        proof {
            assert(self@ =~= before.insert(i as int, addr));
            assert forall|x: int, y: int| 0 <= x < y < self@.len() implies (#[trigger] self@[x]).lt(
                #[trigger] self@[y],
            ) by {
                let x0 = if x < i { x } else { x - 1 };
                let y0 = if y < i { y } else { y - 1 };
                if x != i && y != i {
                    assert(before[x0].lt(before[y0]));
                } else if x == i {
                    assert(self@[y] == before[y0]);
                    assert(!before[i as int].lt(addr));
                    if y0 > i {
                        assert(before[i as int].lt(before[y0]));
                    }
                } else {
                    assert(self@[x] == before[x0]);
                }
            }
            assert forall|a: SocketAddress| #[trigger] before.contains(a) implies self@.contains(
                a,
            ) by {
                let k = choose|k: int| 0 <= k < before.len() && before[k] == a;
                let k2 = if k < i { k } else { k + 1 };
                assert(self@[k2] == a);
            }
            assert(self@[i as int] == addr);
            assert forall|a: SocketAddress| #[trigger] self@.contains(a) implies before.contains(a)
                || seq![addr].contains(a) by {
                let k = choose|k: int| 0 <= k < self@.len() && self@[k] == a;
                if k != i {
                    let k0 = if k < i { k } else { k - 1 };
                    assert(before[k0] == a);
                }
            }
        }
    }

    /// Adds every address of `addrs`.
    pub fn extend(&mut self, addrs: &Vec<SocketAddress>)
        requires
            old(self).wf(),
        ensures
            final(self).wf(),
            is_union(final(self)@, old(self)@, addrs@),
    {
        let ghost before = self@;
        let mut i: usize = 0;
        assert(addrs@.take(0) =~= Seq::<SocketAddress>::empty());
        while i < addrs.len()
            invariant
                i <= addrs.len(),
                self.wf(),
                is_union(self@, before, addrs@.take(i as int)),
            decreases addrs.len() - i,
        {
            let ghost prev = self@;
            self.insert(addrs[i]);
            proof {
                let t = addrs@.take(i + 1);
                let t0 = addrs@.take(i as int);
                assert(seq![addrs@[i as int]][0] == addrs@[i as int]);
                assert forall|a: SocketAddress| #[trigger] t.contains(a) implies self@.contains(
                    a,
                ) by {
                    let k = choose|k: int| 0 <= k < t.len() && t[k] == a;
                    if k < i {
                        assert(t0[k] == a);
                        assert(t0.contains(a));
                        assert(prev.contains(a));
                    } else {
                        assert(seq![addrs@[i as int]].contains(a));
                    }
                }
                assert forall|a: SocketAddress| #[trigger] self@.contains(a) implies before.contains(
                    a,
                ) || t.contains(a) by {
                    if prev.contains(a) {
                        if t0.contains(a) {
                            let k = choose|k: int| 0 <= k < t0.len() && t0[k] == a;
                            assert(t[k] == a);
                        }
                    } else {
                        assert(seq![addrs@[i as int]].contains(a));
                        assert(t[i as int] == a);
                    }
                }
                assert forall|a: SocketAddress| #[trigger] before.contains(a) implies self@.contains(
                    a,
                ) by {
                    assert(prev.contains(a));
                }
            }
            i += 1;
        }
        assert(addrs@.take(addrs.len() as int) =~= addrs@);
    }

    /// The union of two collections.
    pub fn merge(self, other: &Addresses) -> (r: Self)
        requires
            self.wf(),
        ensures
            r.wf(),
            is_union(r@, self@, other@),
    {
        let mut r = self;
        r.extend(&other.0);
        r
    }

    /// A copy of this collection.
    pub fn duplicate(&self) -> (r: Self)
        ensures
            r@ == self@,
    {
        Addresses(self.to_vec())
    }

    /// Whether the collection is empty.
    pub fn is_empty(&self) -> (r: bool)
        ensures
            r == (self@.len() == 0),
    {
        self.0.len() == 0
    }

    /// The number of addresses.
    pub fn len(&self) -> (n: usize)
        ensures
            n == self@.len(),
    {
        self.0.len()
    }

    /// The address at position `i`.
    pub fn get(&self, i: usize) -> (a: SocketAddress)
        requires
            i < self@.len(),
        ensures
            a == self@[i as int],
    {
        self.0[i]
    }

    /// The addresses, in order.
    pub fn to_vec(&self) -> (v: Vec<SocketAddress>)
        ensures
            v@ == self@,
    {
        let mut v: Vec<SocketAddress> = Vec::new();
        let mut i: usize = 0;
        while i < self.0.len()
            invariant
                i <= self.0.len(),
                v@ == self@.take(i as int),
            decreases self.0.len() - i,
        {
            v.push(self.0[i]);
            assert(v@ =~= self@.take(i + 1));
            i += 1;
        }
        assert(self@.take(self.0.len() as int) =~= self@);
        v
    }

    /// The ports of the addresses, each once, in increasing order.
    pub fn ports(&self) -> (p: Vec<u16>)
        ensures
            is_port_list(p@, self@),
    {
        let mut p: Vec<u16> = Vec::new();
        let mut i: usize = 0;
        while i < self.0.len()
            invariant
                i <= self.0.len(),
                forall|x: int, y: int| 0 <= x < y < p@.len() ==> p@[x] < p@[y],
                forall|k: int| 0 <= k < i ==> p@.contains((#[trigger] self@[k]).port_of()),
                forall|n: u16| #[trigger]
                    p@.contains(n) ==> exists|k: int|
                        0 <= k < i && (#[trigger] self@[k]).port_of() == n,
            decreases self.0.len() - i,
        {
            let ghost before = p@;
            let port = self.0[i].port();
            insert_port(&mut p, port);
            proof {
                assert forall|n: u16| #[trigger] p@.contains(n) implies exists|k: int|
                    0 <= k < i + 1 && (#[trigger] self@[k]).port_of() == n by {
                    if before.contains(n) {
                        let k = choose|k: int| 0 <= k < i && (#[trigger] self@[k]).port_of() == n;
                        assert(0 <= k < i + 1 && self@[k].port_of() == n);
                    } else {
                        assert(self@[i as int].port_of() == n);
                    }
                }
                assert forall|k: int| 0 <= k < i + 1 implies p@.contains(
                    (#[trigger] self@[k]).port_of(),
                ) by {
                    if k < i {
                        assert(before.contains(self@[k].port_of()));
                    }
                }
            }
            i += 1;
        }
        p
    }

    /// Whether two collections hold the same addresses.
    pub fn same(&self, other: &Addresses) -> (r: bool)
        ensures
            r == (self@ == other@),
    {
        if self.0.len() != other.0.len() {
            return false;
        }
        let mut i: usize = 0;
        while i < self.0.len()
            invariant
                i <= self.0.len(),
                self.0.len() == other.0.len(),
                forall|j: int| 0 <= j < i ==> self@[j] == other@[j],
            decreases self.0.len() - i,
        {
            if self.0[i] != other.0[i] {
                return false;
            }
            i += 1;
        }
        assert(self@ =~= other@);
        true
    }

    /// The addresses as text, between brackets and separated by commas.
    pub open spec fn text(self) -> Seq<char> {
        seq!['['] + list_text(self@) + seq![']']
    }

    /// Writes the addresses as text.
    pub fn to_text(&self) -> (r: String)
        ensures
            r@ == self.text(),
    {
        proof {
            reveal_strlit("[");
            reveal_strlit("]");
            reveal_strlit(", ");
            assert("["@ =~= seq!['[']);
            assert("]"@ =~= seq![']']);
            assert(", "@ =~= seq![',', ' ']);
        }
        let mut body = String::new();
        let mut i: usize = 0;
        assert(self@.take(0) =~= Seq::<SocketAddress>::empty());
        while i < self.0.len()
            invariant
                i <= self.0.len(),
                body@ == list_text(self@.take(i as int)),
                ", "@ == seq![',', ' '],
            decreases self.0.len() - i,
        {
            if i != 0 {
                body.append(", ");
            }
            body.append(self.0[i].to_text().as_str());
            proof {
                let t = self@.take(i + 1);
                assert(t.drop_last() =~= self@.take(i as int));
                assert(t.last() == self@[i as int]);
            }
            i += 1;
        }
        assert(self@.take(self.0.len() as int) =~= self@);
        let mut r = concat2("[", body.as_str());
        r.append("]");
        r
    }
}

/// The addresses of `s` as text, separated by a comma and a space.
pub open spec fn list_text(s: Seq<SocketAddress>) -> Seq<char>
    decreases s.len(),
{
    if s.len() == 0 {
        Seq::empty()
    } else if s.len() == 1 {
        s.last().text()
    } else {
        list_text(s.drop_last()) + seq![',', ' '] + s.last().text()
    }
}

/// Adds one port to an increasing list of ports.
fn insert_port(ports: &mut Vec<u16>, port: u16)
    requires
        forall|i: int, j: int| 0 <= i < j < old(ports)@.len() ==> old(ports)@[i] < old(ports)@[j],
    ensures
        forall|i: int, j: int| 0 <= i < j < final(ports)@.len() ==> final(ports)@[i] < final(ports)@[j],
        final(ports)@.contains(port),
        forall|n: u16| #[trigger] old(ports)@.contains(n) ==> final(ports)@.contains(n),
        forall|n: u16| #[trigger] final(ports)@.contains(n) ==> old(ports)@.contains(n) || n == port,
{
    let ghost before = ports@;
    let mut i: usize = 0;
    while i < ports.len() && ports[i] < port
        invariant
            i <= ports.len(),
            ports@ == before,
            forall|j: int| 0 <= j < i ==> ports@[j] < port,
        decreases ports.len() - i,
    {
        i += 1;
    }
    if i < ports.len() && ports[i] == port {
        assert(before[i as int] == port);
        return ;
    }
    ports.insert(i, port);
    proof {
        assert(ports@ =~= before.insert(i as int, port));
        assert(ports@[i as int] == port);
        assert forall|n: u16| #[trigger] before.contains(n) implies ports@.contains(n) by {
            let k = choose|k: int| 0 <= k < before.len() && before[k] == n;
            let k2 = if k < i { k } else { k + 1 };
            assert(ports@[k2] == n);
        }
        assert forall|n: u16| #[trigger] ports@.contains(n) implies before.contains(n) || n
            == port by {
            let k = choose|k: int| 0 <= k < ports@.len() && ports@[k] == n;
            if k != i {
                let k0 = if k < i { k } else { k - 1 };
                assert(before[k0] == n);
            }
        }
    }
}

/// Two collections that hold the same addresses are equal: the order leaves
/// no choice.
pub proof fn lemma_sorted_unique(a: Seq<SocketAddress>, b: Seq<SocketAddress>)
    requires
        strictly_sorted(a),
        strictly_sorted(b),
        same_members(a, b),
    ensures
        a == b,
    decreases a.len(),
{
    if a.len() == 0 {
        if b.len() > 0 {
            assert(b.contains(b[0]));
        }
        assert(a =~= b);
    } else {
        assert(a.contains(a[0]));
        assert(b.len() > 0);
        assert(b.contains(b[0]));
        // The least element of each is the least of the common set.
        let ia = choose|i: int| 0 <= i < a.len() && a[i] == b[0];
        let ib = choose|i: int| 0 <= i < b.len() && b[i] == a[0];
        if ia > 0 {
            assert(a[0].lt(a[ia]));
        }
        if ib > 0 {
            assert(b[0].lt(b[ib]));
        }
        assert(a[0] == b[0]);
        let ta = a.drop_first();
        let tb = b.drop_first();
        assert forall|x: SocketAddress| #[trigger] ta.contains(x) implies tb.contains(x) by {
            {
                let k = choose|k: int| 0 <= k < ta.len() && ta[k] == x;
                assert(a[k + 1] == x);
                assert(a[0].lt(a[k + 1]));
                assert(a.contains(x));
                let m = choose|m: int| 0 <= m < b.len() && b[m] == x;
                assert(m != 0);
                assert(tb[m - 1] == x);
            }
        }
        assert forall|x: SocketAddress| #[trigger] tb.contains(x) implies ta.contains(x) by {
            {
                let k = choose|k: int| 0 <= k < tb.len() && tb[k] == x;
                assert(b[k + 1] == x);
                assert(b[0].lt(b[k + 1]));
                assert(b.contains(x));
                let m = choose|m: int| 0 <= m < a.len() && a[m] == x;
                assert(m != 0);
                assert(ta[m - 1] == x);
            }
        }
        assert forall|i: int, j: int| 0 <= i < j < ta.len() implies (#[trigger] ta[i]).lt(
            #[trigger] ta[j],
        ) by {
            assert(a[i + 1].lt(a[j + 1]));
        }
        assert forall|i: int, j: int| 0 <= i < j < tb.len() implies (#[trigger] tb[i]).lt(
            #[trigger] tb[j],
        ) by {
            assert(b[i + 1].lt(b[j + 1]));
        }
        lemma_sorted_unique(ta, tb);
        assert(a =~= seq![a[0]] + ta);
        assert(b =~= seq![b[0]] + tb);
    }
}

/// The union of address collections is associative.
pub proof fn lemma_merge_associative(
    a: Addresses,
    b: Addresses,
    c: Addresses,
    ab: Addresses,
    bc: Addresses,
    left: Addresses,
    right: Addresses,
)
    requires
        ab.wf(),
        bc.wf(),
        left.wf(),
        right.wf(),
        is_union(ab@, a@, b@),
        is_union(bc@, b@, c@),
        is_union(left@, ab@, c@),
        is_union(right@, a@, bc@),
    ensures
        left@ == right@,
{
    lemma_sorted_unique(left@, right@);
}

/// A binding given as one address and the same binding given as a sequence
/// of that one address are read as equal collections.
pub proof fn lemma_one_is_many(addr: SocketAddress, one: Addresses, many: Addresses)
    requires
        one.holds(OneOrMany::One(addr).items()),
        many.holds(seq![addr]),
    ensures
        one@ == many@,
{
    lemma_sorted_unique(one@, many@);
}

} // verus!
