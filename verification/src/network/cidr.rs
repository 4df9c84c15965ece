//! IPv4 address blocks in prefix notation, and the walk over the addresses of a block.
use vstd::prelude::*;
use vstd::arithmetic::power2::pow2;
use super::wire::{addr_at, read_u32};

verus! {

/// An IPv4 address as a 32-bit number in host order: `a.b.c.d` is `a * 2^24 + b * 2^16 + c * 2^8 + d`.
pub type Ipv4Addr = u32;

/// The network mask of a prefix length: `prefix` leading one bits.
pub open spec fn netmask_of(prefix: u8) -> u32 {
    if prefix == 0 {
        0u32
    } else {
        0xFFFF_FFFFu32 << ((32u8 - prefix) as u32)
    }
}

/// A block of IPv4 addresses together with a cursor that walks it.
#[derive(Clone, Copy, Debug, PartialEq, Eq)]
pub struct Ipv4Cidr {
    first_addr: Ipv4Addr,
    last_addr: Ipv4Addr,
    addr: Ipv4Addr,
    netmask: u8,
}

impl Ipv4Cidr {
    /// The lowest address of the block.
    pub closed spec fn first(self) -> Ipv4Addr {
        self.first_addr
    }

    /// The highest address of the block.
    pub closed spec fn last(self) -> Ipv4Addr {
        self.last_addr
    }

    /// The cursor: the address that was yielded last, or the one the walk starts after.
    pub closed spec fn cursor(self) -> Ipv4Addr {
        self.addr
    }

    /// The prefix length.
    pub closed spec fn prefix(self) -> u8 {
        self.netmask
    }

    /// The block is the one that its prefix length cuts out around its first address.
    pub open spec fn wf(self) -> bool {
        &&& self.prefix() <= 32
        &&& self.first() == self.first() & netmask_of(self.prefix())
        &&& self.last() == self.first() | !netmask_of(self.prefix())
        &&& self.first() <= self.cursor()
    }

    /// The block that `mask` cuts out around `base`.
    pub open spec fn spans(self, base: Ipv4Addr, mask: u32) -> bool {
        &&& self.first() == base & mask
        &&& self.last() == (base & mask) | !mask
    }

    /// The block of `base` under `prefix`, with the cursor on `at`.
    pub open spec fn covers(self, base: Ipv4Addr, prefix: u8, at: Ipv4Addr) -> bool {
        &&& self.prefix() == prefix
        &&& self.first() == base & netmask_of(prefix)
        &&& self.last() == (base & netmask_of(prefix)) | !netmask_of(prefix)
        &&& self.cursor() == at
    }

    /// The addresses that are still to come, in the order in which `next` yields them.
    pub open spec fn remaining(self) -> Seq<Ipv4Addr> {
        if self.cursor() < self.last() {
            Seq::new((self.last() - self.cursor()) as nat, |i: int| (self.cursor() + 1 + i) as u32)
        } else {
            Seq::empty()
        }
    }

    /// The addresses that a walk yields after a reset: all of the block but the first, in
    /// rising order.
    pub open spec fn block(self) -> Seq<Ipv4Addr> {
        if self.first() < self.last() {
            Seq::new((self.last() - self.first()) as nat, |i: int| (self.first() + 1 + i) as u32)
        } else {
            Seq::empty()
        }
    }

    /// The largest prefix length.
    pub fn max_size() -> (r: u8)
        ensures
            r == 32,
    {
        32
    }

    /// The block of `first` under prefix length `netmask`; the cursor starts on `first` itself.
    pub fn new(first: Ipv4Addr, netmask: u8) -> (r: Self)
        requires
            netmask <= 32,
        ensures
            r.covers(first, netmask, first),
            r.wf(),
    {
        let mask = mask_bits(netmask);
        proof {
            lemma_block_is_wf(first, netmask);
        }
        Ipv4Cidr { first_addr: first & mask, last_addr: (first & mask) | !mask, addr: first, netmask }
    }

    /// Puts the cursor back on the first address of the block.
    pub fn reset(&mut self)
        ensures
            old(self).wf() ==> final(self).wf(),
            final(self).cursor() == old(self).first(),
            final(self).remaining() == old(self).block(),
            final(self).block() == old(self).block(),
            final(self).first() == old(self).first(),
            final(self).last() == old(self).last(),
            final(self).prefix() == old(self).prefix(),
    {
        self.addr = self.first_addr;
    }

    /// Moves the cursor one address up and yields it, as long as it stays inside the block.
    pub fn next(&mut self) -> (r: Option<Ipv4Addr>)
        ensures
            old(self).wf() ==> final(self).wf(),
            final(self).first() == old(self).first(),
            final(self).last() == old(self).last(),
            final(self).prefix() == old(self).prefix(),
            old(self).cursor() < old(self).last() ==> r == Some((old(self).cursor() + 1) as u32)
                && final(self).cursor() == old(self).cursor() + 1,
            old(self).cursor() >= old(self).last() ==> r.is_none() && final(self).cursor() == old(
                self,
            ).cursor(),
            r.is_some() <==> old(self).remaining().len() > 0,
            r.is_some() ==> r == Some(old(self).remaining()[0]) && final(self).remaining()
                == old(self).remaining().drop_first(),
    {
        if self.addr < self.last_addr {
            proof {
                assert(old(self).remaining().drop_first() =~= Seq::new(
                    (self.last_addr - (self.addr + 1)) as nat,
                    |i: int| (self.addr + 1 + 1 + i) as u32,
                ));
            }
            self.addr += 1;
            assert(final(self).remaining() =~= old(self).remaining().drop_first());
            Some(self.addr)
        } else {
            None
        }
    }

    /// The lowest address of the block.
    pub fn first_addr(&self) -> (r: Ipv4Addr)
        ensures
            r == self.first(),
    {
        self.first_addr
    }

    /// The highest address of the block.
    pub fn last_addr(&self) -> (r: Ipv4Addr)
        ensures
            r == self.last(),
    {
        self.last_addr
    }

    /// The cursor.
    pub fn addr(&self) -> (r: Ipv4Addr)
        ensures
            r == self.cursor(),
    {
        self.addr
    }

    /// The prefix length.
    pub fn netmask(&self) -> (r: u8)
        ensures
            r == self.prefix(),
    {
        self.netmask
    }
}

/// An address block as the IP stack describes it: the octets of an address and of the network
/// mask, highest first, and the prefix length.
#[derive(Clone, Copy, Debug, PartialEq, Eq)]
pub struct WireCidr {
    pub address: [u8; 4],
    pub netmask: [u8; 4],
    pub prefix_len: u8,
}

impl Ipv4Cidr {
    /// The block that the IP stack describes; the cursor starts on the address itself.
    pub fn from(t: WireCidr) -> (r: Self)
        ensures
            r.spans(addr_at(t.address@, 0), addr_at(t.netmask@, 0)),
            r.cursor() == addr_at(t.address@, 0),
            r.prefix() == t.prefix_len,
            t.prefix_len <= 32 && addr_at(t.netmask@, 0) == netmask_of(t.prefix_len) ==> r.wf(),
    {
        let mask = read_u32(t.netmask.as_slice());
        let addr = read_u32(t.address.as_slice());
        proof {
            if t.prefix_len <= 32 && mask == netmask_of(t.prefix_len) {
                lemma_block_is_wf(addr, t.prefix_len);
            }
        }
        Ipv4Cidr {
            first_addr: addr & mask,
            last_addr: (addr & mask) | !mask,
            addr,
            netmask: t.prefix_len,
        }
    }
}

/// Computes the network mask of a prefix length.
fn mask_bits(prefix: u8) -> (r: u32)
    requires
        prefix <= 32,
    ensures
        r == netmask_of(prefix),
{
    if prefix == 0 {
        0
    } else {
        let shift: u32 = (32 - prefix) as u32;
        0xFFFF_FFFFu32 << shift
    }
}

/// A block's first address has no bit outside the mask, and the block spans `2^(32 - prefix)`
/// addresses.
pub proof fn lemma_block_is_wf(base: Ipv4Addr, prefix: u8)
    requires
        prefix <= 32,
    ensures
        ({
            let m = netmask_of(prefix);
            let first = base & m;
            let last = first | !m;
            &&& first & m == first
            &&& first <= base <= last
            &&& last - first == pow2((32 - prefix) as nat) - 1
        }),
{
    let m = netmask_of(prefix);
    let first = base & m;
    let last = first | !m;
    let shift: u32 = (32u8 - prefix) as u32;
    if prefix == 0 {
        assert(base & 0u32 == 0u32) by (bit_vector);
        assert(0u32 & 0u32 == 0u32) by (bit_vector);
        assert(0u32 | !0u32 == 0xFFFF_FFFFu32) by (bit_vector);
        vstd::arithmetic::power2::lemma2_to64();
    } else {
        assert(m == 0xFFFF_FFFFu32 << shift);
        assert((base & m) & m == base & m) by (bit_vector);
        assert(base & m <= base) by (bit_vector);
        assert(base <= (base & m) | !m) by (bit_vector);
        assert(((base & m) | !m) - (base & m) == (1u64 << (shift as u64)) - 1) by (bit_vector)
            requires
                shift < 32,
                m == 0xFFFF_FFFFu32 << shift,
        ;
        vstd::bits::lemma_u64_pow2_no_overflow(shift as nat);
        vstd::bits::lemma_u64_shl_is_mul(1u64, shift as u64);
    }
}

/// Every address that the walk yields lies in the block, above the cursor and in rising order.
/// After a reset the walk yields all addresses of the block but the first, up to and including
/// the last: `2^(32 - prefix) - 1` of them.
pub proof fn lemma_walk_covers_block(c: Ipv4Cidr)
    requires
        c.wf(),
    ensures
        forall|i: int|
            0 <= i < c.remaining().len() ==> c.first() <= #[trigger] c.remaining()[i] <= c.last(),
        forall|i: int|
            0 <= i < c.remaining().len() ==> #[trigger] c.remaining()[i] == c.cursor() + 1 + i,
        c.cursor() == c.first() ==> c.remaining().len() == pow2((32 - c.prefix()) as nat) - 1,
        c.cursor() == c.first() ==> !c.remaining().contains(c.first()),
        c.remaining().len() > 0 ==> c.remaining().last() == c.last(),
{
    lemma_block_is_wf(c.first(), c.prefix());
}

/// Why a text is not an address block in `a.b.c.d/n` form.
#[derive(Clone, Copy, Debug, PartialEq, Eq, Structural)]
pub enum ParseError {
    /// There is no `/`, or nothing stands before or after the first one.
    Format,
    /// The prefix length is not a decimal number of 8 bits.
    Netmask,
    /// The prefix length is larger than 32.
    NetmaskTooLarge,
    /// The address does not have four parts.
    OctetCount,
    /// A part of the address is not a decimal number of 8 bits.
    Octet,
}

/// A decimal digit.
pub open spec fn is_digit(c: char) -> bool {
    '0' <= c <= '9'
}

/// The number that a text of decimal digits stands for.
pub open spec fn decimal_value(t: Seq<char>) -> nat
    decreases t.len(),
{
    if t.len() == 0 {
        0
    } else {
        decimal_value(t.drop_last()) * 10 + (t.last() as u32 - '0' as u32) as nat
    }
}

/// Whether a text holds decimal digits only.
pub open spec fn all_digits(t: Seq<char>) -> bool {
    forall|i: int| 0 <= i < t.len() ==> is_digit(#[trigger] t[i])
}

/// The 8-bit number that a text of digits stands for: at least one decimal digit, leading zeros
/// allowed, and a value of at most 255.
pub open spec fn u8_of_digits(digits: Seq<char>) -> Option<u8> {
    if digits.len() > 0 && all_digits(digits) && decimal_value(digits) <= 255 {
        Some(decimal_value(digits) as u8)
    } else {
        None
    }
}

/// The 8-bit number that a text stands for: an optional `+`, then digits as for
/// [`u8_of_digits`].
pub open spec fn u8_of_text(t: Seq<char>) -> Option<u8> {
    if t.len() > 0 && t[0] == '+' {
        u8_of_digits(t.drop_first())
    } else {
        u8_of_digits(t)
    }
}

/// The pieces of a text between the occurrences of a separator: one more than there are
/// separators, some of them possibly empty.
pub open spec fn split_on(t: Seq<char>, sep: char) -> Seq<Seq<char>>
    decreases t.len(),
{
    if t.len() == 0 {
        seq![Seq::<char>::empty()]
    } else {
        let before = split_on(t.drop_last(), sep);
        if t.last() == sep {
            before.push(Seq::<char>::empty())
        } else {
            before.update(before.len() - 1, before.last().push(t.last()))
        }
    }
}

/// The text before the first `/` and the text after it, where there is a first `/` and neither
/// side is empty.
pub open spec fn split_at_slash(t: Seq<char>) -> Option<(Seq<char>, Seq<char>)> {
    if exists|p: int| 0 <= p < t.len() && t[p] == '/' {
        let p = choose|p: int|
            0 <= p < t.len() && t[p] == '/' && forall|q: int| 0 <= q < p ==> t[q] != '/';
        if p == 0 || p + 1 == t.len() {
            None
        } else {
            Some((t.subrange(0, p), t.subrange(p + 1, t.len() as int)))
        }
    } else {
        None
    }
}

/// The address `a.b.c.d` as a number.
pub open spec fn addr_of_octets(a: u8, b: u8, c: u8, d: u8) -> Ipv4Addr {
    (a * 0x100_0000 + b * 0x1_0000 + c * 0x100 + d) as u32
}

/// The address and the prefix length that a text in `a.b.c.d/n` form stands for. The prefix
/// length is judged first, then the number of parts of the address, then each part.
pub open spec fn cidr_of_text(t: Seq<char>) -> Result<(Ipv4Addr, u8), ParseError> {
    match split_at_slash(t) {
        None => Err(ParseError::Format),
        Some((ip, mask)) => match u8_of_text(mask) {
            None => Err(ParseError::Netmask),
            Some(prefix) => {
                let parts = split_on(ip, '.');
                if prefix > 32 {
                    Err(ParseError::NetmaskTooLarge)
                } else if parts.len() != 4 {
                    Err(ParseError::OctetCount)
                } else {
                    match (
                        u8_of_text(parts[0]),
                        u8_of_text(parts[1]),
                        u8_of_text(parts[2]),
                        u8_of_text(parts[3]),
                    ) {
                        (Some(a), Some(b), Some(c), Some(d)) => Ok(
                            (addr_of_octets(a, b, c, d), prefix),
                        ),
                        _ => Err(ParseError::Octet),
                    }
                }
            },
        },
    }
}

/// Reads the characters `lo..hi` of `s` as an 8-bit decimal number.
fn parse_u8(s: &str, lo: usize, hi: usize) -> (r: Option<u8>)
    requires
        lo <= hi <= s@.len(),
    ensures
        r == u8_of_text(s@.subrange(lo as int, hi as int)),
{
    let ghost t = s@.subrange(lo as int, hi as int);
    let mut i: usize = lo;
    if lo < hi && s.get_char(lo) == '+' {
        i = lo + 1;
    }
    let start: usize = i;
    let ghost digits = s@.subrange(start as int, hi as int);
    assert(digits =~= if t.len() > 0 && t[0] == '+' {
        t.drop_first()
    } else {
        t
    });
    if start >= hi {
        return None;
    }
    let mut acc: u32 = 0;
    while i < hi
        invariant
            lo <= start <= i <= hi <= s@.len(),
            digits == s@.subrange(start as int, hi as int),
            t == s@.subrange(lo as int, hi as int),
            u8_of_text(t) == u8_of_digits(digits),
            forall|k: int| start <= k < i ==> is_digit(#[trigger] s@[k]),
            acc <= 256,
            acc == if decimal_value(s@.subrange(start as int, i as int)) > 255 {
                256
            } else {
                decimal_value(s@.subrange(start as int, i as int))
            },
        decreases hi - i,
    {
        let c = s.get_char(i);
        if !('0' <= c && c <= '9') {
            assert(digits[i - start] == c);
            assert(!is_digit(digits[i - start]));
            return None;
        }
        let d: u32 = c as u32 - '0' as u32;
        assert(s@.subrange(start as int, i + 1).drop_last() =~= s@.subrange(
            start as int,
            i as int,
        ));
        acc = acc * 10 + d;
        if acc > 255 {
            acc = 256;
        }
        i += 1;
    }
    assert(s@.subrange(start as int, i as int) == digits);
    assert(all_digits(digits)) by {
        assert forall|k: int| 0 <= k < digits.len() implies is_digit(#[trigger] digits[k]) by {
            assert(digits[k] == s@[start + k]);
        }
    }
    if acc > 255 {
        None
    } else {
        Some(acc as u8)
    }
}

/// Cuts a text in two at its first `/`; `None` where there is none or a side is empty.
pub fn split_ip_netmask(input: &str) -> (r: Option<(&str, &str)>)
    ensures
        match r {
            Some((ip, mask)) => split_at_slash(input@) == Some((ip@, mask@)),
            None => split_at_slash(input@).is_none(),
        },
{
    let n = input.unicode_len();
    let mut p: usize = 0;
    while p < n && input.get_char(p) != '/'
        invariant
            p <= n,
            n == input@.len(),
            forall|q: int| 0 <= q < p ==> input@[q] != '/',
        decreases n - p,
    {
        p += 1;
    }
    if p >= n {
        return None;
    }
    proof {
        let w = choose|w: int|
            0 <= w < input@.len() && input@[w] == '/' && forall|q: int|
                0 <= q < w ==> input@[q] != '/';
        assert(w == p);
    }
    if p == 0 || p + 1 == n {
        None
    } else {
        Some((input.substring_char(0, p), input.substring_char(p + 1, n)))
    }
}

/// Reads each piece between the dots of `s` as an 8-bit decimal number.
fn parse_octets(s: &str) -> (r: Vec<Option<u8>>)
    ensures
        r@.len() == split_on(s@, '.').len(),
        forall|j: int| 0 <= j < r@.len() ==> r@[j] == u8_of_text(#[trigger] split_on(s@, '.')[j]),
{
    let n = s.unicode_len();
    let mut parsed: Vec<Option<u8>> = Vec::new();
    let mut start: usize = 0;
    let mut i: usize = 0;
    assert(s@.take(0) =~= Seq::<char>::empty());
    assert(s@.subrange(0, 0) =~= Seq::<char>::empty());
    while i < n
        invariant
            start <= i <= n,
            n == s@.len(),
            parsed@.len() <= i,
            parsed@.len() + 1 == split_on(s@.take(i as int), '.').len(),
            forall|j: int|
                0 <= j < parsed@.len() ==> parsed@[j] == u8_of_text(
                    #[trigger] split_on(s@.take(i as int), '.')[j],
                ),
            split_on(s@.take(i as int), '.').last() == s@.subrange(start as int, i as int),
        decreases n - i,
    {
        let c = s.get_char(i);
        assert(s@.take(i + 1).drop_last() =~= s@.take(i as int));
        assert(s@.take(i + 1).last() == c);
        if c == '.' {
            let piece = parse_u8(s, start, i);
            parsed.push(piece);
            start = i + 1;
            assert(s@.subrange(i + 1, i + 1) =~= Seq::<char>::empty());
        } else {
            assert(s@.subrange(start as int, i as int).push(c) =~= s@.subrange(
                start as int,
                i + 1,
            ));
        }
        i += 1;
    }
    assert(s@.take(n as int) =~= s@);
    let piece = parse_u8(s, start, n);
    parsed.push(piece);
    parsed
}

/// Joins four octets into an address.
fn join_octets(a: u8, b: u8, c: u8, d: u8) -> (r: Ipv4Addr)
    ensures
        r == addr_of_octets(a, b, c, d),
{
    let r: u32 = ((a as u32) << 24) | ((b as u32) << 16) | ((c as u32) << 8) | (d as u32);
    assert(r == a * 0x100_0000 + b * 0x1_0000 + c * 0x100 + d) by (bit_vector)
        requires
            r == ((a as u32) << 24) | ((b as u32) << 16) | ((c as u32) << 8) | (d as u32),
    ;
    r
}

impl Ipv4Cidr {
    /// Reads a block in `a.b.c.d/n` form. The cursor starts on the address as written.
    pub fn from_str(s: &str) -> (r: Result<Self, ParseError>)
        ensures
            r matches Ok(c) ==> cidr_of_text(s@) matches Ok(v) && c.covers(v.0, v.1, v.0) && c.wf(),
            r matches Err(e) ==> cidr_of_text(s@) matches Err(x) && x == e,
    {
        let (addr_str, mask_str) = match split_ip_netmask(s) {
            Some(parts) => parts,
            None => return Err(ParseError::Format),
        };
        let mask_len = mask_str.unicode_len();
        assert(mask_str@.subrange(0, mask_len as int) =~= mask_str@);
        let netmask = match parse_u8(mask_str, 0, mask_len) {
            Some(a) => a,
            None => return Err(ParseError::Netmask),
        };
        if netmask > Ipv4Cidr::max_size() {
            return Err(ParseError::NetmaskTooLarge);
        }
        let octets = parse_octets(addr_str);
        if octets.len() != 4 {
            return Err(ParseError::OctetCount);
        }
        let addr = match (octets[0], octets[1], octets[2], octets[3]) {
            (Some(a), Some(b), Some(c), Some(d)) => join_octets(a, b, c, d),
            _ => return Err(ParseError::Octet),
        };
        Ok(Ipv4Cidr::new(addr, netmask))
    }
}

} // verus!
