//! Addresses, address ranges, and which address a request comes from.

use crate::text;
use crate::text::{chars_of, text_between};
use vstd::arithmetic::power2::*;
use vstd::prelude::*;

verus! {

/// An address, as the number that its bits make.
#[derive(Debug, Clone, Copy, PartialEq, Eq, Structural)]
pub enum IpAddr {
    V4(u32),
    V6(u128),
}

/// A range of addresses: those that share the first `prefix` bits with `addr`.
#[derive(Debug, Clone, Copy, PartialEq, Eq, Structural)]
pub struct IpNet {
    pub addr: IpAddr,
    pub prefix: u8,
}

impl IpNet {
    /// The prefix is no longer than an address.
    pub open spec fn valid(self) -> bool {
        match self.addr {
            IpAddr::V4(_) => self.prefix <= 32,
            IpAddr::V6(_) => self.prefix <= 128,
        }
    }

    /// Does the range hold the address? Addresses of the other family are outside.
    pub open spec fn holds(self, ip: IpAddr) -> bool {
        match (self.addr, ip) {
            (IpAddr::V4(a), IpAddr::V4(b)) => same_prefix(32, self.prefix as nat, a as nat, b as nat),
            (IpAddr::V6(a), IpAddr::V6(b)) => same_prefix(
                128,
                self.prefix as nat,
                a as nat,
                b as nat,
            ),
            _ => false,
        }
    }
}

/// Do the first `prefix` of `width` bits of the two numbers agree?
pub open spec fn same_prefix(width: nat, prefix: nat, a: nat, b: nat) -> bool {
    let unit = pow2((width - prefix) as nat);
    a / unit == b / unit
}

/// What `ipnet` reads from a text as an address range.
pub uninterp spec fn read_net(s: Seq<char>) -> Option<IpNet>;

/// What std reads from a text as an address.
pub uninterp spec fn read_ip(s: Seq<char>) -> Option<IpAddr>;

/// How std writes an address.
pub uninterp spec fn ip_display(ip: IpAddr) -> Seq<char>;

/// The address range that the text names (`ipnet::IpNet`'s `FromStr`), its address as it stands and
/// its prefix length, which is no longer than the address.
#[verifier::external_body]
fn parse_net(s: &str) -> (r: Option<IpNet>)
    ensures
        r == read_net(s@),
        r matches Some(net) ==> net.valid(),
{
    match s.parse::<ipnet::IpNet>().ok()? {
        ipnet::IpNet::V4(n) => Some(
            IpNet { addr: IpAddr::V4(n.addr().into()), prefix: n.prefix_len() },
        ),
        ipnet::IpNet::V6(n) => Some(
            IpNet { addr: IpAddr::V6(n.addr().into()), prefix: n.prefix_len() },
        ),
    }
}

/// The address that the text names (the `FromStr` of std's address type, which `ipnet::IpNet::new`
/// takes in).
#[verifier::external_body]
fn parse_ip(s: &str) -> (r: Option<IpAddr>)
    ensures
        r == read_ip(s@),
{
    match ipnet::IpNet::new(s.parse().ok()?, 0).ok()? {
        ipnet::IpNet::V4(n) => Some(IpAddr::V4(n.addr().into())),
        ipnet::IpNet::V6(n) => Some(IpAddr::V6(n.addr().into())),
    }
}

/// The address in text (the `Display` of std's address types, which `ipnet`'s ranges hold).
#[verifier::external_body]
pub(crate) fn ip_text(ip: IpAddr) -> (r: String)
    ensures
        r@ == ip_display(ip),
{
    match ip {
        IpAddr::V4(a) => ipnet::Ipv4Net::new_assert(a.into(), 32).addr().to_string(),
        IpAddr::V6(a) => ipnet::Ipv6Net::new_assert(a.into(), 128).addr().to_string(),
    }
}

/// Does the range hold the address (`ipnet::Ipv4Net`'s `contains`)?
#[verifier::external_body]
fn v4_contains(addr: u32, prefix: u8, ip: u32) -> (r: bool)
    requires
        prefix <= 32,
    ensures
        r == same_prefix(32, prefix as nat, addr as nat, ip as nat),
{
    let single = ipnet::Ipv4Net::new_assert(ip.into(), 32);
    ipnet::Ipv4Net::new_assert(addr.into(), prefix).contains(&single.addr())
}

/// Does the range hold the address (`ipnet::Ipv6Net`'s `contains`)?
#[verifier::external_body]
fn v6_contains(addr: u128, prefix: u8, ip: u128) -> (r: bool)
    requires
        prefix <= 128,
    ensures
        r == same_prefix(128, prefix as nat, addr as nat, ip as nat),
{
    let single = ipnet::Ipv6Net::new_assert(ip.into(), 128);
    ipnet::Ipv6Net::new_assert(addr.into(), prefix).contains(&single.addr())
}

/// Does the range hold the address?
pub fn contains(net: IpNet, ip: IpAddr) -> (r: bool)
    requires
        net.valid(),
    ensures
        r == net.holds(ip),
{
    match (net.addr, ip) {
        (IpAddr::V4(a), IpAddr::V4(b)) => v4_contains(a, net.prefix, b),
        (IpAddr::V6(a), IpAddr::V6(b)) => v6_contains(a, net.prefix, b),
        _ => false,
    }
}

/// Does a pattern cover the address, given what it was read as? A range covers what it holds, an
/// address covers itself, and what is neither covers nothing.
pub open spec fn covers(net: Option<IpNet>, exact: Option<IpAddr>, ip: IpAddr) -> bool {
    match net {
        Some(net) => net.holds(ip),
        None => exact == Some(ip),
    }
}

/// Does the pattern cover the address?
pub open spec fn pattern_covers(pattern: Seq<char>, ip: IpAddr) -> bool {
    covers(read_net(pattern), read_ip(pattern), ip)
}

/// Does a pattern cover the address, given what it was read as?
pub fn reading_covers(net: Option<IpNet>, exact: Option<IpAddr>, ip: IpAddr) -> (r: bool)
    requires
        net matches Some(n) ==> n.valid(),
    ensures
        r == covers(net, exact, ip),
{
    match net {
        Some(net) => contains(net, ip),
        None => match exact {
            Some(exact) => exact == ip,
            None => false,
        },
    }
}

/// Does one of the patterns cover the address?
pub open spec fn covered(patterns: Seq<Seq<char>>, ip: IpAddr) -> bool {
    exists|i: int| 0 <= i < patterns.len() && pattern_covers(#[trigger] patterns[i], ip)
}

/// Does one of the patterns cover the address?
pub fn any_covers(patterns: &Vec<String>, ip: IpAddr) -> (r: bool)
    ensures
        r == covered(patterns.deep_view(), ip),
{
    let ghost all = patterns.deep_view();
    let mut i: usize = 0;
    while i < patterns.len()
        invariant
            i <= patterns.len(),
            all == patterns.deep_view(),
            forall|j: int| 0 <= j < i ==> !pattern_covers(#[trigger] all[j], ip),
        decreases patterns.len() - i,
    {
        let pattern = patterns[i].as_str();
        if reading_covers(parse_net(pattern), parse_ip(pattern), ip) {
            proof {
                assert(pattern_covers(all[i as int], ip));
            }
            return true;
        }
        proof {
            assert(all[i as int] == pattern@);
        }
        i = i + 1;
    }
    false
}

// ---- The address of the client ----

/// A space or a tab.
pub open spec fn is_blank(c: char) -> bool {
    c == ' ' || c == '\t'
}

/// What stands before the first comma.
pub open spec fn first_entry(header: Seq<char>) -> Seq<char>
    decreases header.len(),
{
    if header.len() == 0 || header[0] == ',' {
        Seq::empty()
    } else {
        seq![header[0]] + first_entry(header.drop_first())
    }
}

/// The text without the blanks at its beginning.
pub open spec fn without_leading_blanks(s: Seq<char>) -> Seq<char>
    decreases s.len(),
{
    if s.len() > 0 && is_blank(s[0]) {
        without_leading_blanks(s.drop_first())
    } else {
        s
    }
}

/// The text without the blanks at its end.
pub open spec fn without_trailing_blanks(s: Seq<char>) -> Seq<char>
    decreases s.len(),
{
    if s.len() > 0 && is_blank(s.last()) {
        without_trailing_blanks(s.drop_last())
    } else {
        s
    }
}

/// The leftmost entry of an `X-Forwarded-For` header, without the blanks around it.
pub open spec fn leftmost(header: Seq<char>) -> Seq<char> {
    without_trailing_blanks(without_leading_blanks(first_entry(header)))
}

/// The leftmost entry of an `X-Forwarded-For` header, without the blanks around it.
pub fn leftmost_entry(header: &str) -> (r: String)
    ensures
        r@ == leftmost(header@),
{
    let chars = chars_of(header);
    let mut end: usize = 0;
    proof {
        assert(header@.skip(0) =~= header@);
        assert(header@.take(0) + first_entry(header@) =~= first_entry(header@));
    }
    while end < chars.len() && chars[end] != ','
        invariant
            end <= chars.len(),
            chars@ == header@,
            header@.take(end as int) + first_entry(header@.skip(end as int)) == first_entry(header@),
        decreases chars.len() - end,
    {
        proof {
            let rest = header@.skip(end as int);
            assert(rest.drop_first() =~= header@.skip(end + 1));
            assert(header@.take(end + 1) =~= header@.take(end as int) + seq![rest[0]]);
            assert(header@.take(end + 1) + first_entry(rest.drop_first()) =~= header@.take(
                end as int,
            ) + (seq![rest[0]] + first_entry(rest.drop_first())));
        }
        end = end + 1;
    }
    proof {
        assert(first_entry(header@.skip(end as int)) =~= Seq::empty());
        assert(header@.take(end as int) =~= first_entry(header@));
        assert(header@.subrange(0, end as int) =~= first_entry(header@));
    }
    let ghost entry = first_entry(header@);
    let mut start: usize = 0;
    while start < end && (chars[start] == ' ' || chars[start] == '\t')
        invariant
            start <= end <= chars.len(),
            chars@ == header@,
            without_leading_blanks(header@.subrange(start as int, end as int))
                == without_leading_blanks(entry),
        decreases end - start,
    {
        proof {
            assert(header@.subrange(start as int, end as int).drop_first() =~= header@.subrange(
                start + 1,
                end as int,
            ));
        }
        start = start + 1;
    }
    let ghost body = header@.subrange(start as int, end as int);
    proof {
        assert(body == without_leading_blanks(entry));
    }
    let mut stop: usize = end;
    while stop > start && (chars[stop - 1] == ' ' || chars[stop - 1] == '\t')
        invariant
            start <= stop <= chars.len(),
            chars@ == header@,
            without_trailing_blanks(header@.subrange(start as int, stop as int))
                == without_trailing_blanks(body),
        decreases stop - start,
    {
        proof {
            assert(header@.subrange(start as int, stop as int).drop_last() =~= header@.subrange(
                start as int,
                stop - 1,
            ));
        }
        stop = stop - 1;
    }
    text_between(&chars, start, stop)
}

/// The address that a request counts as coming from, given what the forwarded header's leftmost
/// entry was read as: that address, if the peer is a trusted proxy; else the peer's own.
pub open spec fn client_of(trusted: bool, peer: IpAddr, forwarded: Option<IpAddr>) -> IpAddr {
    match forwarded {
        Some(ip) => if trusted {
            ip
        } else {
            peer
        },
        None => peer,
    }
}

/// The address in the leftmost entry of a forwarded header.
pub open spec fn forwarded_ip(header: Option<Seq<char>>) -> Option<IpAddr> {
    match header {
        Some(header) => read_ip(leftmost(header)),
        None => None,
    }
}

/// The address that a request counts as coming from.
pub open spec fn client_ip(proxies: Seq<Seq<char>>, peer: IpAddr, header: Option<Seq<char>>) -> IpAddr {
    client_of(covered(proxies, peer), peer, forwarded_ip(header))
}

/// The address that a request counts as coming from: the leftmost one in the forwarded header if
/// the peer is a trusted proxy and there is one, else the peer's own.
pub fn resolve(proxies: &Vec<String>, peer: IpAddr, header: Option<&str>) -> (r: IpAddr)
    ensures
        r == client_ip(proxies.deep_view(), peer, text::option_view(header)),
{
    let forwarded = match header {
        Some(header) => parse_ip(leftmost_entry(header).as_str()),
        None => None,
    };
    choose_client(any_covers(proxies, peer), peer, forwarded)
}

/// The address that a request counts as coming from, given whether the peer is trusted and what the
/// forwarded header's leftmost entry was read as.
pub fn choose_client(trusted: bool, peer: IpAddr, forwarded: Option<IpAddr>) -> (r: IpAddr)
    ensures
        r == client_of(trusted, peer, forwarded),
{
    match forwarded {
        Some(ip) => if trusted {
            ip
        } else {
            peer
        },
        None => peer,
    }
}

/// The header of a peer that is no trusted proxy is not believed: it changes nothing.
pub proof fn untrusted_header_is_ignored(
    proxies: Seq<Seq<char>>,
    peer: IpAddr,
    header: Option<Seq<char>>,
)
    requires
        !covered(proxies, peer),
    ensures
        client_ip(proxies, peer, header) == peer,
{
}

/// Of a trusted proxy's header only the leftmost entry counts.
pub proof fn leftmost_entry_decides(
    proxies: Seq<Seq<char>>,
    peer: IpAddr,
    a: Seq<char>,
    b: Seq<char>,
)
    requires
        leftmost(a) == leftmost(b),
    ensures
        client_ip(proxies, peer, Some(a)) == client_ip(proxies, peer, Some(b)),
{
}

/// A range with the longest prefix holds one address.
pub proof fn longest_prefix_holds_one(net: IpNet, ip: IpAddr)
    requires
        net.prefix == (match net.addr {
            IpAddr::V4(_) => 32u8,
            IpAddr::V6(_) => 128u8,
        }),
    ensures
        net.holds(ip) == (net.addr == ip),
{
    lemma2_to64();
    match (net.addr, ip) {
        (IpAddr::V4(a), IpAddr::V4(b)) => {
            assert(a as nat / pow2(0) == a as nat && b as nat / pow2(0) == b as nat);
        },
        (IpAddr::V6(a), IpAddr::V6(b)) => {
            assert(a as nat / pow2(0) == a as nat && b as nat / pow2(0) == b as nat);
        },
        _ => {},
    }
}

/// A range without a prefix holds every address of its family.
pub proof fn empty_prefix_holds_all(net: IpNet, ip: IpAddr)
    requires
        net.prefix == 0,
    ensures
        net.holds(ip) == (net.addr is V4 == ip is V4),
{
    lemma2_to64();
    match (net.addr, ip) {
        (IpAddr::V4(a), IpAddr::V4(b)) => {
            lemma_below_unit(a as nat, pow2(32));
            lemma_below_unit(b as nat, pow2(32));
        },
        (IpAddr::V6(a), IpAddr::V6(b)) => {
            lemma_pow2_adds(64, 64);
            assert(pow2(128) == 0x1_0000_0000_0000_0000_0000_0000_0000_0000int);
            lemma_below_unit(a as nat, pow2(128));
            lemma_below_unit(b as nat, pow2(128));
        },
        _ => {},
    }
}

proof fn lemma_below_unit(a: nat, unit: nat)
    requires
        a < unit,
    ensures
        a / unit == 0,
{
    vstd::arithmetic::div_mod::lemma_basic_div(a as int, unit as int);
}

/// A trusted proxy's header is believed, whatever address it names.
pub proof fn trusted_header_is_believed(
    proxies: Seq<Seq<char>>,
    peer: IpAddr,
    header: Seq<char>,
    ip: IpAddr,
)
    requires
        covered(proxies, peer),
        read_ip(leftmost(header)) == Some(ip),
    ensures
        client_ip(proxies, peer, Some(header)) == ip,
{
}

/// Without a header, or with one that names no address, a request comes from its peer.
pub proof fn unreadable_header_is_ignored(
    proxies: Seq<Seq<char>>,
    peer: IpAddr,
    header: Option<Seq<char>>,
)
    requires
        header matches Some(header) ==> read_ip(leftmost(header)) is None,
    ensures
        client_ip(proxies, peer, header) == peer,
{
}

/// The text is made of blanks.
pub open spec fn is_blanks(s: Seq<char>) -> bool {
    forall|i: int| 0 <= i < s.len() ==> is_blank(#[trigger] s[i])
}

/// A space and a tab are blanks, and nothing else is.
pub proof fn blanks_are_spaces_and_tabs(c: char)
    ensures
        is_blank(c) <==> c == ' ' || c == '\t',
{
}

proof fn lemma_leading_blanks(before: Seq<char>, s: Seq<char>)
    requires
        is_blanks(before),
        s.len() > 0 ==> !is_blank(s[0]),
    ensures
        without_leading_blanks(before + s) == s,
    decreases before.len(),
{
    if before.len() == 0 {
        assert(before + s =~= s);
    } else {
        assert((before + s)[0] == before[0]);
        assert((before + s).drop_first() =~= before.drop_first() + s);
        assert forall|i: int| 0 <= i < before.drop_first().len() implies is_blank(
            #[trigger] before.drop_first()[i],
        ) by {
            assert(before.drop_first()[i] == before[i + 1]);
        }
        lemma_leading_blanks(before.drop_first(), s);
    }
}

proof fn lemma_trailing_blanks(s: Seq<char>, after: Seq<char>)
    requires
        is_blanks(after),
        s.len() > 0 ==> !is_blank(s.last()),
    ensures
        without_trailing_blanks(s + after) == s,
    decreases after.len(),
{
    if after.len() == 0 {
        assert(s + after =~= s);
    } else {
        assert((s + after).last() == after.last());
        assert((s + after).drop_last() =~= s + after.drop_last());
        assert forall|i: int| 0 <= i < after.drop_last().len() implies is_blank(
            #[trigger] after.drop_last()[i],
        ) by {
            assert(after.drop_last()[i] == after[i]);
        }
        lemma_trailing_blanks(s, after.drop_last());
    }
}

proof fn lemma_first_entry(entry: Seq<char>, rest: Seq<char>)
    requires
        forall|i: int| 0 <= i < entry.len() ==> #[trigger] entry[i] != ',',
        rest.len() > 0 ==> rest[0] == ',',
    ensures
        first_entry(entry + rest) == entry,
    decreases entry.len(),
{
    if entry.len() == 0 {
        assert(entry + rest =~= rest);
        assert(first_entry(rest) =~= entry);
    } else {
        let tail = entry.drop_first();
        assert((entry + rest)[0] == entry[0]);
        assert((entry + rest).drop_first() =~= tail + rest);
        assert forall|i: int| 0 <= i < tail.len() implies #[trigger] tail[i] != ',' by {
            assert(tail[i] == entry[i + 1]);
        }
        lemma_first_entry(tail, rest);
        assert(seq![entry[0]] + tail =~= entry);
    }
}

/// The leftmost entry of a header is what stands before its first comma, or the whole of a header
/// without one, but for the blanks around it.
pub proof fn leftmost_entry_is_read(
    before: Seq<char>,
    entry: Seq<char>,
    after: Seq<char>,
    rest: Seq<char>,
)
    requires
        is_blanks(before),
        is_blanks(after),
        entry.len() > 0,
        !is_blank(entry[0]),
        !is_blank(entry.last()),
        forall|i: int| 0 <= i < entry.len() ==> #[trigger] entry[i] != ',',
        rest.len() > 0 ==> rest[0] == ',',
    ensures
        leftmost(before + entry + after + rest) == entry,
{
    let padded = before + entry + after;
    assert forall|i: int| 0 <= i < padded.len() implies #[trigger] padded[i] != ',' by {
        if i < before.len() {
            assert(padded[i] == before[i] && is_blank(before[i]));
        } else if i < before.len() + entry.len() {
            assert(padded[i] == entry[i - before.len()]);
        } else {
            let k = i - before.len() - entry.len();
            assert(padded[i] == after[k] && is_blank(after[k]));
        }
    }
    lemma_first_entry(padded, rest);
    assert(padded =~= before + (entry + after));
    assert((entry + after)[0] == entry[0]);
    lemma_leading_blanks(before, entry + after);
    lemma_trailing_blanks(entry, after);
}

/// What a pattern covers: a range covers the addresses in it, an address covers itself, and what is
/// neither covers nothing.
pub proof fn patterns_cover_what_they_name(pattern: Seq<char>, net: IpNet, exact: IpAddr, ip: IpAddr)
    ensures
        read_net(pattern) == Some(net) ==> (pattern_covers(pattern, ip) <==> net.holds(ip)),
        read_net(pattern) is None && read_ip(pattern) == Some(exact) ==> (pattern_covers(
            pattern,
            ip,
        ) <==> ip == exact),
        read_net(pattern) is None && read_ip(pattern) is None ==> !pattern_covers(pattern, ip),
{
}

/// One pattern more covers what it covers, and takes nothing away. Without a pattern nothing is
/// covered.
pub proof fn patterns_add_up(patterns: Seq<Seq<char>>, pattern: Seq<char>, ip: IpAddr)
    ensures
        covered(patterns.push(pattern), ip) <==> covered(patterns, ip) || pattern_covers(
            pattern,
            ip,
        ),
        !covered(Seq::empty(), ip),
{
    let more = patterns.push(pattern);
    if covered(patterns, ip) {
        let i = choose|i: int|
            0 <= i < patterns.len() && pattern_covers(#[trigger] patterns[i], ip);
        assert(more[i] == patterns[i]);
    }
    if pattern_covers(pattern, ip) {
        assert(more[patterns.len() as int] == pattern);
    }
    if covered(more, ip) {
        let i = choose|i: int| 0 <= i < more.len() && pattern_covers(#[trigger] more[i], ip);
        if i < patterns.len() {
            assert(patterns[i] == more[i]);
        }
    }
}

/// A range holds its own address. Of the other family it holds none, and of its own it holds those in
/// the block of two to the number of the bits that are left over, in which its address lies.
pub proof fn ranges_are_blocks(net: IpNet, ip: IpAddr)
    requires
        net.valid(),
    ensures
        net.holds(net.addr),
        net.addr is V4 != ip is V4 ==> !net.holds(ip),
        match (net.addr, ip) {
            (IpAddr::V4(a), IpAddr::V4(b)) => net.holds(ip) <==> block_start(
                32,
                net.prefix as nat,
                a as nat,
            ) <= b < block_start(32, net.prefix as nat, a as nat) + pow2((32 - net.prefix) as nat),
            (IpAddr::V6(a), IpAddr::V6(b)) => net.holds(ip) <==> block_start(
                128,
                net.prefix as nat,
                a as nat,
            ) <= b < block_start(128, net.prefix as nat, a as nat) + pow2(
                (128 - net.prefix) as nat,
            ),
            _ => true,
        },
{
    match (net.addr, ip) {
        (IpAddr::V4(a), IpAddr::V4(b)) => {
            lemma_same_block(a as nat, b as nat, (32 - net.prefix) as nat);
        },
        (IpAddr::V6(a), IpAddr::V6(b)) => {
            lemma_same_block(a as nat, b as nat, (128 - net.prefix) as nat);
        },
        _ => {},
    }
}

/// The lowest number that shares the first `prefix` of `width` bits with `a`.
pub open spec fn block_start(width: nat, prefix: nat, a: nat) -> int {
    let unit = pow2((width - prefix) as nat) as int;
    a - a as int % unit
}

proof fn lemma_same_block(a: nat, b: nat, bits: nat)
    ensures
        a / pow2(bits) == b / pow2(bits) <==> a - a as int % (pow2(bits) as int) <= b < a - a as int
            % (pow2(bits) as int) + pow2(bits),
{
    let unit = pow2(bits) as int;
    lemma_pow2_pos(bits);
    vstd::arithmetic::div_mod::lemma_fundamental_div_mod(a as int, unit);
    vstd::arithmetic::div_mod::lemma_fundamental_div_mod(b as int, unit);
    vstd::arithmetic::div_mod::lemma_mod_bound(a as int, unit);
    vstd::arithmetic::div_mod::lemma_mod_bound(b as int, unit);
    let q = a as int / unit;
    let p = b as int / unit;
    assert(unit * q <= b < unit * q + unit <==> q == p) by (nonlinear_arith)
        requires
            unit > 0,
            unit * p <= b < unit * p + unit,
    ;
}

} // verus!
