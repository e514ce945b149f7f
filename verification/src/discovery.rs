//! Discovery of Tasmota devices: the hosts of a network range, the probe of one
//! host, and the order in which found devices are reported.
//!
//! No addresses are hardcoded: the range is given, or derived from the host's own
//! primary IPv4 address (assuming a `/24`). A host is Tasmota when its `Status 0`
//! reply carries a firmware version.

use vstd::prelude::*;
use crate::error::{Error, ErrorView};
use crate::model::{strings_view, display_name_of, DeviceStatus, DeviceStatusView};
use crate::ops::{needs_labels, status_from_value, status_with_labels};
use crate::parse::{is_tasmota, looks_like_tasmota};
use crate::text::{
    all_digits, char_pos, dec, dec_string, digit_of, digits_value, find_char, is_digit_char, parse_unsigned, parse_unsigned_range, slice_vec, to_chars, views,
};
use crate::transport::{
    copy_credentials, creds_view, Credentials, DeviceAddr, DeviceAddrView, Transport,
};
use crate::json::Json;
use crate::cache::{lemma_text_le_total, lemma_text_le_transitive, text_le, text_le_exec};

verus! {

/// A device found during a scan.
#[derive(Debug)]
pub struct Discovered {
    pub host: String,
    pub status: DeviceStatus,
}

pub struct DiscoveredView {
    pub host: Seq<char>,
    pub status: DeviceStatusView,
}

impl View for Discovered {
    type V = DiscoveredView;

    open spec fn view(&self) -> DiscoveredView {
        DiscoveredView { host: self.host@, status: self.status@ }
    }
}

pub open spec fn found_view(v: Seq<Discovered>) -> Seq<DiscoveredView> {
    v.map_values(|d: Discovered| d@)
}

/// What probing `addr` finds. A device, when the `Status 0` reply is a Tasmota
/// document and its status (with relay labels when it has relays) resolves; nothing,
/// when the request fails, the reply is not Tasmota, or the status does not resolve.
pub open spec fn probe_finds<T: Transport>(t: T, addr: DeviceAddrView, r: Option<DiscoveredView>) -> bool {
    match r {
        Some(d) => d.host == addr.host && exists|v: Json, labels: Result<Json, ErrorView>|
            t.answers(addr, "Status 0"@, Ok(v)) && is_tasmota(v) && (needs_labels(addr.host, v)
                ==> t.answers(addr, "StateText"@, labels)) && #[trigger] status_with_labels(
                addr.host,
                v,
                labels,
            ) == Ok::<DeviceStatusView, ErrorView>(d.status),
        None => {
            ||| exists|e: ErrorView| #[trigger] t.answers(addr, "Status 0"@, Err(e))
            ||| exists|v: Json| #[trigger] t.answers(addr, "Status 0"@, Ok(v)) && !is_tasmota(v)
            ||| exists|v: Json, labels: Result<Json, ErrorView>|
                t.answers(addr, "Status 0"@, Ok(v)) && is_tasmota(v) && (needs_labels(addr.host, v)
                    ==> t.answers(addr, "StateText"@, labels)) && #[trigger] status_with_labels(
                    addr.host,
                    v,
                    labels,
                ) is Err
        },
    }
}

pub open spec fn opt_found(r: Option<Discovered>) -> Option<DiscoveredView> {
    match r {
        Some(d) => Some(d@),
        None => None,
    }
}

/// Probes one host: asks for `Status 0` and, when the reply looks like Tasmota,
/// resolves the device's status. Unreachable hosts and other devices give `None`
/// (a scan expects most addresses to be empty).
pub fn probe<T: Transport>(t: &T, host: &str, credentials: &Option<Credentials>) -> (r: Option<
    Discovered,
>)
    ensures
        probe_finds(
            *t,
            DeviceAddrView { host: host@, credentials: creds_view(*credentials) },
            opt_found(r),
        ),
{
    let addr = DeviceAddr::new(host).with_credentials(copy_credentials(credentials));
    let value = t.command(&addr, "Status 0");
    match value {
        Err(e) => {
            assert(t.answers(addr@, "Status 0"@, Err(e@)));
            None
        },
        Ok(v) => {
            assert(t.answers(addr@, "Status 0"@, Ok(v)));
            if !looks_like_tasmota(&v) {
                return None;
            }
            match status_from_value(t, &addr, &v) {
                Ok(status) => Some(Discovered { host: String::from_str(host), status }),
                Err(_) => None,
            }
        },
    }
}

/// The parts of `s` between occurrences of `c` (`str::split`).
pub open spec fn split_on(s: Seq<char>, c: char) -> Seq<Seq<char>>
    decreases s.len(),
{
    let p = char_pos(s, c);
    if p < s.len() {
        seq![s.take(p as int)] + split_on(s.skip(p + 1 as int), c)
    } else {
        seq![s]
    }
}

/// A decimal octet as IPv4 addresses are written: one to three digits, no leading
/// zero, at most 255.
pub open spec fn octet_ok(g: Seq<char>) -> bool {
    &&& 1 <= g.len() <= 3
    &&& all_digits(g)
    &&& (g.len() == 1 || g[0] != '0')
    &&& digits_value(g) <= 255
}

/// The address a dotted-quad text denotes (`Ipv4Addr::from_str`), as a number.
pub open spec fn ipv4_of(s: Seq<char>) -> Option<nat> {
    let g = split_on(s, '.');
    if g.len() == 4 && octet_ok(g[0]) && octet_ok(g[1]) && octet_ok(g[2]) && octet_ok(g[3]) {
        Some(
            digits_value(g[0]) * 16777216 + digits_value(g[1]) * 65536 + digits_value(g[2]) * 256
                + digits_value(g[3]),
        )
    } else {
        None
    }
}

/// The dotted-quad text of an address.
pub open spec fn ip_text(n: nat) -> Seq<char> {
    dec(n / 16777216) + "."@ + dec((n / 65536) % 256) + "."@ + dec((n / 256) % 256) + "."@
        + dec(n % 256)
}

pub open spec fn two_to(n: nat) -> nat
    decreases n,
{
    if n == 0 { 1 } else { 2 * two_to((n - 1) as nat) }
}

pub proof fn lemma_two_to_mono(a: nat, b: nat)
    requires
        a <= b,
    ensures
        two_to(a) <= two_to(b),
    decreases b,
{
    if a < b {
        lemma_two_to_mono(a, (b - 1) as nat);
    }
}

pub proof fn lemma_two_to_bound(k: nat)
    requires
        k <= 16,
    ensures
        1 <= two_to(k) <= 65536,
{
    lemma_two_to_mono(k, 16);
    lemma_two_to_mono(0, k);
    reveal_with_fuel(two_to, 17);
    assert(two_to(16) == 65536);
}

/// The hosts of the network of `base` with prefix length `prefix`: every address
/// but the network and broadcast addresses, or all of them for `/31` and `/32`.
pub open spec fn network_hosts(base: nat, prefix: nat) -> Seq<Seq<char>> {
    let size = two_to((32 - prefix) as nat);
    let network = base - base % size;
    if size <= 2 {
        Seq::new(size, |i: int| ip_text((network + i) as nat))
    } else {
        Seq::new((size - 2) as nat, |i: int| ip_text((network + 1 + i) as nat))
    }
}

/// The candidate hosts of an IPv4 CIDR range, refusing malformed ranges and ranges
/// larger than `/16`.
pub open spec fn cidr_hosts(cidr: Seq<char>) -> Result<Seq<Seq<char>>, ErrorView> {
    let p = char_pos(cidr, '/');
    if p >= cidr.len() {
        Err(ErrorView::Usage("invalid CIDR `"@ + cidr + "` (expected e.g. 192.0.2.0/24)"@))
    } else {
        match ipv4_of(cidr.take(p as int)) {
            None => Err(ErrorView::Usage("invalid IPv4 address in CIDR `"@ + cidr + "`"@)),
            Some(base) => match parse_unsigned(cidr.skip(p + 1 as int), 0xffff_ffff) {
                None => Err(ErrorView::Usage("invalid prefix length in CIDR `"@ + cidr + "`"@)),
                Some(prefix) => if prefix > 32 {
                    Err(ErrorView::Usage("prefix /"@ + dec(prefix) + " out of range"@))
                } else if prefix < 16 {
                    Err(
                        ErrorView::Usage(
                            "refusing to scan a range larger than /16 (got /"@ + dec(prefix)
                                + ")"@,
                        ),
                    )
                } else {
                    Ok(network_hosts(base, prefix))
                },
            },
        }
    }
}

fn split_exec(s: &[char], c: char) -> (r: Vec<Vec<char>>)
    ensures
        views(r@) == split_on(s@, c),
    decreases s.len(),
{
    let p = find_char(s, c);
    let head = slice_vec(s, 0, p);
    assert(head@ == s@.take(p as int));
    if p < s.len() {
        let rest = slice_vec(s, p + 1, s.len());
        assert(rest@ == s@.skip(p + 1));
        let mut tail = split_exec(rest.as_slice(), c);
        let mut r: Vec<Vec<char>> = Vec::new();
        r.push(head);
        let ghost first = r@;
        let ghost tl = tail@;
        r.append(&mut tail);
        assert(r@ == first + tl);
        assert(views(r@) =~= seq![s@.take(p as int)] + split_on(s@.skip(p + 1), c));
        r
    } else {
        let mut r: Vec<Vec<char>> = Vec::new();
        r.push(head);
        assert(s@.take(p as int) =~= s@);
        assert(views(r@) =~= seq![s@]);
        r
    }
}

fn octet_value(g: &[char]) -> (r: Option<u64>)
    ensures
        match r {
            Some(v) => octet_ok(g@) && v == digits_value(g@),
            None => !octet_ok(g@),
        },
{
    if g.len() < 1 || g.len() > 3 {
        return None;
    }
    if g.len() > 1 && g[0] == '0' {
        return None;
    }
    let mut acc: u64 = 0;
    let mut k: usize = 0;
    while k < g.len()
        invariant
            k <= g.len() <= 3,
            all_digits(g@.take(k as int)),
            acc == digits_value(g@.take(k as int)),
            acc < (if k == 0 {
                1int
            } else if k == 1 {
                10int
            } else if k == 2 {
                100int
            } else {
                1000int
            }),
        decreases g.len() - k,
    {
        if !is_digit_char(g[k]) {
            return None;
        }
        assert(g@.take(k + 1).drop_last() =~= g@.take(k as int));
        acc = acc * 10 + digit_of(g[k]) as u64;
        k = k + 1;
    }
    assert(g@.take(g.len() as int) =~= g@);
    if acc > 255 {
        None
    } else {
        Some(acc)
    }
}

/// Parses a dotted-quad IPv4 address.
pub fn parse_ipv4(s: &[char]) -> (r: Option<u64>)
    ensures
        match r {
            Some(v) => ipv4_of(s@) == Some(v as nat),
            None => ipv4_of(s@) is None,
        },
{
    let g = split_exec(s, '.');
    if g.len() != 4 {
        return None;
    }
    assert(g@[0]@ == split_on(s@, '.')[0]);
    assert(g@[1]@ == split_on(s@, '.')[1]);
    assert(g@[2]@ == split_on(s@, '.')[2]);
    assert(g@[3]@ == split_on(s@, '.')[3]);
    let a = octet_value(g[0].as_slice());
    let b = octet_value(g[1].as_slice());
    let c = octet_value(g[2].as_slice());
    let d = octet_value(g[3].as_slice());
    match (a, b, c, d) {
        (Some(a), Some(b), Some(c), Some(d)) => Some(a * 16777216 + b * 65536 + c * 256 + d),
        _ => None,
    }
}

/// The dotted-quad text of an address.
pub fn ip_string(n: u64) -> (r: String)
    ensures
        r@ == ip_text(n as nat),
{
    let mut s = dec_string(n / 16777216);
    s.append(".");
    s.append(dec_string((n / 65536) % 256).as_str());
    s.append(".");
    s.append(dec_string((n / 256) % 256).as_str());
    s.append(".");
    s.append(dec_string(n % 256).as_str());
    s
}

/// Expands an IPv4 CIDR (e.g. `192.0.2.0/24`) into candidate host addresses,
/// excluding the network and broadcast addresses. Bounded to `/16` so a typo cannot
/// enumerate millions of hosts.
pub fn hosts_in_cidr(cidr: &str) -> (r: Result<Vec<String>, Error>)
    ensures
        match r {
            Ok(h) => cidr_hosts(cidr@) == Ok::<Seq<Seq<char>>, ErrorView>(strings_view(h@)),
            Err(e) => cidr_hosts(cidr@) == Err::<Seq<Seq<char>>, ErrorView>(e@),
        },
{
    let cs = to_chars(cidr);
    let p = find_char(cs.as_slice(), '/');
    if p >= cs.len() {
        let mut m = String::from_str("invalid CIDR `");
        m.append(cidr);
        m.append("` (expected e.g. 192.0.2.0/24)");
        return Err(Error::Usage { message: m });
    }
    let addr = slice_vec(cs.as_slice(), 0, p);
    assert(addr@ == cidr@.take(p as int));
    let base = match parse_ipv4(addr.as_slice()) {
        Some(b) => b,
        None => {
            let mut m = String::from_str("invalid IPv4 address in CIDR `");
            m.append(cidr);
            m.append("`");
            return Err(Error::Usage { message: m });
        },
    };
    assert(cs@.subrange(p + 1, cs@.len() as int) == cidr@.skip(p + 1));
    let prefix = match parse_unsigned_range(cs.as_slice(), p + 1, cs.len(), 0xffff_ffffu32) {
        Some(n) => n,
        None => {
            let mut m = String::from_str("invalid prefix length in CIDR `");
            m.append(cidr);
            m.append("`");
            return Err(Error::Usage { message: m });
        },
    };
    if prefix > 32 {
        let mut m = String::from_str("prefix /");
        m.append(dec_string(prefix as u64).as_str());
        m.append(" out of range");
        return Err(Error::Usage { message: m });
    }
    if prefix < 16 {
        let mut m = String::from_str("refusing to scan a range larger than /16 (got /");
        m.append(dec_string(prefix as u64).as_str());
        m.append(")");
        return Err(Error::Usage { message: m });
    }
    let host_bits: u32 = 32 - prefix;
    let mut size: u64 = 1;
    let mut k: u32 = 0;
    while k < host_bits
        invariant
            k <= host_bits <= 16,
            size == two_to(k as nat),
        decreases host_bits - k,
    {
        proof {
            lemma_two_to_bound((k + 1) as nat);
        }
        assert(two_to((k + 1) as nat) == 2 * two_to(k as nat));
        size = size * 2;
        k = k + 1;
    }
    proof {
        lemma_two_to_bound(host_bits as nat);
    }
    let rem: u64 = base % size;
    assert(rem <= base) by (nonlinear_arith)
        requires
            size > 0,
            rem == base % size,
    ;
    let network: u64 = base - rem;
    let ghost spec_hosts = network_hosts(base as nat, prefix as nat);
    let mut hosts: Vec<String> = Vec::new();
    let (first, count): (u64, u64) = if size <= 2 {
        (0, size)
    } else {
        (1, size - 2)
    };
    let mut i: u64 = 0;
    while i < count
        invariant
            i <= count,
            base < 0x1_0000_0000,
            network <= base,
            count <= size <= 65536,
            first <= 1,
            spec_hosts == (if size <= 2 {
                Seq::new(size as nat, |j: int| ip_text((network + j) as nat))
            } else {
                Seq::new((size - 2) as nat, |j: int| ip_text((network + 1 + j) as nat))
            }),
            size <= 2 ==> first == 0 && count == size,
            size > 2 ==> first == 1 && count == size - 2,
            strings_view(hosts@) == spec_hosts.take(i as int),
        decreases count - i,
    {
        let h = ip_string(network + first + i);
        assert(spec_hosts[i as int] == h@);
        let ghost before = hosts@;
        hosts.push(h);
        assert(strings_view(hosts@) =~= spec_hosts.take(i + 1)) by {
            assert(hosts@ == before.push(h));
            assert(spec_hosts.len() == count);
            assert(strings_view(before).len() == before.len());
            assert(before.len() == i);
            assert forall|j: int| 0 <= j < i + 1 implies strings_view(hosts@)[j] == spec_hosts.take(
                i + 1,
            )[j] by {
                if j < i {
                    assert(strings_view(before)[j] == spec_hosts.take(i as int)[j]);
                    assert(hosts@[j] == before[j]);
                } else {
                    assert(hosts@[j] == h);
                }
            }
        }
        i = i + 1;
    }
    assert(spec_hosts.take(count as int) =~= spec_hosts);
    Ok(hosts)
}

/// Number of leading found devices whose display name is at most `name`.
pub open spec fn found_pos(s: Seq<DiscoveredView>, name: Seq<char>) -> nat
    decreases s.len(),
{
    if s.len() == 0 || !text_le(display_name_of(s[0].status), name) {
        0
    } else {
        1 + found_pos(s.drop_first(), name)
    }
}

/// Found devices in the order they are reported: stably sorted by display name.
pub open spec fn sort_found(s: Seq<DiscoveredView>) -> Seq<DiscoveredView>
    decreases s.len(),
{
    if s.len() == 0 {
        Seq::empty()
    } else {
        let init = sort_found(s.drop_last());
        init.insert(found_pos(init, display_name_of(s.last().status)) as int, s.last())
    }
}

proof fn lemma_found_pos(s: Seq<DiscoveredView>, name: Seq<char>, p: int)
    requires
        0 <= p <= s.len(),
        forall|j: int| 0 <= j < p ==> text_le(display_name_of((#[trigger] s[j]).status), name),
        p == s.len() || !text_le(display_name_of(s[p].status), name),
    ensures
        found_pos(s, name) == p,
    decreases p,
{
    if p > 0 {
        lemma_found_pos(s.drop_first(), name, p - 1);
    }
}

/// Orders found devices by display name, keeping the probe order among equal names.
pub fn sort_discovered(v: Vec<Discovered>) -> (r: Vec<Discovered>)
    ensures
        found_view(r@) == sort_found(found_view(v@)),
{
    let ghost orig = v@;
    let n: usize = v.len();
    let mut rest = v;
    let mut r: Vec<Discovered> = Vec::new();
    let mut i: usize = 0;
    while rest.len() > 0
        invariant
            i + rest@.len() == orig.len(),
            orig.len() == n,
            rest@ == orig.skip(i as int),
            found_view(r@) == sort_found(found_view(orig.take(i as int))),
        decreases rest.len(),
    {
        let x = rest.remove(0);
        assert(x == orig[i as int]);
        assert(rest@ =~= orig.skip(i + 1));
        let xn = to_chars(x.status.display_name());
        let mut p: usize = 0;
        while p < r.len() && text_le_exec(
            to_chars(r[p].status.display_name()).as_slice(),
            xn.as_slice(),
        )
            invariant
                p <= r.len(),
                xn@ == display_name_of(x.status@),
                forall|j: int|
                    0 <= j < p ==> text_le(
                        display_name_of((#[trigger] r@[j]).status@),
                        display_name_of(x.status@),
                    ),
            decreases r.len() - p,
        {
            p = p + 1;
        }
        proof {
            let rv = found_view(r@);
            assert forall|j: int| 0 <= j < p implies text_le(
                display_name_of((#[trigger] rv[j]).status),
                display_name_of(x.status@),
            ) by {
                assert(rv[j] == r@[j]@);
            }
            if p < r.len() {
                assert(rv[p as int] == r@[p as int]@);
            }
            lemma_found_pos(rv, display_name_of(x.status@), p as int);
            assert(found_view(orig.take(i + 1)).drop_last() =~= found_view(orig.take(i as int)));
            assert(found_view(orig.take(i + 1)).last() == orig[i as int]@);
        }
        let ghost old_r = r@;
        let ghost xv = x@;
        r.insert(p, x);
        assert(found_view(r@) =~= found_view(old_r).insert(p as int, xv));
        i = i + 1;
    }
    assert(orig.take(orig.len() as int) =~= orig);
    r
}

/// The default scan range derived from the host's own IPv4 address: the `/24` it
/// lies in.
pub fn cidr_from_octets(a: u8, b: u8, c: u8) -> (r: String)
    ensures
        r@ == dec(a as nat) + "."@ + dec(b as nat) + "."@ + dec(c as nat) + ".0/24"@,
{
    let mut s = dec_string(a as u64);
    s.append(".");
    s.append(dec_string(b as u64).as_str());
    s.append(".");
    s.append(dec_string(c as u64).as_str());
    s.append(".0/24");
    s
}

/// Whether found devices are in display-name order.
pub open spec fn found_ordered(s: Seq<DiscoveredView>) -> bool {
    forall|i: int, j: int|
        0 <= i < j < s.len() ==> text_le(
            display_name_of((#[trigger] s[i]).status),
            display_name_of((#[trigger] s[j]).status),
        )
}

proof fn lemma_found_pos_split(s: Seq<DiscoveredView>, name: Seq<char>)
    requires
        found_ordered(s),
    ensures
        found_pos(s, name) <= s.len(),
        forall|j: int| 0 <= j < found_pos(s, name) ==> text_le(display_name_of((#[trigger] s[j]).status), name),
        forall|j: int|
            found_pos(s, name) <= j < s.len() ==> !text_le(display_name_of((#[trigger] s[j]).status), name),
    decreases s.len(),
{
    if s.len() > 0 {
        if text_le(display_name_of(s[0].status), name) {
            let t = s.drop_first();
            assert forall|i: int, j: int| 0 <= i < j < t.len() implies text_le(
                display_name_of((#[trigger] t[i]).status),
                display_name_of((#[trigger] t[j]).status),
            ) by {
                assert(t[i] == s[i + 1] && t[j] == s[j + 1]);
            }
            lemma_found_pos_split(t, name);
            assert forall|j: int| 0 <= j < found_pos(s, name) implies text_le(
                display_name_of((#[trigger] s[j]).status),
                name,
            ) by {
                if j > 0 {
                    assert(s[j] == t[j - 1]);
                }
            }
            assert forall|j: int| found_pos(s, name) <= j < s.len() implies !text_le(
                display_name_of((#[trigger] s[j]).status),
                name,
            ) by {
                assert(s[j] == t[j - 1]);
            }
        } else {
            assert forall|j: int| 0 <= j < s.len() implies !text_le(
                display_name_of((#[trigger] s[j]).status),
                name,
            ) by {
                if j > 0 && text_le(display_name_of(s[j].status), name) {
                    assert(text_le(display_name_of(s[0].status), display_name_of(s[j].status)));
                    lemma_text_le_transitive(
                        display_name_of(s[0].status),
                        display_name_of(s[j].status),
                        name,
                    );
                }
            }
        }
    }
}

/// Found devices are reported in display-name order, each exactly once: sorting
/// keeps every device and adds none.
pub proof fn found_devices_are_ordered(s: Seq<DiscoveredView>)
    ensures
        found_ordered(sort_found(s)),
        sort_found(s).to_multiset() == s.to_multiset(),
    decreases s.len(),
{
    broadcast use vstd::seq_lib::group_to_multiset_ensures;

    if s.len() == 0 {
        assert(sort_found(s) =~= s);
    } else {
        let init = sort_found(s.drop_last());
        found_devices_are_ordered(s.drop_last());
        let x = s.last();
        let k = display_name_of(x.status);
        lemma_found_pos_split(init, k);
        let p = found_pos(init, k) as int;
        let t = init.insert(p, x);
        assert(sort_found(s) == t);
        assert forall|i: int, j: int| 0 <= i < j < t.len() implies text_le(
            display_name_of((#[trigger] t[i]).status),
            display_name_of((#[trigger] t[j]).status),
        ) by {
            if j < p {
                assert(t[i] == init[i] && t[j] == init[j]);
            } else if j == p {
                assert(t[i] == init[i]);
            } else if i < p {
                assert(t[i] == init[i] && t[j] == init[j - 1]);
            } else if i == p {
                assert(t[j] == init[j - 1]);
                lemma_text_le_total(display_name_of(init[j - 1].status), k);
            } else {
                assert(t[i] == init[i - 1] && t[j] == init[j - 1]);
            }
        }
        vstd::seq_lib::to_multiset_insert(init, p, x);
        vstd::seq_lib::to_multiset_build(s.drop_last(), x);
        assert(s.drop_last().push(x) =~= s);
    }
}

/// The size of a scan: a `/p` range holds `2^(32-p)` addresses; without the network
/// and broadcast addresses that leaves `2^(32-p) - 2` hosts, except for `/31` and
/// `/32`, which keep every address. No range has more than 65534 hosts.
pub proof fn scan_size(cidr: Seq<char>)
    ensures
        cidr_hosts(cidr) matches Ok(hs) ==> {
            let prefix = parse_unsigned(cidr.skip((char_pos(cidr, '/') + 1) as int), 0xffff_ffff)->0;
            &&& 16 <= prefix <= 32
            &&& hs.len() == if prefix >= 31 {
                two_to((32 - prefix) as nat)
            } else {
                (two_to((32 - prefix) as nat) - 2) as nat
            }
            &&& 1 <= hs.len() <= 65534
        },
{
    if let Ok(hs) = cidr_hosts(cidr) {
        let prefix = parse_unsigned(cidr.skip((char_pos(cidr, '/') + 1) as int), 0xffff_ffff)->0;
        lemma_two_to_bound((32 - prefix) as nat);
        if prefix <= 30 {
            lemma_two_to_mono(2, (32 - prefix) as nat);
            reveal_with_fuel(two_to, 3);
        } else if prefix == 31 {
            reveal_with_fuel(two_to, 2);
        }
        if prefix == 16 {
            reveal_with_fuel(two_to, 17);
            assert(two_to(16) == 65536);
        } else {
            lemma_two_to_mono((32 - prefix) as nat, 15);
            reveal_with_fuel(two_to, 16);
            assert(two_to(15) == 32768);
        }
    }
}

} // verus!
