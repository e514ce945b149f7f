//! The local device cache: names discovered on the network mapped to hosts.
//!
//! Credentials are deliberately not part of a cached device; they are given per
//! invocation. Reading and writing the cache file is done by the command-line tool.

use vstd::prelude::*;
use crate::model::{display_name_of, opt_view, DeviceStatus, DeviceStatusView};
use crate::text::{eq_ic, eq_ic_chars, to_chars};

verus! {

/// One remembered device.
#[derive(Debug, Clone, PartialEq, Eq)]
pub struct CachedDevice {
    pub name: String,
    pub host: String,
    pub module: Option<i64>,
    pub mac: Option<String>,
}

pub struct CachedDeviceView {
    pub name: Seq<char>,
    pub host: Seq<char>,
    pub module: Option<i64>,
    pub mac: Option<Seq<char>>,
}

impl View for CachedDevice {
    type V = CachedDeviceView;

    open spec fn view(&self) -> CachedDeviceView {
        CachedDeviceView { name: self.name@, host: self.host@, module: self.module, mac: opt_view(self.mac) }
    }
}

pub open spec fn devices_view(v: Seq<CachedDevice>) -> Seq<CachedDeviceView> {
    v.map_values(|d: CachedDevice| d@)
}

/// The whole cache.
#[derive(Debug, Clone, Default)]
pub struct DeviceCache {
    pub devices: Vec<CachedDevice>,
}

impl View for DeviceCache {
    type V = Seq<CachedDeviceView>;

    open spec fn view(&self) -> Seq<CachedDeviceView> {
        devices_view(self.devices@)
    }
}

/// Lexicographic order of texts (the order of `str::cmp`: UTF-8 byte order is code
/// point order).
pub open spec fn text_le(a: Seq<char>, b: Seq<char>) -> bool
    decreases a.len(),
{
    if a.len() == 0 {
        true
    } else if b.len() == 0 {
        false
    } else if a[0] != b[0] {
        a[0] < b[0]
    } else {
        text_le(a.drop_first(), b.drop_first())
    }
}

pub(crate) fn text_le_exec(a: &[char], b: &[char]) -> (r: bool)
    ensures
        r == text_le(a@, b@),
{
    let mut i: usize = 0;
    assert(a@.skip(0) =~= a@);
    assert(b@.skip(0) =~= b@);
    while i < a.len() && i < b.len() && a[i] == b[i]
        invariant
            i <= a.len(),
            i <= b.len(),
            text_le(a@, b@) == text_le(a@.skip(i as int), b@.skip(i as int)),
        decreases a.len() - i,
    {
        assert(a@.skip(i as int).drop_first() =~= a@.skip(i + 1));
        assert(b@.skip(i as int).drop_first() =~= b@.skip(i + 1));
        i = i + 1;
    }
    if i == a.len() {
        true
    } else if i == b.len() {
        false
    } else {
        a[i] < b[i]
    }
}

/// Number of leading elements of `s` whose name is at most `name`.
pub open spec fn name_pos(s: Seq<CachedDeviceView>, name: Seq<char>) -> nat
    decreases s.len(),
{
    if s.len() == 0 || !text_le(s[0].name, name) { 0 } else { 1 + name_pos(s.drop_first(), name) }
}

/// The stable sort of devices by name (insertion sort, as `sort_by` orders them).
pub open spec fn sort_by_name(s: Seq<CachedDeviceView>) -> Seq<CachedDeviceView>
    decreases s.len(),
{
    if s.len() == 0 {
        Seq::empty()
    } else {
        let init = sort_by_name(s.drop_last());
        init.insert(name_pos(init, s.last().name) as int, s.last())
    }
}

proof fn lemma_name_pos(s: Seq<CachedDeviceView>, name: Seq<char>, p: int)
    requires
        0 <= p <= s.len(),
        forall|j: int| 0 <= j < p ==> text_le((#[trigger] s[j]).name, name),
        p == s.len() || !text_le(s[p].name, name),
    ensures
        name_pos(s, name) == p,
    decreases p,
{
    if p > 0 {
        lemma_name_pos(s.drop_first(), name, p - 1);
    }
}

fn copy_device(d: &CachedDevice) -> (r: CachedDevice)
    ensures
        r@ == d@,
{
    CachedDevice {
        name: d.name.clone(),
        host: d.host.clone(),
        module: d.module,
        mac: match &d.mac {
            Some(m) => Some(m.clone()),
            None => None,
        },
    }
}

/// Sorts devices by name, keeping the order of devices with equal names.
fn sort_devices(v: Vec<CachedDevice>) -> (r: Vec<CachedDevice>)
    ensures
        devices_view(r@) == sort_by_name(devices_view(v@)),
{
    let mut r: Vec<CachedDevice> = Vec::new();
    let mut i: usize = 0;
    while i < v.len()
        invariant
            i <= v.len(),
            devices_view(r@) == sort_by_name(devices_view(v@.take(i as int))),
        decreases v.len() - i,
    {
        let x = copy_device(&v[i]);
        let xn = to_chars(x.name.as_str());
        let mut p: usize = 0;
        while p < r.len() && text_le_exec(to_chars(r[p].name.as_str()).as_slice(), xn.as_slice())
            invariant
                p <= r.len(),
                xn@ == x.name@,
                forall|j: int| 0 <= j < p ==> text_le((#[trigger] r@[j]).name@, x.name@),
            decreases r.len() - p,
        {
            p = p + 1;
        }
        proof {
            let rv = devices_view(r@);
            assert forall|j: int| 0 <= j < p implies text_le((#[trigger] rv[j]).name, x.name@) by {
                assert(rv[j] == r@[j]@);
            }
            if p < r.len() {
                assert(rv[p as int] == r@[p as int]@);
            }
            lemma_name_pos(rv, x.name@, p as int);
            assert(devices_view(v@.take(i + 1)).drop_last() =~= devices_view(v@.take(i as int)));
            assert(devices_view(v@.take(i + 1)).last() == v@[i as int]@);
        }
        let ghost old_r = r@;
        r.insert(p, x);
        assert(devices_view(r@) =~= devices_view(old_r).insert(p as int, x@));
        i = i + 1;
    }
    assert(v@.take(v.len() as int) =~= v@);
    r
}

/// The first device whose name equals `name` ignoring ASCII case.
pub open spec fn find_by_name(s: Seq<CachedDeviceView>, name: Seq<char>) -> Option<CachedDeviceView>
    decreases s.len(),
{
    if s.len() == 0 {
        None
    } else if eq_ic(s[0].name, name) {
        Some(s[0])
    } else {
        find_by_name(s.drop_first(), name)
    }
}

/// Index of the first device on `host`, or the length when there is none.
pub open spec fn host_pos(s: Seq<CachedDeviceView>, host: Seq<char>) -> nat
    decreases s.len(),
{
    if s.len() == 0 || s[0].host == host { 0 } else { 1 + host_pos(s.drop_first(), host) }
}

/// The devices with `d` put in place of the first device on the same host, or added
/// at the end when no device is on that host, then sorted by name.
pub open spec fn upserted(s: Seq<CachedDeviceView>, d: CachedDeviceView) -> Seq<CachedDeviceView> {
    let p = host_pos(s, d.host);
    sort_by_name(if p < s.len() { s.update(p as int, d) } else { s.push(d) })
}

pub open spec fn entries_of(s: Seq<DeviceStatus>) -> Seq<CachedDeviceView> {
    s.map_values(|x: DeviceStatus| entry_of(x@))
}

/// The cache entry for a device status: its display name, host, module and MAC.
pub open spec fn entry_of(s: DeviceStatusView) -> CachedDeviceView {
    CachedDeviceView { name: display_name_of(s), host: s.host, module: s.module, mac: s.net.mac }
}

proof fn lemma_host_pos(s: Seq<CachedDeviceView>, host: Seq<char>, p: int)
    requires
        0 <= p <= s.len(),
        forall|j: int| 0 <= j < p ==> (#[trigger] s[j]).host != host,
        p == s.len() || s[p].host == host,
    ensures
        host_pos(s, host) == p,
    decreases p,
{
    if p > 0 {
        lemma_host_pos(s.drop_first(), host, p - 1);
    }
}

proof fn lemma_host_pos_ge(s: Seq<CachedDeviceView>, host: Seq<char>, k: int)
    requires
        0 <= k <= s.len(),
        forall|j: int| 0 <= j < k ==> (#[trigger] s[j]).host != host,
    ensures
        host_pos(s, host) >= k,
    decreases k,
{
    if k > 0 {
        lemma_host_pos_ge(s.drop_first(), host, k - 1);
    }
}

impl DeviceCache {
    /// Finds a device by name, ignoring ASCII case.
    pub fn find(&self, name: &str) -> (r: Option<&CachedDevice>)
        ensures
            match r {
                Some(d) => find_by_name(self@, name@) == Some(d@),
                None => find_by_name(self@, name@) is None,
            },
    {
        let n = to_chars(name);
        let mut i: usize = 0;
        assert(self@.skip(0) =~= self@);
        while i < self.devices.len()
            invariant
                i <= self.devices.len(),
                n@ == name@,
                find_by_name(self@, name@) == find_by_name(self@.skip(i as int), name@),
            decreases self.devices.len() - i,
        {
            assert(self@.skip(i as int).drop_first() =~= self@.skip(i + 1));
            assert(self@.skip(i as int)[0] == self.devices@[i as int]@);
            let d = &self.devices[i];
            if eq_ic_chars(to_chars(d.name.as_str()).as_slice(), n.as_slice()) {
                return Some(d);
            }
            i = i + 1;
        }
        None
    }

    /// Inserts or updates a device keyed on host, keeping the devices sorted by name.
    pub fn upsert(&mut self, device: CachedDevice)
        ensures
            final(self)@ == upserted(old(self)@, device@),
    {
        let mut devices: Vec<CachedDevice> = Vec::new();
        let mut i: usize = 0;
        let mut found = false;
        let ghost s = self@;
        let ghost p = host_pos(s, device@.host);
        while i < self.devices.len()
            invariant
                i <= self.devices.len(),
                self@ == s,
                s == old(self)@,
                p == host_pos(s, device@.host),
                found <==> (p < i),
                !found ==> forall|j: int| 0 <= j < i ==> (#[trigger] s[j]).host != device@.host,
                devices_view(devices@) == (if p < s.len() { s.update(p as int, device@) } else {
                    s
                }).take(i as int),
            decreases self.devices.len() - i,
        {
            let d = &self.devices[i];
            assert(s[i as int] == d@);
            if !found && d.host == device.host {
                proof {
                    lemma_host_pos(s, device@.host, i as int);
                }
                let nd = copy_device(&device);
                let ghost before = devices@;
                devices.push(nd);
                assert(devices_view(devices@) =~= devices_view(before).push(nd@));
                found = true;
            } else {
                proof {
                    if !found {
                        lemma_host_pos_ge(s, device@.host, i + 1);
                    }
                }
                let nd = copy_device(d);
                let ghost before = devices@;
                devices.push(nd);
                assert(devices_view(devices@) =~= devices_view(before).push(nd@));
            }
            let ghost target = if p < s.len() { s.update(p as int, device@) } else { s };
            assert(devices_view(devices@) =~= target.take(i + 1));
            i = i + 1;
        }
        if !found {
            proof {
                lemma_host_pos(s, device@.host, s.len() as int);
            }
            let ghost before = devices@;
            let ghost dv = device@;
            devices.push(device);
            assert(devices_view(devices@) =~= devices_view(before).push(dv));
        }
        let ghost target = if p < s.len() { s.update(p as int, device@) } else { s.push(device@) };
        assert(devices_view(devices@) =~= target);
        self.devices = sort_devices(devices);
    }

    /// The cache a discovery scan yields: one entry per status, sorted by name.
    pub fn from_statuses(statuses: &[DeviceStatus]) -> (r: DeviceCache)
        ensures
            r@ == sort_by_name(entries_of(statuses@)),
    {
        let mut devices: Vec<CachedDevice> = Vec::new();
        let mut i: usize = 0;
        while i < statuses.len()
            invariant
                i <= statuses.len(),
                devices_view(devices@) == entries_of(statuses@).take(i as int),
            decreases statuses.len() - i,
        {
            let s = &statuses[i];
            let d = CachedDevice {
                name: String::from_str(s.display_name()),
                host: s.host.clone(),
                module: s.module,
                mac: match &s.net.mac {
                    Some(m) => Some(m.clone()),
                    None => None,
                },
            };
            assert(d@ == entry_of(s@));
            assert(entries_of(statuses@)[i as int] == entry_of(statuses@[i as int]@));
            let ghost before = devices@;
            let ghost dv = d@;
            devices.push(d);
            assert(devices_view(devices@) =~= devices_view(before).push(dv));
            assert(devices_view(devices@) =~= entries_of(statuses@).take(i + 1));
            i = i + 1;
        }
        assert(entries_of(statuses@).take(statuses.len() as int) =~= entries_of(statuses@));
        DeviceCache { devices: sort_devices(devices) }
    }
}

/// `text_le` is total: of two texts one comes first.
pub proof fn lemma_text_le_total(a: Seq<char>, b: Seq<char>)
    ensures
        text_le(a, b) || text_le(b, a),
    decreases a.len(),
{
    if a.len() > 0 && b.len() > 0 && a[0] == b[0] {
        lemma_text_le_total(a.drop_first(), b.drop_first());
    }
}

/// `text_le` is transitive.
pub proof fn lemma_text_le_transitive(a: Seq<char>, b: Seq<char>, c: Seq<char>)
    requires
        text_le(a, b),
        text_le(b, c),
    ensures
        text_le(a, c),
    decreases a.len(),
{
    if a.len() > 0 && b.len() > 0 && c.len() > 0 && a[0] == b[0] && b[0] == c[0] {
        lemma_text_le_transitive(a.drop_first(), b.drop_first(), c.drop_first());
    }
}

/// Whether devices are in name order.
pub open spec fn names_ordered(s: Seq<CachedDeviceView>) -> bool {
    forall|i: int, j: int| 0 <= i < j < s.len() ==> text_le((#[trigger] s[i]).name, (#[trigger] s[j]).name)
}

/// Whether no two devices share a host.
pub open spec fn hosts_unique(s: Seq<CachedDeviceView>) -> bool {
    forall|i: int, j: int| 0 <= i < s.len() && 0 <= j < s.len() && i != j ==> (#[trigger] s[i]).host != (#[trigger] s[j]).host
}

proof fn lemma_name_pos_split(s: Seq<CachedDeviceView>, name: Seq<char>)
    requires
        names_ordered(s),
    ensures
        name_pos(s, name) <= s.len(),
        forall|j: int| 0 <= j < name_pos(s, name) ==> text_le((#[trigger] s[j]).name, name),
        forall|j: int| name_pos(s, name) <= j < s.len() ==> !text_le((#[trigger] s[j]).name, name),
    decreases s.len(),
{
    if s.len() > 0 {
        if text_le(s[0].name, name) {
            let t = s.drop_first();
            assert forall|i: int, j: int| 0 <= i < j < t.len() implies text_le(
                (#[trigger] t[i]).name,
                (#[trigger] t[j]).name,
            ) by {
                assert(t[i] == s[i + 1] && t[j] == s[j + 1]);
            }
            lemma_name_pos_split(t, name);
            assert forall|j: int| 0 <= j < name_pos(s, name) implies text_le(
                (#[trigger] s[j]).name,
                name,
            ) by {
                if j > 0 {
                    assert(s[j] == t[j - 1]);
                }
            }
            assert forall|j: int| name_pos(s, name) <= j < s.len() implies !text_le(
                (#[trigger] s[j]).name,
                name,
            ) by {
                assert(s[j] == t[j - 1]);
            }
        } else {
            assert forall|j: int| 0 <= j < s.len() implies !text_le((#[trigger] s[j]).name, name) by {
                if j > 0 && text_le(s[j].name, name) {
                    assert(text_le(s[0].name, s[j].name));
                    lemma_text_le_transitive(s[0].name, s[j].name, name);
                }
            }
        }
    }
}

proof fn lemma_sort_by_name(s: Seq<CachedDeviceView>)
    ensures
        names_ordered(sort_by_name(s)),
        sort_by_name(s).to_multiset() == s.to_multiset(),
        sort_by_name(s).len() == s.len(),
        hosts_unique(s) ==> hosts_unique(sort_by_name(s)),
    decreases s.len(),
{
    broadcast use vstd::seq_lib::group_to_multiset_ensures;

    if s.len() == 0 {
        assert(sort_by_name(s) =~= s);
    } else {
        let init = sort_by_name(s.drop_last());
        lemma_sort_by_name(s.drop_last());
        let x = s.last();
        lemma_name_pos_split(init, x.name);
        let p = name_pos(init, x.name) as int;
        let t = init.insert(p, x);
        assert(sort_by_name(s) == t);
        assert forall|i: int, j: int| 0 <= i < j < t.len() implies text_le(
            (#[trigger] t[i]).name,
            (#[trigger] t[j]).name,
        ) by {
            if j < p {
                assert(t[i] == init[i] && t[j] == init[j]);
            } else if j == p {
                assert(t[i] == init[i]);
            } else if i < p {
                assert(t[i] == init[i] && t[j] == init[j - 1]);
            } else if i == p {
                assert(t[j] == init[j - 1]);
                lemma_text_le_total(init[j - 1].name, x.name);
            } else {
                assert(t[i] == init[i - 1] && t[j] == init[j - 1]);
            }
        }
        vstd::seq_lib::to_multiset_insert(init, p, x);
        vstd::seq_lib::to_multiset_build(s.drop_last(), x);
        assert(s.drop_last().push(x) =~= s);
        if hosts_unique(s) {
            let d = s.drop_last();
            assert forall|i: int, j: int|
                0 <= i < d.len() && 0 <= j < d.len() && i != j implies (#[trigger] d[i]).host
                != (#[trigger] d[j]).host by {
                assert(d[i] == s[i] && d[j] == s[j]);
            }
            assert forall|k: int| 0 <= k < init.len() implies (#[trigger] init[k]).host != x.host by {
                assert(init.to_multiset().count(init[k]) > 0);
                assert(d.to_multiset().count(init[k]) > 0);
                assert(d.contains(init[k]));
                let m = choose|m: int| 0 <= m < d.len() && d[m] == init[k];
                assert(s[m] == d[m]);
                assert(s[s.len() - 1] == x);
            }
            assert forall|i: int, j: int|
                0 <= i < t.len() && 0 <= j < t.len() && i != j implies (#[trigger] t[i]).host
                != (#[trigger] t[j]).host by {
                if i != p && j != p {
                    let ii = if i < p { i } else { i - 1 };
                    let jj = if j < p { j } else { j - 1 };
                    assert(t[i] == init[ii] && t[j] == init[jj]);
                } else if i == p {
                    let jj = if j < p { j } else { j - 1 };
                    assert(t[j] == init[jj]);
                } else {
                    let ii = if i < p { i } else { i - 1 };
                    assert(t[i] == init[ii]);
                }
            }
        }
    }
}

/// Inserting or updating a device keeps the cache keyed on host and ordered by
/// name: the result holds the device in place of the first device on its host
/// (which leaves the count unchanged) or in addition to the others, sorted by name;
/// a cache with one device per host keeps one device per host.
pub proof fn upsert_is_keyed_on_host(s: Seq<CachedDeviceView>, d: CachedDeviceView)
    ensures
        names_ordered(upserted(s, d)),
        upserted(s, d).contains(d),
        upserted(s, d).len() == if host_pos(s, d.host) < s.len() {
            s.len()
        } else {
            s.len() + 1
        },
        upserted(s, d).to_multiset() == (if host_pos(s, d.host) < s.len() {
            s.update(host_pos(s, d.host) as int, d)
        } else {
            s.push(d)
        }).to_multiset(),
        hosts_unique(s) ==> hosts_unique(upserted(s, d)),
{
    broadcast use vstd::seq_lib::group_to_multiset_ensures;

    let p = host_pos(s, d.host);
    lemma_host_pos_bound(s, d.host);
    let u = if p < s.len() { s.update(p as int, d) } else { s.push(d) };
    lemma_sort_by_name(u);
    assert(u.contains(d)) by {
        if p < s.len() {
            assert(u[p as int] == d);
        } else {
            assert(u[s.len() as int] == d);
        }
    }
    assert(u.to_multiset().count(d) > 0);
    assert(upserted(s, d).to_multiset().count(d) > 0);
    if hosts_unique(s) {
        assert forall|i: int, j: int|
            0 <= i < u.len() && 0 <= j < u.len() && i != j implies (#[trigger] u[i]).host
            != (#[trigger] u[j]).host by {
            if p < s.len() {
                if i == p {
                    assert(u[j] == s[j]);
                    assert(s[p as int].host == d.host);
                } else if j == p {
                    assert(u[i] == s[i]);
                    assert(s[p as int].host == d.host);
                } else {
                    assert(u[i] == s[i] && u[j] == s[j]);
                }
            } else {
                if i == s.len() {
                    assert(u[j] == s[j]);
                } else if j == s.len() {
                    assert(u[i] == s[i]);
                } else {
                    assert(u[i] == s[i] && u[j] == s[j]);
                }
            }
        }
    }
}

proof fn lemma_host_pos_bound(s: Seq<CachedDeviceView>, host: Seq<char>)
    ensures
        host_pos(s, host) <= s.len(),
        host_pos(s, host) < s.len() ==> s[host_pos(s, host) as int].host == host,
        forall|j: int| 0 <= j < host_pos(s, host) ==> (#[trigger] s[j]).host != host,
    decreases s.len(),
{
    if s.len() > 0 && s[0].host != host {
        lemma_host_pos_bound(s.drop_first(), host);
        assert forall|j: int| 0 <= j < host_pos(s, host) implies (#[trigger] s[j]).host != host by {
            if j > 0 {
                assert(s[j] == s.drop_first()[j - 1]);
            }
        }
    }
}

/// The cache a scan yields holds one entry per found device, in name order.
pub proof fn scan_cache_is_ordered(statuses: Seq<DeviceStatus>)
    ensures
        names_ordered(sort_by_name(entries_of(statuses))),
        sort_by_name(entries_of(statuses)).len() == statuses.len(),
        sort_by_name(entries_of(statuses)).to_multiset() == entries_of(statuses).to_multiset(),
{
    lemma_sort_by_name(entries_of(statuses));
}

proof fn lemma_find_contained(s: Seq<CachedDeviceView>, d: CachedDeviceView)
    requires
        s.contains(d),
    ensures
        find_by_name(s, d.name) matches Some(x) && eq_ic(x.name, d.name) && s.contains(x),
    decreases s.len(),
{
    if !eq_ic(s[0].name, d.name) {
        let i = choose|i: int| 0 <= i < s.len() && s[i] == d;
        if i == 0 {
            assert(eq_ic(d.name, d.name));
        } else {
            assert(s.drop_first()[i - 1] == d);
            lemma_find_contained(s.drop_first(), d);
            let x = find_by_name(s.drop_first(), d.name)->0;
            let j = choose|j: int| 0 <= j < s.drop_first().len() && s.drop_first()[j] == x;
            assert(s[j + 1] == x);
        }
    } else {
        assert(s[0] == s[0]);
    }
}

/// What is written can be read back: after a device is inserted or updated, a
/// lookup by its name (in any ASCII case) finds a cached device of that name.
pub proof fn upserted_device_is_found(s: Seq<CachedDeviceView>, d: CachedDeviceView)
    ensures
        find_by_name(upserted(s, d), d.name) matches Some(x) && eq_ic(x.name, d.name)
            && upserted(s, d).contains(x),
{
    upsert_is_keyed_on_host(s, d);
    lemma_find_contained(upserted(s, d), d);
}

} // verus!
