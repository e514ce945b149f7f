//! Resolution of the global `--host`/`--name`/`--group`/`--all` selection into a
//! list of addressable devices.
//!
//! The device cache and the group definitions (`groups.toml`, a `[groups]` table
//! mapping each name to a list of device names or IPs) are read by the tool; their
//! contents, or the error reading them gave, are handed to [`resolve`], which
//! consults each only when the selection needs it.

use vstd::prelude::*;
use crate::cache::{find_by_name, CachedDeviceView, DeviceCache};
use crate::discovery::{ipv4_of, parse_ipv4};
use crate::error::{Error, ErrorView};
use crate::model::{opt_view, strings_view};
use crate::text::{chars_eq, to_chars};
use crate::transport::{
    copy_credentials, creds_view, Credentials, DeviceAddr, DeviceAddrView, CredentialsView,
};

verus! {

/// How the user asked to select devices (from global flags).
#[derive(Debug, Clone, Default)]
pub struct Selector {
    pub host: Option<String>,
    pub name: Option<String>,
    pub group: Option<String>,
    pub all: bool,
}

pub struct SelectorView {
    pub host: Option<Seq<char>>,
    pub name: Option<Seq<char>>,
    pub group: Option<Seq<char>>,
    pub all: bool,
}

impl View for Selector {
    type V = SelectorView;

    open spec fn view(&self) -> SelectorView {
        SelectorView {
            host: opt_view(self.host),
            name: opt_view(self.name),
            group: opt_view(self.group),
            all: self.all,
        }
    }
}

/// A resolved device: an address to talk to, and a human label for output.
#[derive(Debug)]
pub struct Resolved {
    pub addr: DeviceAddr,
    pub label: String,
}

pub struct ResolvedView {
    pub addr: DeviceAddrView,
    pub label: Seq<char>,
}

impl View for Resolved {
    type V = ResolvedView;

    open spec fn view(&self) -> ResolvedView {
        ResolvedView { addr: self.addr@, label: self.label@ }
    }
}

pub open spec fn resolved_view(v: Seq<Resolved>) -> Seq<ResolvedView> {
    v.map_values(|r: Resolved| r@)
}

/// A group definition: its name and its members, as read from the groups file.
pub open spec fn groups_view(v: Seq<(String, Vec<String>)>) -> Seq<(Seq<char>, Seq<Seq<char>>)> {
    v.map_values(|g: (String, Vec<String>)| (g.0@, strings_view(g.1@)))
}

/// How many selection methods were given.
pub open spec fn methods(sel: SelectorView) -> nat {
    (if sel.host is Some { 1nat } else { 0nat }) + (if sel.name is Some { 1nat } else { 0nat })
        + (if sel.group is Some { 1nat } else { 0nat }) + (if sel.all { 1nat } else { 0nat })
}

/// The device on `host`, labelled `label`, reached with `credentials`.
pub open spec fn attached(host: Seq<char>, label: Seq<char>, credentials: Option<CredentialsView>) -> ResolvedView {
    ResolvedView { addr: DeviceAddrView { host, credentials }, label }
}

/// A group member: an IPv4 address as it is, or the cached device of that name.
pub open spec fn member_of(
    member: Seq<char>,
    cache: Seq<CachedDeviceView>,
    credentials: Option<CredentialsView>,
) -> Result<ResolvedView, ErrorView> {
    if ipv4_of(member) is Some {
        Ok(attached(member, member, credentials))
    } else {
        match find_by_name(cache, member) {
            Some(d) => Ok(attached(d.host, d.name, credentials)),
            None => Err(
                ErrorView::NotFound(
                    "group member `"@ + member + "` is not a cached device or an IP"@,
                ),
            ),
        }
    }
}

/// All members resolved in order, or the error of the first that is neither.
pub open spec fn members_of(
    members: Seq<Seq<char>>,
    cache: Seq<CachedDeviceView>,
    credentials: Option<CredentialsView>,
) -> Result<Seq<ResolvedView>, ErrorView>
    decreases members.len(),
{
    if members.len() == 0 {
        Ok(Seq::empty())
    } else {
        match member_of(members[0], cache, credentials) {
            Err(e) => Err(e),
            Ok(r) => match members_of(members.drop_first(), cache, credentials) {
                Err(e) => Err(e),
                Ok(rs) => Ok(seq![r] + rs),
            },
        }
    }
}

/// The members of the first group named `name`.
pub open spec fn group_named(groups: Seq<(Seq<char>, Seq<Seq<char>>)>, name: Seq<char>) -> Option<
    Seq<Seq<char>>,
>
    decreases groups.len(),
{
    if groups.len() == 0 {
        None
    } else if groups[0].0 == name {
        Some(groups[0].1)
    } else {
        group_named(groups.drop_first(), name)
    }
}

/// Every cached device, labelled with its name.
pub open spec fn all_cached(cache: Seq<CachedDeviceView>, credentials: Option<CredentialsView>) -> Seq<
    ResolvedView,
> {
    cache.map_values(|d: CachedDeviceView| attached(d.host, d.name, credentials))
}

/// The devices a selection denotes. Exactly one selection method must be given.
pub open spec fn resolution(
    sel: SelectorView,
    cache: Result<Seq<CachedDeviceView>, ErrorView>,
    groups: Result<Seq<(Seq<char>, Seq<Seq<char>>)>, ErrorView>,
    groups_path: Seq<char>,
    credentials: Option<CredentialsView>,
) -> Result<Seq<ResolvedView>, ErrorView> {
    if methods(sel) == 0 {
        Err(ErrorView::Usage("no target selected; use --host, --name, --group, or --all"@))
    } else if methods(sel) > 1 {
        Err(ErrorView::Usage("choose only one of --host, --name, --group, --all"@))
    } else if sel.host is Some {
        Ok(seq![attached(sel.host->0, sel.host->0, credentials)])
    } else if sel.name is Some {
        match cache {
            Err(e) => Err(e),
            Ok(c) => match find_by_name(c, sel.name->0) {
                Some(d) => Ok(seq![attached(d.host, d.name, credentials)]),
                None => Err(
                    ErrorView::NotFound(
                        "no cached device named `"@ + sel.name->0
                            + "` (run `tasmota discover`)"@,
                    ),
                ),
            },
        }
    } else if sel.all {
        match cache {
            Err(e) => Err(e),
            Ok(c) => if c.len() == 0 {
                Err(ErrorView::NotFound("no cached devices; run `tasmota discover` first"@))
            } else {
                Ok(all_cached(c, credentials))
            },
        }
    } else {
        let g = sel.group->0;
        match groups {
            Err(e) => Err(e),
            Ok(gs) => match group_named(gs, g) {
                None => Err(
                    ErrorView::NotFound("no group named `"@ + g + "` in "@ + groups_path),
                ),
                Some(members) => if members.len() == 0 {
                    Err(ErrorView::Usage("group `"@ + g + "` has no members"@))
                } else {
                    match cache {
                        Err(e) => Err(e),
                        Ok(c) => members_of(members, c, credentials),
                    }
                },
            },
        }
    }
}

pub open spec fn cache_view(c: Result<DeviceCache, Error>) -> Result<Seq<CachedDeviceView>, ErrorView> {
    match c {
        Ok(c) => Ok(c@),
        Err(e) => Err(e@),
    }
}

pub open spec fn groups_result_view(g: Result<Vec<(String, Vec<String>)>, Error>) -> Result<
    Seq<(Seq<char>, Seq<Seq<char>>)>,
    ErrorView,
> {
    match g {
        Ok(g) => Ok(groups_view(g@)),
        Err(e) => Err(e@),
    }
}

pub open spec fn resolve_view(r: Result<Vec<Resolved>, Error>) -> Result<Seq<ResolvedView>, ErrorView> {
    match r {
        Ok(v) => Ok(resolved_view(v@)),
        Err(e) => Err(e@),
    }
}

/// The device on `host`, labelled `label`, reached with `credentials`.
pub fn attach(host: &str, label: &str, credentials: &Option<Credentials>) -> (r: Resolved)
    ensures
        r@ == attached(host@, label@, creds_view(*credentials)),
{
    Resolved {
        addr: DeviceAddr::new(host).with_credentials(copy_credentials(credentials)),
        label: String::from_str(label),
    }
}

/// Resolves a member of a group, which may be a cached name or a raw IPv4 address.
fn resolve_member(member: &str, cache: &DeviceCache, credentials: &Option<Credentials>) -> (r: Result<
    Resolved,
    Error,
>)
    ensures
        match r {
            Ok(x) => member_of(member@, cache@, creds_view(*credentials)) == Ok::<ResolvedView, ErrorView>(x@),
            Err(e) => member_of(member@, cache@, creds_view(*credentials)) == Err::<ResolvedView, ErrorView>(e@),
        },
{
    let m = to_chars(member);
    if parse_ipv4(m.as_slice()).is_some() {
        return Ok(attach(member, member, credentials));
    }
    match cache.find(member) {
        Some(d) => Ok(attach(d.host.as_str(), d.name.as_str(), credentials)),
        None => {
            let mut msg = String::from_str("group member `");
            msg.append(member);
            msg.append("` is not a cached device or an IP");
            Err(Error::NotFound { message: msg })
        },
    }
}

fn resolve_members(members: &Vec<String>, cache: &DeviceCache, credentials: &Option<Credentials>) -> (r: Result<
    Vec<Resolved>,
    Error,
>)
    ensures
        resolve_view(r) == members_of(strings_view(members@), cache@, creds_view(*credentials)),
{
    let ghost ms = strings_view(members@);
    let mut out: Vec<Resolved> = Vec::new();
    let mut i: usize = 0;
    proof {
        assert(ms.skip(0) =~= ms);
    }
    while i < members.len()
        invariant
            i <= members.len(),
            ms == strings_view(members@),
            members_of(ms, cache@, creds_view(*credentials)) == (match members_of(
                ms.skip(i as int),
                cache@,
                creds_view(*credentials),
            ) {
                Err(e) => Err(e),
                Ok(rs) => Ok(resolved_view(out@) + rs),
            }),
        decreases members.len() - i,
    {
        proof {
            assert(ms.skip(i as int).drop_first() =~= ms.skip(i + 1));
            assert(ms.skip(i as int)[0] == members@[i as int]@);
        }
        match resolve_member(members[i].as_str(), cache, credentials) {
            Err(e) => {
                return Err(e);
            },
            Ok(x) => {
                let ghost before = out@;
                let ghost xv = x@;
                out.push(x);
                proof {
                    assert(resolved_view(out@) =~= resolved_view(before).push(xv));
                    let rest = members_of(ms.skip(i + 1), cache@, creds_view(*credentials));
                    if let Ok(rs) = rest {
                        assert(resolved_view(before) + (seq![xv] + rs) =~= resolved_view(out@)
                            + rs);
                    }
                }
            },
        }
        i = i + 1;
    }
    proof {
        assert(resolved_view(out@) + Seq::<ResolvedView>::empty() =~= resolved_view(out@));
    }
    Ok(out)
}

fn find_group<'a>(groups: &'a Vec<(String, Vec<String>)>, name: &str) -> (r: Option<&'a Vec<String>>)
    ensures
        match r {
            Some(m) => group_named(groups_view(groups@), name@) == Some(strings_view(m@)),
            None => group_named(groups_view(groups@), name@) is None,
        },
{
    let n = to_chars(name);
    let ghost gs = groups_view(groups@);
    let mut i: usize = 0;
    proof {
        assert(gs.skip(0) =~= gs);
    }
    while i < groups.len()
        invariant
            i <= groups.len(),
            n@ == name@,
            gs == groups_view(groups@),
            group_named(gs, name@) == group_named(gs.skip(i as int), name@),
        decreases groups.len() - i,
    {
        proof {
            assert(gs.skip(i as int).drop_first() =~= gs.skip(i + 1));
            assert(gs.skip(i as int)[0] == (groups@[i as int].0@, strings_view(groups@[i as int].1@)));
        }
        let g = &groups[i];
        if chars_eq(to_chars(g.0.as_str()).as_slice(), n.as_slice()) {
            return Some(&g.1);
        }
        i = i + 1;
    }
    None
}

/// Resolves the selector into one or more devices. Exactly one selection method
/// must be given. `cache` is the device cache (or the error reading it gave) and
/// `groups` the group definitions read from `groups_path`.
pub fn resolve(
    sel: &Selector,
    cache: Result<DeviceCache, Error>,
    groups: Result<Vec<(String, Vec<String>)>, Error>,
    groups_path: &str,
    credentials: &Option<Credentials>,
) -> (r: Result<Vec<Resolved>, Error>)
    ensures
        resolve_view(r) == resolution(
            sel@,
            cache_view(cache),
            groups_result_view(groups),
            groups_path@,
            creds_view(*credentials),
        ),
{
    let mut count: u8 = 0;
    if sel.host.is_some() {
        count = count + 1;
    }
    if sel.name.is_some() {
        count = count + 1;
    }
    if sel.group.is_some() {
        count = count + 1;
    }
    if sel.all {
        count = count + 1;
    }
    if count == 0 {
        return Err(
            Error::Usage {
                message: String::from_str(
                    "no target selected; use --host, --name, --group, or --all",
                ),
            },
        );
    }
    if count > 1 {
        return Err(
            Error::Usage {
                message: String::from_str("choose only one of --host, --name, --group, --all"),
            },
        );
    }
    if let Some(host) = &sel.host {
        let mut v: Vec<Resolved> = Vec::new();
        v.push(attach(host.as_str(), host.as_str(), credentials));
        assert(resolved_view(v@) =~= seq![v@[0]@]);
        return Ok(v);
    }
    if let Some(name) = &sel.name {
        let cache = cache?;
        match cache.find(name.as_str()) {
            Some(d) => {
                let mut v: Vec<Resolved> = Vec::new();
                v.push(attach(d.host.as_str(), d.name.as_str(), credentials));
                assert(resolved_view(v@) =~= seq![v@[0]@]);
                return Ok(v);
            },
            None => {
                let mut msg = String::from_str("no cached device named `");
                msg.append(name.as_str());
                msg.append("` (run `tasmota discover`)");
                return Err(Error::NotFound { message: msg });
            },
        }
    }
    if sel.all {
        let cache = cache?;
        if cache.devices.len() == 0 {
            return Err(
                Error::NotFound {
                    message: String::from_str("no cached devices; run `tasmota discover` first"),
                },
            );
        }
        let mut v: Vec<Resolved> = Vec::new();
        let mut i: usize = 0;
        while i < cache.devices.len()
            invariant
                i <= cache.devices.len(),
                resolved_view(v@) == all_cached(cache@, creds_view(*credentials)).take(i as int),
            decreases cache.devices.len() - i,
        {
            let d = &cache.devices[i];
            let ghost before = v@;
            let x = attach(d.host.as_str(), d.name.as_str(), credentials);
            let ghost xv = x@;
            v.push(x);
            proof {
                assert(cache@[i as int] == d@);
                assert(resolved_view(v@) =~= resolved_view(before).push(xv));
                assert(resolved_view(v@) =~= all_cached(cache@, creds_view(*credentials)).take(
                    i + 1,
                ));
            }
            i = i + 1;
        }
        assert(all_cached(cache@, creds_view(*credentials)).take(cache.devices.len() as int)
            =~= all_cached(cache@, creds_view(*credentials)));
        return Ok(v);
    }
    let group = sel.group.as_ref().unwrap();
    let groups = groups?;
    let members = match find_group(&groups, group.as_str()) {
        Some(m) => m,
        None => {
            let mut msg = String::from_str("no group named `");
            msg.append(group.as_str());
            msg.append("` in ");
            msg.append(groups_path);
            return Err(Error::NotFound { message: msg });
        },
    };
    if members.len() == 0 {
        let mut msg = String::from_str("group `");
        msg.append(group.as_str());
        msg.append("` has no members");
        return Err(Error::Usage { message: msg });
    }
    let cache = cache?;
    resolve_members(members, &cache, credentials)
}

proof fn lemma_members_len(
    members: Seq<Seq<char>>,
    cache: Seq<CachedDeviceView>,
    credentials: Option<CredentialsView>,
)
    ensures
        members_of(members, cache, credentials) matches Ok(rs) ==> rs.len() == members.len()
            && forall|i: int| 0 <= i < rs.len() ==> (#[trigger] rs[i]).addr.credentials == credentials,
    decreases members.len(),
{
    if members.len() > 0 {
        lemma_members_len(members.drop_first(), cache, credentials);
        if let Ok(rs) = members_of(members, cache, credentials) {
            let rest = members_of(members.drop_first(), cache, credentials)->Ok_0;
            assert forall|i: int| 0 <= i < rs.len() implies (#[trigger] rs[i]).addr.credentials
                == credentials by {
                if i > 0 {
                    assert(rs[i] == rest[i - 1]);
                }
            }
        }
    }
}

/// A selection resolves only when exactly one selection method is given, and then
/// to at least one device; every device resolved is reached with the given
/// credentials.
pub proof fn resolution_is_one_method_and_nonempty(
    sel: SelectorView,
    cache: Result<Seq<CachedDeviceView>, ErrorView>,
    groups: Result<Seq<(Seq<char>, Seq<Seq<char>>)>, ErrorView>,
    groups_path: Seq<char>,
    credentials: Option<CredentialsView>,
)
    ensures
        resolution(sel, cache, groups, groups_path, credentials) matches Ok(ts) ==> methods(sel) == 1
            && ts.len() >= 1 && forall|i: int|
            0 <= i < ts.len() ==> (#[trigger] ts[i]).addr.credentials == credentials,
{
    if let (Ok(c), Ok(gs)) = (cache, groups) {
        if let Some(g) = sel.group {
            if let Some(members) = group_named(gs, g) {
                lemma_members_len(members, c, credentials);
            }
        }
    }
}

} // verus!
