//! Network identity and the applier.
//!
//! A [`NetworkIdentity`] is what a probe of the machine reports: the WiFi
//! SSID or the name of a connected wired service, and the MAC address of
//! the default router.  [`get_network_identity`] combines the raw probe
//! answers into one identity, preferring WiFi over wired.
//!
//! [`apply_config`] turns a configuration into the ordered list of
//! actuator steps that realise it: one addressing step (DHCP, or static
//! with documented defaults substituted for missing fields), then one DNS
//! step.  The caller performs the steps in order and stops at the first
//! failure; nothing is rolled back.

use vstd::prelude::*;
use vstd::string::StrSliceExecFns;

use crate::config::{ConfigType, NetworkConfig, NetworkConfigV};
use crate::text::{
    ascii_lower, contains_ci, contains_sub, find_from, find_sub, find_sub_ci, lower_seq, spec_trim,
    starts_with, str_eq, trim,
};

verus! {

/// Position of the first line break at or after `i`, or the length.
pub open spec fn line_end(s: Seq<char>, i: int) -> int
    decreases s.len() - i,
{
    if i < 0 || i >= s.len() {
        s.len() as int
    } else if s[i] == '\n' {
        i
    } else {
        line_end(s, i + 1)
    }
}

/// The bounds of [`line_end`].
pub proof fn lemma_line_end(s: Seq<char>, i: int)
    requires
        0 <= i <= s.len(),
    ensures
        i <= line_end(s, i) <= s.len(),
    decreases s.len() - i,
{
    if i < s.len() && s[i] != '\n' {
        lemma_line_end(s, i + 1);
    }
}

/// A line without its trailing carriage return.
pub open spec fn strip_cr(l: Seq<char>) -> Seq<char> {
    if l.len() > 0 && l[l.len() - 1] == '\r' {
        l.drop_last()
    } else {
        l
    }
}

/// The lines of `s` from position `i` on: split at line breaks, each
/// line without a trailing carriage return, no line after a trailing
/// break.
pub open spec fn lines_from(s: Seq<char>, i: int) -> Seq<Seq<char>>
    decreases s.len() - i + 1,
    via lines_from_dec
{
    if i < 0 || i >= s.len() {
        Seq::empty()
    } else {
        let e = line_end(s, i);
        seq![strip_cr(s.subrange(i, e))] + lines_from(s, e + 1)
    }
}

#[via_fn]
proof fn lines_from_dec(s: Seq<char>, i: int) {
    if 0 <= i < s.len() {
        lemma_line_end(s, i);
    }
}

/// Index of the first line break at or after `from`, or the length.
fn find_line_end(s: &str, from: usize) -> (e: usize)
    requires
        from <= s@.len(),
    ensures
        from <= e <= s@.len(),
        e as int == line_end(s@, from as int),
{
    let n = s.unicode_len();
    let mut e: usize = from;
    while e < n
        invariant
            n == s@.len(),
            from <= e <= n,
            line_end(s@, from as int) == line_end(s@, e as int),
        decreases n - e,
    {
        if s.get_char(e) == '\n' {
            proof {
                assert(line_end(s@, e as int) == e);
            }
            return e;
        }
        e += 1;
    }
    e
}

/// The lines of `s`, as [`lines_from`] describes them.
pub fn split_lines(s: &str) -> (r: Vec<String>)
    ensures
        r.deep_view() == lines_from(s@, 0),
{
    let n = s.unicode_len();
    let mut out: Vec<String> = Vec::new();
    let mut cur: usize = 0;
    proof {
        assert(out.deep_view() + lines_from(s@, 0) =~= lines_from(s@, 0));
    }
    while cur < n
        invariant
            n == s@.len(),
            0 <= cur <= n,
            out.deep_view() + lines_from(s@, cur as int) == lines_from(s@, 0),
        decreases n - cur,
    {
        let e = find_line_end(s, cur);
        let ghost old_out = out.deep_view();
        let line = if e > cur && s.get_char(e - 1) == '\r' {
            s.substring_char(cur, e - 1)
        } else {
            s.substring_char(cur, e)
        };
        out.push(line.to_owned());
        proof {
            let sub = s@.subrange(cur as int, e as int);
            if e > cur && s@[e - 1] == '\r' {
                assert(strip_cr(sub) =~= s@.subrange(cur as int, e - 1));
            }
            assert(line@ == strip_cr(sub));
            assert(out.deep_view() =~= old_out.push(line@));
            assert(old_out.push(line@) + lines_from(s@, e + 1) =~= old_out + (seq![line@]
                + lines_from(s@, e + 1)));
        }
        if e < n {
            cur = e + 1;
        } else {
            proof {
                assert(lines_from(s@, e + 1) =~= lines_from(s@, n as int));
            }
            cur = n;
        }
    }
    proof {
        assert(lines_from(s@, cur as int) =~= Seq::<Seq<char>>::empty());
        assert(out.deep_view() =~= out.deep_view() + lines_from(s@, cur as int));
    }
    out
}

/// What network is physically present right now, as probed.  Never
/// persisted; built fresh on every probe.
#[derive(Debug, PartialEq, Eq)]
pub struct NetworkIdentity {
    /// SSID of the joined WiFi network, when on WiFi.
    pub ssid: Option<String>,
    /// MAC address of the default router, when it could be read.
    pub router_mac: Option<String>,
    /// Whether the machine is on a wired network instead of WiFi.
    pub is_wired: bool,
    /// Name of the connected wired service, when wired.
    pub service_name: Option<String>,
}

/// Mathematical image of a [`NetworkIdentity`].
#[verifier::ext_equal]
pub struct NetworkIdentityV {
    pub ssid: Option<Seq<char>>,
    pub router_mac: Option<Seq<char>>,
    pub is_wired: bool,
    pub service_name: Option<Seq<char>>,
}

impl View for NetworkIdentity {
    type V = NetworkIdentityV;

    open spec fn view(&self) -> NetworkIdentityV {
        NetworkIdentityV {
            ssid: self.ssid.deep_view(),
            router_mac: self.router_mac.deep_view(),
            is_wired: self.is_wired,
            service_name: self.service_name.deep_view(),
        }
    }
}

impl Default for NetworkIdentity {
    /// The unknown identity: no SSID, no MAC, not wired.
    fn default() -> (r: Self)
        ensures
            r@.ssid is None,
            r@.router_mac is None,
            !r@.is_wired,
            r@.service_name is None,
    {
        NetworkIdentity { ssid: None, router_mac: None, is_wired: false, service_name: None }
    }
}

/// The identity [`get_network_identity`] builds from the probe answers.
pub open spec fn spec_network_identity(
    ssid: Option<Seq<char>>,
    ethernet: Option<Seq<char>>,
    router_mac: Option<Seq<char>>,
) -> NetworkIdentityV {
    match ssid {
        Some(s) => NetworkIdentityV {
            ssid: Some(s),
            router_mac,
            is_wired: false,
            service_name: None,
        },
        None => match ethernet {
            Some(e) => NetworkIdentityV {
                ssid: None,
                router_mac,
                is_wired: true,
                service_name: Some(e),
            },
            None => NetworkIdentityV {
                ssid: None,
                router_mac: None,
                is_wired: false,
                service_name: None,
            },
        },
    }
}

/// Combines the probe answers into one identity.  WiFi wins over wired;
/// with neither present the identity is unknown and the router MAC is
/// dropped, since it cannot be tied to a network.
pub fn get_network_identity(
    ssid: Option<String>,
    ethernet: Option<String>,
    router_mac: Option<String>,
) -> (r: NetworkIdentity)
    ensures
        r@ == spec_network_identity(ssid.deep_view(), ethernet.deep_view(), router_mac.deep_view()),
{
    let r = match ssid {
        Some(s) => NetworkIdentity {
            ssid: Some(s),
            router_mac,
            is_wired: false,
            service_name: None,
        },
        None => match ethernet {
            Some(e) => NetworkIdentity {
                ssid: None,
                router_mac,
                is_wired: true,
                service_name: Some(e),
            },
            None => NetworkIdentity::default(),
        },
    };
    proof {
        assert(r@ =~= spec_network_identity(
            ssid.deep_view(),
            ethernet.deep_view(),
            router_mac.deep_view(),
        ));
    }
    r
}

// ---------------------------------------------------------------------
// Probe-output parsers: pure functions from captured command output to
// structured results.  The callers run the commands and hand the text in.
// ---------------------------------------------------------------------

/// The SSID in a device-registry line: the quoted value after the SSID
/// key, when the key occurs and the value is non-empty.
pub open spec fn spec_ssid_ioreg(t: Seq<char>) -> Option<Seq<char>> {
    let line = spec_trim(t);
    if contains_sub(line, "IO80211SSID"@) {
        match find_from(line, "= \""@, 0) {
            Some(p) => {
                let rest = line.subrange(p + ("= \""@).len(), line.len() as int);
                match find_from(rest, "\""@, 0) {
                    Some(q) => if q > 0 {
                        Some(rest.subrange(0, q))
                    } else {
                        None
                    },
                    None => None,
                }
            },
            None => None,
        }
    } else {
        None
    }
}

/// Extracts the SSID from a device-registry line.
pub fn parse_ssid_ioreg(text: &str) -> (r: Option<String>)
    ensures
        match r {
            Some(s) => spec_ssid_ioreg(text@) == Some(s@),
            None => spec_ssid_ioreg(text@) is None,
        },
{
    let line = trim(text);
    if find_sub(line.as_str(), "IO80211SSID").is_none() {
        return None;
    }
    let p = match find_sub(line.as_str(), "= \"") {
        Some(p) => p,
        None => {
            return None;
        },
    };
    proof {
        crate::text::lemma_find_from(line@, "= \""@, 0);
    }
    let marker = "= \"";
    let n = line.as_str().unicode_len();
    proof {
        assert(p + marker@.len() <= n);
    }
    let rest = line.as_str().substring_char(p + marker.unicode_len(), n);
    let q = match find_sub(rest, "\"") {
        Some(q) => q,
        None => {
            return None;
        },
    };
    proof {
        crate::text::lemma_find_from(rest@, "\""@, 0);
    }
    if q > 0 {
        Some(rest.substring_char(0, q).to_owned())
    } else {
        None
    }
}

/// The SSID a service tool reports: the trimmed text after its prefix,
/// when present, non-empty, and not marked unassociated.
pub open spec fn spec_ssid_networksetup(t: Seq<char>) -> Option<Seq<char>> {
    if ("Current Wi-Fi Network: "@).is_prefix_of(t) {
        let ssid = spec_trim(t.subrange(("Current Wi-Fi Network: "@).len() as int, t.len() as int));
        if ssid.len() > 0 && !contains_sub(t, "not associated"@) {
            Some(ssid)
        } else {
            None
        }
    } else {
        None
    }
}

/// Extracts the SSID from the service tool's answer.
pub fn parse_ssid_networksetup(text: &str) -> (r: Option<String>)
    ensures
        match r {
            Some(s) => spec_ssid_networksetup(text@) == Some(s@),
            None => spec_ssid_networksetup(text@) is None,
        },
{
    let prefix = "Current Wi-Fi Network: ";
    if !starts_with(text, prefix) {
        return None;
    }
    let rest = text.substring_char(prefix.unicode_len(), text.unicode_len());
    let ssid = trim(rest);
    if !ssid.as_str().is_empty() && find_sub(text, "not associated").is_none() {
        Some(ssid)
    } else {
        None
    }
}

/// Index one past the last character that is not a colon.
pub open spec fn last_non_colon(l: Seq<char>, i: int) -> int
    decreases i,
{
    if i <= 0 || i > l.len() {
        0
    } else if l[i - 1] != ':' {
        i
    } else {
        last_non_colon(l, i - 1)
    }
}

/// A line without its trailing colons.
pub open spec fn strip_colons(l: Seq<char>) -> Seq<char> {
    l.subrange(0, last_non_colon(l, l.len() as int))
}

/// Copy of `s` without trailing colons.
fn strip_colons_exec(s: &str) -> (r: String)
    ensures
        r@ == strip_colons(s@),
{
    let n = s.unicode_len();
    let mut b: usize = n;
    while b > 0
        invariant
            n == s@.len(),
            0 <= b <= n,
            last_non_colon(s@, n as int) == last_non_colon(s@, b as int),
        decreases b,
    {
        if s.get_char(b - 1) != ':' {
            proof {
                assert(last_non_colon(s@, b as int) == b);
            }
            return s.substring_char(0, b).to_owned();
        }
        b -= 1;
    }
    proof {
        assert(strip_colons(s@) =~= s@.subrange(0, 0));
    }
    s.substring_char(0, 0).to_owned()
}

/// The profiler scan: after the current-network header, the first
/// heading line that does not name a network is the SSID; a mode or
/// listing line ends the scan.
pub open spec fn spp_scan(ls: Seq<Seq<char>>, i: int, in_current: bool) -> Option<Seq<char>>
    decreases ls.len() - i,
{
    if i < 0 || i >= ls.len() {
        None
    } else {
        let t = spec_trim(ls[i]);
        if t == "Current Network Information:"@ {
            spp_scan(ls, i + 1, true)
        } else if in_current {
            if t.len() > 0 && t[t.len() - 1] == ':' && !contains_sub(t, "Network"@)
                && strip_colons(t).len() > 0 {
                Some(strip_colons(t))
            } else if ("PHY Mode"@).is_prefix_of(t) || ("Other"@).is_prefix_of(t) {
                None
            } else {
                spp_scan(ls, i + 1, in_current)
            }
        } else {
            spp_scan(ls, i + 1, false)
        }
    }
}

/// Extracts the SSID from a profiler listing.
pub fn parse_ssid_system_profiler(text: &str) -> (r: Option<String>)
    ensures
        match r {
            Some(s) => spp_scan(lines_from(text@, 0), 0, false) == Some(s@),
            None => spp_scan(lines_from(text@, 0), 0, false) is None,
        },
{
    let lines = split_lines(text);
    let ghost ls = lines.deep_view();
    let mut in_current = false;
    let mut i: usize = 0;
    while i < lines.len()
        invariant
            ls == lines.deep_view(),
            ls == lines_from(text@, 0),
            0 <= i <= lines@.len(),
            ls.len() == lines@.len(),
            spp_scan(ls, 0, false) == spp_scan(ls, i as int, in_current),
        decreases lines@.len() - i,
    {
        proof {
            assert(ls[i as int] == lines@[i as int]@);
        }
        let t = trim(lines[i].as_str());
        if str_eq(t.as_str(), "Current Network Information:") {
            in_current = true;
        } else if in_current {
            let n = t.as_str().unicode_len();
            let heading = n > 0 && t.as_str().get_char(n - 1) == ':' && find_sub(
                t.as_str(),
                "Network",
            ).is_none();
            if heading {
                let ssid = strip_colons_exec(t.as_str());
                if !ssid.as_str().is_empty() {
                    return Some(ssid);
                }
            }
            if starts_with(t.as_str(), "PHY Mode") || starts_with(t.as_str(), "Other") {
                return None;
            }
        }
        i += 1;
    }
    None
}

/// The first answer the three SSID sources give, in order of
/// reliability: the device registry, the service tool, the profiler.
pub open spec fn spec_current_ssid(
    ioreg: Option<Seq<char>>,
    networksetup: Option<Seq<char>>,
    profiler: Option<Seq<char>>,
) -> Option<Seq<char>> {
    let a = match ioreg {
        Some(t) => spec_ssid_ioreg(t),
        None => None,
    };
    let b = match networksetup {
        Some(t) => spec_ssid_networksetup(t),
        None => None,
    };
    let c = match profiler {
        Some(t) => spp_scan(lines_from(t, 0), 0, false),
        None => None,
    };
    match a {
        Some(s) => Some(s),
        None => match b {
            Some(s) => Some(s),
            None => c,
        },
    }
}

/// The current SSID, from whichever captured source answers first.
pub fn get_current_ssid(
    ioreg: Option<&str>,
    networksetup: Option<&str>,
    profiler: Option<&str>,
) -> (r: Option<String>)
    ensures
        match r {
            Some(s) => spec_current_ssid(
                ioreg.deep_view(),
                networksetup.deep_view(),
                profiler.deep_view(),
            ) == Some(s@),
            None => spec_current_ssid(
                ioreg.deep_view(),
                networksetup.deep_view(),
                profiler.deep_view(),
            ) is None,
        },
{
    if let Some(t) = ioreg {
        if let Some(s) = parse_ssid_ioreg(t) {
            return Some(s);
        }
    }
    if let Some(t) = networksetup {
        if let Some(s) = parse_ssid_networksetup(t) {
            return Some(s);
        }
    }
    if let Some(t) = profiler {
        if let Some(s) = parse_ssid_system_profiler(t) {
            return Some(s);
        }
    }
    None
}

/// The default router address a routing-table query reports: its
/// trimmed output, when non-empty.
pub open spec fn spec_router_ip(t: Seq<char>) -> Option<Seq<char>> {
    let ip = spec_trim(t);
    if ip.len() > 0 {
        Some(ip)
    } else {
        None
    }
}

/// Extracts the default router address from a routing-table query.
pub fn parse_router_ip(text: &str) -> (r: Option<String>)
    ensures
        match r {
            Some(s) => spec_router_ip(text@) == Some(s@),
            None => spec_router_ip(text@) is None,
        },
{
    let ip = trim(text);
    if !ip.as_str().is_empty() {
        Some(ip)
    } else {
        None
    }
}

/// The MAC in a neighbour-table line: the trimmed text between the `at`
/// and `on` markers, when present, non-empty and resolved, folded to
/// lower case so that one network always carries one MAC spelling.
pub open spec fn spec_arp_mac(t: Seq<char>) -> Option<Seq<char>> {
    match find_from(t, " at "@, 0) {
        Some(p) => {
            let rest = t.subrange(p + (" at "@).len(), t.len() as int);
            match find_from(rest, " on "@, 0) {
                Some(q) => {
                    let mac = spec_trim(rest.subrange(0, q));
                    if mac.len() > 0 && mac != "(incomplete)"@ {
                        Some(lower_seq(mac))
                    } else {
                        None
                    }
                },
                None => None,
            }
        },
        None => None,
    }
}

/// Extracts the router MAC from a neighbour-table answer.
pub fn parse_arp_mac(text: &str) -> (r: Option<String>)
    ensures
        match r {
            Some(s) => spec_arp_mac(text@) == Some(s@),
            None => spec_arp_mac(text@) is None,
        },
{
    let p = match find_sub(text, " at ") {
        Some(p) => p,
        None => {
            return None;
        },
    };
    proof {
        crate::text::lemma_find_from(text@, " at "@, 0);
    }
    let marker = " at ";
    let n = text.unicode_len();
    proof {
        assert(p + marker@.len() <= n);
    }
    let rest = text.substring_char(p + marker.unicode_len(), n);
    let q = match find_sub(rest, " on ") {
        Some(q) => q,
        None => {
            return None;
        },
    };
    proof {
        crate::text::lemma_find_from(rest@, " on "@, 0);
    }
    let mac = trim(rest.substring_char(0, q));
    if !mac.as_str().is_empty() && !str_eq(mac.as_str(), "(incomplete)") {
        Some(ascii_lower(mac.as_str()))
    } else {
        None
    }
}

/// Whether a listed service line is kept: disabled services are marked
/// with a leading star.
pub open spec fn keep_service(l: Seq<char>) -> bool {
    !(l.len() > 0 && l[0] == '*')
}

/// The services in a listing from line `i` on, those already collected
/// in front.
pub open spec fn services_from(ls: Seq<Seq<char>>, i: int, acc: Seq<Seq<char>>) -> Seq<Seq<char>>
    decreases ls.len() - i,
{
    if i < 0 || i >= ls.len() {
        acc
    } else if keep_service(ls[i]) {
        services_from(ls, i + 1, acc.push(ls[i]))
    } else {
        services_from(ls, i + 1, acc)
    }
}

/// The service names a listing reports: every line after the heading
/// that is not marked disabled.  Without a listing, the WiFi service
/// alone is assumed.
pub open spec fn spec_network_services(t: Option<Seq<char>>) -> Seq<Seq<char>> {
    match t {
        Some(s) => services_from(lines_from(s, 0), 1, Seq::empty()),
        None => seq!["Wi-Fi"@],
    }
}

/// Extracts the enabled service names from a service listing.
pub fn get_network_services(text: Option<&str>) -> (r: Vec<String>)
    ensures
        r.deep_view() == spec_network_services(text.deep_view()),
{
    match text {
        None => {
            let mut out: Vec<String> = Vec::new();
            out.push(String::from_str("Wi-Fi"));
            proof {
                assert(out.deep_view() =~= seq!["Wi-Fi"@]);
            }
            out
        },
        Some(t) => {
            let lines = split_lines(t);
            let ghost ls = lines.deep_view();
            let mut out: Vec<String> = Vec::new();
            let mut i: usize = 1;
            proof {
                assert(out.deep_view() =~= Seq::<Seq<char>>::empty());
            }
            while i < lines.len()
                invariant
                    ls == lines.deep_view(),
                    1 <= i <= lines@.len() || (lines@.len() < 1 && i == 1),
                    ls.len() == lines@.len(),
                    services_from(ls, 1, Seq::empty()) == services_from(
                        ls,
                        i as int,
                        out.deep_view(),
                    ),
                decreases lines@.len() - i,
            {
                proof {
                    assert(ls[i as int] == lines@[i as int]@);
                }
                let line = &lines[i];
                let keep = if line.as_str().is_empty() {
                    true
                } else {
                    line.as_str().get_char(0) != '*'
                };
                if keep {
                    let ghost old_out = out.deep_view();
                    out.push(line.clone());
                    proof {
                        assert(out.deep_view() =~= old_out.push(ls[i as int]));
                    }
                }
                i += 1;
            }
            out
        },
    }
}

/// The service and device pairs a hardware listing reports, collected
/// from line `i` on: a name line opens a pair, a device line closes it.
pub open spec fn ports_from(
    ls: Seq<Seq<char>>,
    i: int,
    svc: Option<Seq<char>>,
    dev: Option<Seq<char>>,
    acc: Seq<(Seq<char>, Seq<char>)>,
) -> Seq<(Seq<char>, Seq<char>)>
    decreases ls.len() - i,
{
    if i < 0 || i >= ls.len() {
        acc
    } else {
        let t = spec_trim(ls[i]);
        let svc2 = if ("Hardware Port: "@).is_prefix_of(t) {
            Some(t.subrange(("Hardware Port: "@).len() as int, t.len() as int))
        } else {
            svc
        };
        let dev2 = if ("Device: "@).is_prefix_of(t) {
            Some(t.subrange(("Device: "@).len() as int, t.len() as int))
        } else {
            dev
        };
        match (svc2, dev2) {
            (Some(s), Some(d)) => ports_from(ls, i + 1, None, None, acc.push((s, d))),
            _ => ports_from(ls, i + 1, svc2, dev2, acc),
        }
    }
}

/// Extracts the service and device pairs from a hardware listing.
pub fn parse_hardware_ports(text: &str) -> (r: Vec<(String, String)>)
    ensures
        r.deep_view() == ports_from(lines_from(text@, 0), 0, None, None, Seq::empty()),
{
    let lines = split_lines(text);
    let ghost ls = lines.deep_view();
    let mut out: Vec<(String, String)> = Vec::new();
    let mut svc: Option<String> = None;
    let mut dev: Option<String> = None;
    let mut i: usize = 0;
    proof {
        assert(out.deep_view() =~= Seq::<(Seq<char>, Seq<char>)>::empty());
    }
    while i < lines.len()
        invariant
            ls == lines.deep_view(),
            0 <= i <= lines@.len(),
            ls.len() == lines@.len(),
            ports_from(ls, 0, None, None, Seq::empty()) == ports_from(
                ls,
                i as int,
                svc.deep_view(),
                dev.deep_view(),
                out.deep_view(),
            ),
        decreases lines@.len() - i,
    {
        proof {
            assert(ls[i as int] == lines@[i as int]@);
        }
        let t = trim(lines[i].as_str());
        let svc_prefix = "Hardware Port: ";
        let dev_prefix = "Device: ";
        if starts_with(t.as_str(), svc_prefix) {
            svc = Some(
                t.as_str().substring_char(svc_prefix.unicode_len(), t.as_str().unicode_len())
                    .to_owned(),
            );
        }
        if starts_with(t.as_str(), dev_prefix) {
            dev = Some(
                t.as_str().substring_char(dev_prefix.unicode_len(), t.as_str().unicode_len())
                    .to_owned(),
            );
        }
        if svc.is_some() && dev.is_some() {
            let s_opt = svc;
            let d_opt = dev;
            svc = None;
            dev = None;
            let s = match s_opt {
                Some(s) => s,
                None => String::new(),
            };
            let d = match d_opt {
                Some(d) => d,
                None => String::new(),
            };
            let ghost old_out = out.deep_view();
            let ghost pair = (s@, d@);
            out.push((s, d));
            proof {
                assert(out.deep_view() =~= old_out.push(pair));
            }
        }
        i += 1;
    }
    out
}

/// Whether a service and device pair names a wired ethernet port: not
/// WiFi, Bluetooth or a bridge, and either named like ethernet or borne
/// by an `en` device.
pub open spec fn spec_is_ethernet(s: Seq<char>, d: Seq<char>) -> bool {
    !contains_ci(s, "wi-fi"@) && !contains_ci(s, "bluetooth"@) && !contains_ci(
        s,
        "thunderbolt bridge"@,
    ) && (contains_ci(s, "ethernet"@) || contains_ci(s, "lan"@) || contains_ci(s, "usb"@) || (
    "en"@).is_prefix_of(d))
}

/// Whether a service and device pair names a wired ethernet port.
pub fn is_ethernet_service(service: &str, device: &str) -> (r: bool)
    ensures
        r == spec_is_ethernet(service@, device@),
{
    if find_sub_ci(service, "wi-fi").is_some() {
        return false;
    }
    if find_sub_ci(service, "bluetooth").is_some() {
        return false;
    }
    if find_sub_ci(service, "thunderbolt bridge").is_some() {
        return false;
    }
    find_sub_ci(service, "ethernet").is_some() || find_sub_ci(service, "lan").is_some()
        || find_sub_ci(service, "usb").is_some() || starts_with(device, "en")
}

/// The first usable address in an interface report: the value of an
/// address line that is non-empty and not the none marker.
pub open spec fn info_ip_from(ls: Seq<Seq<char>>, i: int) -> Option<Seq<char>>
    decreases ls.len() - i,
{
    if i < 0 || i >= ls.len() {
        None
    } else {
        let l = ls[i];
        if ("IP address:"@).is_prefix_of(l) {
            let v = spec_trim(l.subrange(("IP address:"@).len() as int, l.len() as int));
            if v.len() > 0 && v != "none"@ {
                Some(v)
            } else {
                info_ip_from(ls, i + 1)
            }
        } else {
            info_ip_from(ls, i + 1)
        }
    }
}

/// Extracts the connected address from an interface report.
pub fn parse_info_ip(text: &str) -> (r: Option<String>)
    ensures
        match r {
            Some(s) => info_ip_from(lines_from(text@, 0), 0) == Some(s@),
            None => info_ip_from(lines_from(text@, 0), 0) is None,
        },
{
    let lines = split_lines(text);
    let ghost ls = lines.deep_view();
    let mut i: usize = 0;
    while i < lines.len()
        invariant
            ls == lines.deep_view(),
            ls == lines_from(text@, 0),
            0 <= i <= lines@.len(),
            ls.len() == lines@.len(),
            info_ip_from(ls, 0) == info_ip_from(ls, i as int),
        decreases lines@.len() - i,
    {
        proof {
            assert(ls[i as int] == lines@[i as int]@);
        }
        let l = &lines[i];
        let prefix = "IP address:";
        if starts_with(l.as_str(), prefix) {
            let v = trim(l.as_str().substring_char(prefix.unicode_len(), l.as_str().unicode_len()));
            if !v.as_str().is_empty() && !str_eq(v.as_str(), "none") {
                return Some(v);
            }
        }
        i += 1;
    }
    None
}

/// The value of the last line carrying the given prefix, scanned from
/// line `i` on, trimmed; `acc` holds the value seen so far.
pub open spec fn field_from(
    ls: Seq<Seq<char>>,
    i: int,
    prefix: Seq<char>,
    acc: Option<Seq<char>>,
) -> Option<Seq<char>>
    decreases ls.len() - i,
{
    if i < 0 || i >= ls.len() {
        acc
    } else {
        let l = ls[i];
        if prefix.is_prefix_of(l) {
            field_from(ls, i + 1, prefix, Some(spec_trim(l.subrange(prefix.len() as int, l.len() as int))))
        } else {
            field_from(ls, i + 1, prefix, acc)
        }
    }
}

/// The DNS servers a service query reports: its non-empty lines that
/// carry no error marker, trimmed, in order; `acc` holds those already
/// collected.
pub open spec fn ns_dns_from(ls: Seq<Seq<char>>, i: int, acc: Seq<Seq<char>>) -> Seq<Seq<char>>
    decreases ls.len() - i,
{
    if i < 0 || i >= ls.len() {
        acc
    } else {
        let l = ls[i];
        if l.len() > 0 && !contains_sub(l, "Error"@) {
            ns_dns_from(ls, i + 1, acc.push(spec_trim(l)))
        } else {
            ns_dns_from(ls, i + 1, acc)
        }
    }
}

/// The resolver addresses a system query reports: the value after the
/// first colon of each nameserver line, trimmed, without the VPN range
/// and without repetitions; `acc` holds those already collected.
pub open spec fn scutil_dns_from(ls: Seq<Seq<char>>, i: int, acc: Seq<Seq<char>>) -> Seq<Seq<char>>
    decreases ls.len() - i,
{
    if i < 0 || i >= ls.len() {
        acc
    } else {
        let t = spec_trim(ls[i]);
        if ("nameserver"@).is_prefix_of(t) {
            match find_from(t, ":"@, 0) {
                Some(p) => {
                    let rest = t.subrange(p + 1, t.len() as int);
                    let q = match find_from(rest, ":"@, 0) {
                        Some(q) => q,
                        None => rest.len() as int,
                    };
                    let v = spec_trim(rest.subrange(0, q));
                    if !("198.18."@).is_prefix_of(v) && !acc.contains(v) {
                        scutil_dns_from(ls, i + 1, acc.push(v))
                    } else {
                        scutil_dns_from(ls, i + 1, acc)
                    }
                },
                None => scutil_dns_from(ls, i + 1, acc),
            }
        } else {
            scutil_dns_from(ls, i + 1, acc)
        }
    }
}

/// The DNS servers in use: the service's configured servers when its
/// query answered with any, else the system resolver's, else none.
pub open spec fn spec_dns_servers(
    networksetup: Option<Seq<char>>,
    scutil: Option<Seq<char>>,
) -> Seq<Seq<char>> {
    let first = match networksetup {
        Some(t) => if !contains_sub(t, "There aren't any DNS Servers"@) {
            ns_dns_from(lines_from(t, 0), 0, Seq::empty())
        } else {
            Seq::empty()
        },
        None => Seq::empty(),
    };
    if first.len() > 0 {
        first
    } else {
        match scutil {
            Some(t) => scutil_dns_from(lines_from(t, 0), 0, Seq::empty()),
            None => Seq::empty(),
        }
    }
}

/// Whether the list holds a string with these contents.
fn vec_contains_str(v: &Vec<String>, x: &str) -> (r: bool)
    ensures
        r == v.deep_view().contains(x@),
{
    let mut i: usize = 0;
    while i < v.len()
        invariant
            0 <= i <= v@.len(),
            forall|k: int| 0 <= k < i ==> v.deep_view()[k] != x@,
        decreases v@.len() - i,
    {
        if str_eq(v[i].as_str(), x) {
            proof {
                assert(v.deep_view()[i as int] == x@);
            }
            return true;
        }
        i += 1;
    }
    proof {
        assert(forall|k: int| 0 <= k < v.deep_view().len() ==> v.deep_view()[k] != x@);
    }
    false
}

/// Extracts the DNS servers in use from the two captured queries.
pub fn get_dns_servers(networksetup: Option<&str>, scutil: Option<&str>) -> (r: Vec<String>)
    ensures
        r.deep_view() == spec_dns_servers(networksetup.deep_view(), scutil.deep_view()),
{
    if let Some(t) = networksetup {
        if find_sub(t, "There aren't any DNS Servers").is_none() {
            let lines = split_lines(t);
            let ghost ls = lines.deep_view();
            let mut out: Vec<String> = Vec::new();
            let mut i: usize = 0;
            proof {
                assert(out.deep_view() =~= Seq::<Seq<char>>::empty());
            }
            while i < lines.len()
                invariant
                    ls == lines.deep_view(),
                    0 <= i <= lines@.len(),
                    ls.len() == lines@.len(),
                    ns_dns_from(ls, 0, Seq::empty()) == ns_dns_from(ls, i as int, out.deep_view()),
                decreases lines@.len() - i,
            {
                proof {
                    assert(ls[i as int] == lines@[i as int]@);
                }
                let l = &lines[i];
                if !l.as_str().is_empty() && find_sub(l.as_str(), "Error").is_none() {
                    let ghost old_out = out.deep_view();
                    let v = trim(l.as_str());
                    out.push(v);
                    proof {
                        assert(out.deep_view() =~= old_out.push(spec_trim(ls[i as int])));
                    }
                }
                i += 1;
            }
            if out.len() > 0 {
                return out;
            }
        }
    }
    if let Some(t) = scutil {
        let lines = split_lines(t);
        let ghost ls = lines.deep_view();
        let mut out: Vec<String> = Vec::new();
        let mut i: usize = 0;
        proof {
            assert(out.deep_view() =~= Seq::<Seq<char>>::empty());
        }
        while i < lines.len()
            invariant
                ls == lines.deep_view(),
                0 <= i <= lines@.len(),
                ls.len() == lines@.len(),
                scutil_dns_from(ls, 0, Seq::empty()) == scutil_dns_from(
                    ls,
                    i as int,
                    out.deep_view(),
                ),
            decreases lines@.len() - i,
        {
            proof {
                assert(ls[i as int] == lines@[i as int]@);
            }
            let t_line = trim(lines[i].as_str());
            if starts_with(t_line.as_str(), "nameserver") {
                if let Some(p) = find_sub(t_line.as_str(), ":") {
                    proof {
                        reveal_strlit(":");
                        crate::text::lemma_find_from(t_line@, ":"@, 0);
                    }
                    let n = t_line.as_str().unicode_len();
                    let rest = t_line.as_str().substring_char(p + 1, n);
                    let q = match find_sub(rest, ":") {
                        Some(q) => {
                            proof {
                                crate::text::lemma_find_from(rest@, ":"@, 0);
                            }
                            q
                        },
                        None => rest.unicode_len(),
                    };
                    let v = trim(rest.substring_char(0, q));
                    if !starts_with(v.as_str(), "198.18.") && !vec_contains_str(&out, v.as_str()) {
                        let ghost old_out = out.deep_view();
                        let ghost vv = v@;
                        out.push(v);
                        proof {
                            assert(out.deep_view() =~= old_out.push(vv));
                        }
                    }
                }
            }
            i += 1;
        }
        return out;
    }
    let out: Vec<String> = Vec::new();
    proof {
        assert(out.deep_view() =~= Seq::<Seq<char>>::empty());
    }
    out
}

/// The live settings of a service, read from its interface report and
/// the two DNS queries: the last reported address, mask and router, the
/// addressing mode, and the DNS servers; everything else is left as a
/// fresh, unnamed configuration.
pub fn get_current_config(info: &str, dns: Option<&str>, scutil: Option<&str>) -> (r: NetworkConfig)
    ensures
        r@.name.len() == 0,
        r@.ssid.len() == 0,
        r@.config_type == ConfigType::Wifi,
        r@.router_mac is None,
        !r@.auto_apply,
        r@.target_service is None,
        r@.use_dhcp == contains_sub(info@, "DHCP Configuration"@),
        r@.ip_address == field_from(lines_from(info@, 0), 0, "IP address: "@, None),
        r@.subnet_mask == field_from(lines_from(info@, 0), 0, "Subnet mask: "@, None),
        r@.router == field_from(lines_from(info@, 0), 0, "Router: "@, None),
        r@.dns_servers == spec_dns_servers(dns.deep_view(), scutil.deep_view()),
{
    let lines = split_lines(info);
    let ghost ls = lines.deep_view();
    let mut ip_address: Option<String> = None;
    let mut subnet_mask: Option<String> = None;
    let mut router: Option<String> = None;
    let mut i: usize = 0;
    while i < lines.len()
        invariant
            ls == lines.deep_view(),
            0 <= i <= lines@.len(),
            ls.len() == lines@.len(),
            field_from(ls, 0, "IP address: "@, None) == field_from(
                ls,
                i as int,
                "IP address: "@,
                ip_address.deep_view(),
            ),
            field_from(ls, 0, "Subnet mask: "@, None) == field_from(
                ls,
                i as int,
                "Subnet mask: "@,
                subnet_mask.deep_view(),
            ),
            field_from(ls, 0, "Router: "@, None) == field_from(
                ls,
                i as int,
                "Router: "@,
                router.deep_view(),
            ),
        decreases lines@.len() - i,
    {
        proof {
            assert(ls[i as int] == lines@[i as int]@);
        }
        let l = &lines[i];
        let n = l.as_str().unicode_len();
        let ip_prefix = "IP address: ";
        let mask_prefix = "Subnet mask: ";
        let router_prefix = "Router: ";
        if starts_with(l.as_str(), ip_prefix) {
            ip_address = Some(trim(l.as_str().substring_char(ip_prefix.unicode_len(), n)));
        }
        if starts_with(l.as_str(), mask_prefix) {
            subnet_mask = Some(trim(l.as_str().substring_char(mask_prefix.unicode_len(), n)));
        }
        if starts_with(l.as_str(), router_prefix) {
            router = Some(trim(l.as_str().substring_char(router_prefix.unicode_len(), n)));
        }
        i += 1;
    }
    let use_dhcp = find_sub(info, "DHCP Configuration").is_some();
    let dns_servers = get_dns_servers(dns, scutil);
    NetworkConfig {
        name: String::new(),
        ssid: String::new(),
        config_type: ConfigType::Wifi,
        router_mac: None,
        auto_apply: false,
        target_service: None,
        use_dhcp,
        ip_address,
        subnet_mask,
        router,
        dns_servers,
    }
}

/// One instruction to the network actuator, always aimed at the service
/// of the plan it belongs to.
#[derive(Debug, PartialEq, Eq)]
pub enum ActuatorStep {
    /// Switch the service to DHCP.
    SetDhcp,
    /// Set a static address.
    SetStatic { ip: String, mask: String, router: String },
    /// Set the DNS servers; an empty list clears them to automatic.
    SetDnsServers { servers: Vec<String> },
}

/// Mathematical image of an [`ActuatorStep`].
#[verifier::ext_equal]
pub enum ActuatorStepV {
    SetDhcp,
    SetStatic { ip: Seq<char>, mask: Seq<char>, router: Seq<char> },
    SetDnsServers { servers: Seq<Seq<char>> },
}

impl View for ActuatorStep {
    type V = ActuatorStepV;

    open spec fn view(&self) -> ActuatorStepV {
        match self {
            ActuatorStep::SetDhcp => ActuatorStepV::SetDhcp,
            ActuatorStep::SetStatic { ip, mask, router } => ActuatorStepV::SetStatic {
                ip: ip@,
                mask: mask@,
                router: router@,
            },
            ActuatorStep::SetDnsServers { servers } => ActuatorStepV::SetDnsServers {
                servers: servers.deep_view(),
            },
        }
    }
}

impl DeepView for ActuatorStep {
    type V = ActuatorStepV;

    open spec fn deep_view(&self) -> ActuatorStepV {
        self.view()
    }
}

/// The ordered actuator steps for one service.
#[derive(Debug, PartialEq, Eq)]
pub struct ApplyPlan {
    /// The service every step is aimed at.
    pub service: String,
    /// The steps, to be performed in order, aborting at the first failure.
    pub steps: Vec<ActuatorStep>,
}

/// Default static IP address substituted for a missing one.
pub open spec fn default_ip() -> Seq<char> {
    "192.168.1.100"@
}

/// Default subnet mask substituted for a missing one.
pub open spec fn default_mask() -> Seq<char> {
    "255.255.255.0"@
}

/// Default router address substituted for a missing one.
pub open spec fn default_router() -> Seq<char> {
    "192.168.1.1"@
}

/// An optional string, or the given fallback.
pub open spec fn or_default(o: Option<Seq<char>>, d: Seq<char>) -> Seq<char> {
    match o {
        Some(s) => s,
        None => d,
    }
}

/// The steps that realise a configuration: DHCP or static addressing
/// first (static fields default rather than fail), then exactly one DNS
/// step carrying the configured servers verbatim.
pub open spec fn spec_apply_steps(c: NetworkConfigV) -> Seq<ActuatorStepV> {
    let addressing = if c.use_dhcp {
        ActuatorStepV::SetDhcp
    } else {
        ActuatorStepV::SetStatic {
            ip: or_default(c.ip_address, default_ip()),
            mask: or_default(c.subnet_mask, default_mask()),
            router: or_default(c.router, default_router()),
        }
    };
    seq![addressing, ActuatorStepV::SetDnsServers { servers: c.dns_servers }]
}

/// Builds the plan that applies a configuration to a service: the
/// addressing step, then the DNS step, in that order.
pub fn apply_config(service: &str, config: &NetworkConfig) -> (plan: ApplyPlan)
    ensures
        plan.service@ == service@,
        plan.steps.deep_view() == spec_apply_steps(config@),
{
    let addressing = if config.use_dhcp {
        ActuatorStep::SetDhcp
    } else {
        let ip = match &config.ip_address {
            Some(s) => s.clone(),
            None => String::from_str("192.168.1.100"),
        };
        let mask = match &config.subnet_mask {
            Some(s) => s.clone(),
            None => String::from_str("255.255.255.0"),
        };
        let router = match &config.router {
            Some(s) => s.clone(),
            None => String::from_str("192.168.1.1"),
        };
        ActuatorStep::SetStatic { ip, mask, router }
    };
    let mut servers: Vec<String> = Vec::new();
    let mut i: usize = 0;
    while i < config.dns_servers.len()
        invariant
            i <= config.dns_servers.len(),
            servers@ =~= config.dns_servers@.take(i as int),
        decreases config.dns_servers.len() - i,
    {
        servers.push(config.dns_servers[i].clone());
        i += 1;
    }
    proof {
        assert(servers@ =~= config.dns_servers@);
    }
    let mut steps: Vec<ActuatorStep> = Vec::new();
    steps.push(addressing);
    steps.push(ActuatorStep::SetDnsServers { servers });
    let plan = ApplyPlan { service: service.to_owned(), steps };
    proof {
        assert(plan.steps.deep_view() =~= spec_apply_steps(config@));
    }
    plan
}

} // verus!
