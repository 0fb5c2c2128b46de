//! Saved network configurations and the matching engine.
//!
//! A [`NetworkConfig`] binds a name to the network settings the user wants
//! (DHCP or static addressing plus DNS) together with the identity of the
//! network that should trigger them: a WiFi SSID, optionally pinned to a
//! router MAC address.  An [`AppConfig`] is the store of all saved
//! configurations plus the process-wide switches.
//!
//! The matching rules:
//! - an empty `ssid` is a wildcard and matches any network;
//! - otherwise the probed SSID must equal the config's SSID exactly;
//! - a config that names a `router_mac` matches only when the probed MAC is
//!   present and equal up to ASCII case — a MAC-bound config never matches a
//!   network whose MAC could not be read (fail closed).
//!
//! Automatic selection runs in two passes over the store, in insertion
//! order: first any `auto_apply` config whose full match holds, then — for
//! configs that predate MAC binding — any `auto_apply` config whose SSID is
//! literally equal and that has no MAC constraint.

use vstd::prelude::*;

use crate::text::{seq_eq_ci, str_eq, str_eq_ci};

verus! {

/// Classifies what kind of network triggers a configuration: a WiFi
/// network, or a named (wired) network service.  The type does not gate
/// matching; it records the user's intent.
#[derive(Debug, Clone, Copy, PartialEq, Eq, Structural)]
pub enum ConfigType {
    Wifi,
    Service,
}

/// One saved, named network configuration.
#[derive(Debug, PartialEq, Eq)]
pub struct NetworkConfig {
    /// Unique key of the configuration; re-adding under the same name
    /// replaces the earlier record.
    pub name: String,
    /// SSID that triggers this configuration; empty means unconstrained.
    pub ssid: String,
    /// What kind of network this configuration is meant for.
    pub config_type: ConfigType,
    /// When present, the probed router MAC must equal this value (ASCII
    /// case-insensitively) for the configuration to match.
    pub router_mac: Option<String>,
    /// Only configurations with this flag participate in automatic matching.
    pub auto_apply: bool,
    /// Network service the settings apply to; the currently selected
    /// service is used when absent.
    pub target_service: Option<String>,
    /// Use DHCP; when false the static fields below are applied.
    pub use_dhcp: bool,
    pub ip_address: Option<String>,
    pub subnet_mask: Option<String>,
    pub router: Option<String>,
    /// Ordered DNS servers; empty means automatic DNS.
    pub dns_servers: Vec<String>,
}

/// Mathematical image of a [`NetworkConfig`]: every string as a sequence
/// of characters.
#[verifier::ext_equal]
pub struct NetworkConfigV {
    pub name: Seq<char>,
    pub ssid: Seq<char>,
    pub config_type: ConfigType,
    pub router_mac: Option<Seq<char>>,
    pub auto_apply: bool,
    pub target_service: Option<Seq<char>>,
    pub use_dhcp: bool,
    pub ip_address: Option<Seq<char>>,
    pub subnet_mask: Option<Seq<char>>,
    pub router: Option<Seq<char>>,
    pub dns_servers: Seq<Seq<char>>,
}

impl View for NetworkConfig {
    type V = NetworkConfigV;

    open spec fn view(&self) -> NetworkConfigV {
        NetworkConfigV {
            name: self.name@,
            ssid: self.ssid@,
            config_type: self.config_type,
            router_mac: self.router_mac.deep_view(),
            auto_apply: self.auto_apply,
            target_service: self.target_service.deep_view(),
            use_dhcp: self.use_dhcp,
            ip_address: self.ip_address.deep_view(),
            subnet_mask: self.subnet_mask.deep_view(),
            router: self.router.deep_view(),
            dns_servers: self.dns_servers.deep_view(),
        }
    }
}

impl DeepView for NetworkConfig {
    type V = NetworkConfigV;

    open spec fn deep_view(&self) -> NetworkConfigV {
        self.view()
    }
}

/// Whether a configuration matches the probed network identity.
pub open spec fn config_matches(c: NetworkConfigV, ssid: Seq<char>, mac: Option<Seq<char>>) -> bool {
    if c.ssid.len() == 0 {
        true
    } else if c.ssid != ssid {
        false
    } else {
        match c.router_mac {
            None => true,
            Some(cm) => match mac {
                None => false,
                Some(m) => seq_eq_ci(cm, m),
            },
        }
    }
}

/// Whether a configuration takes part in the strict automatic pass.
pub open spec fn strict_candidate(
    c: NetworkConfigV,
    ssid: Seq<char>,
    mac: Option<Seq<char>>,
) -> bool {
    c.auto_apply && config_matches(c, ssid, mac)
}

/// Whether a configuration takes part in the legacy fallback pass: an
/// `auto_apply` config whose SSID is literally the probed one and that has
/// no MAC constraint.
pub open spec fn legacy_candidate(c: NetworkConfigV, ssid: Seq<char>) -> bool {
    c.auto_apply && c.ssid == ssid && c.router_mac is None
}

/// First configuration of the sequence that the strict pass accepts.
pub open spec fn first_strict(
    cfgs: Seq<NetworkConfigV>,
    ssid: Seq<char>,
    mac: Option<Seq<char>>,
) -> Option<NetworkConfigV>
    decreases cfgs.len(),
{
    if cfgs.len() == 0 {
        None
    } else if strict_candidate(cfgs[0], ssid, mac) {
        Some(cfgs[0])
    } else {
        first_strict(cfgs.drop_first(), ssid, mac)
    }
}

/// First configuration of the sequence that the legacy pass accepts.
pub open spec fn first_legacy(cfgs: Seq<NetworkConfigV>, ssid: Seq<char>) -> Option<NetworkConfigV>
    decreases cfgs.len(),
{
    if cfgs.len() == 0 {
        None
    } else if legacy_candidate(cfgs[0], ssid) {
        Some(cfgs[0])
    } else {
        first_legacy(cfgs.drop_first(), ssid)
    }
}

/// The configuration the automatic pass selects: the strict pass wins,
/// the legacy pass is consulted only when the strict pass found nothing.
pub open spec fn spec_find_auto_apply(
    cfgs: Seq<NetworkConfigV>,
    ssid: Seq<char>,
    mac: Option<Seq<char>>,
) -> Option<NetworkConfigV> {
    match first_strict(cfgs, ssid, mac) {
        Some(c) => Some(c),
        None => first_legacy(cfgs, ssid),
    }
}

/// First index of the sequence holding a configuration of the given name.
pub open spec fn first_name_index(cfgs: Seq<NetworkConfigV>, name: Seq<char>) -> Option<int>
    decreases cfgs.len(),
{
    if cfgs.len() == 0 {
        None
    } else if cfgs[0].name == name {
        Some(0int)
    } else {
        match first_name_index(cfgs.drop_first(), name) {
            Some(j) => Some(j + 1),
            None => None,
        }
    }
}

/// What adding a configuration does to the store: replace the record of
/// the same name in place, or append.
pub open spec fn store_insert(cfgs: Seq<NetworkConfigV>, c: NetworkConfigV) -> Seq<NetworkConfigV> {
    match first_name_index(cfgs, c.name) {
        Some(j) => cfgs.update(j, c),
        None => cfgs.push(c),
    }
}

/// What removing a name does to the store: drop the record of that name,
/// or leave the store unchanged when the name is absent.
pub open spec fn store_remove(cfgs: Seq<NetworkConfigV>, name: Seq<char>) -> Seq<NetworkConfigV> {
    match first_name_index(cfgs, name) {
        Some(j) => cfgs.remove(j),
        None => cfgs,
    }
}

/// Properties of [`first_name_index`]: a found index is the first hit, a
/// miss means the name is nowhere.
pub proof fn lemma_first_name_index(cfgs: Seq<NetworkConfigV>, name: Seq<char>)
    ensures
        match first_name_index(cfgs, name) {
            Some(j) => 0 <= j < cfgs.len() && cfgs[j].name == name && forall|k: int|
                0 <= k < j ==> cfgs[k].name != name,
            None => forall|k: int| 0 <= k < cfgs.len() ==> cfgs[k].name != name,
        },
    decreases cfgs.len(),
{
    if cfgs.len() > 0 && cfgs[0].name != name {
        let rest = cfgs.drop_first();
        lemma_first_name_index(rest, name);
        match first_name_index(rest, name) {
            Some(j) => {
                assert(cfgs[j + 1].name == name);
                assert forall|k: int| 0 <= k < j + 1 implies cfgs[k].name != name by {
                    if k > 0 {
                        assert(rest[k - 1].name != name);
                    }
                }
            },
            None => {
                assert forall|k: int| 0 <= k < cfgs.len() implies cfgs[k].name != name by {
                    if k > 0 {
                        assert(rest[k - 1].name != name);
                    }
                }
            },
        }
    }
}

impl NetworkConfig {
    /// Fresh configuration for the given identity: automatic application
    /// off, DHCP on, no static settings, automatic DNS.
    pub fn new(
        name: String,
        ssid: String,
        target_service: Option<String>,
        config_type: ConfigType,
        router_mac: Option<String>,
    ) -> (r: Self)
        ensures
            r@.name == name@,
            r@.ssid == ssid@,
            r@.config_type == config_type,
            r@.router_mac == router_mac.deep_view(),
            r@.target_service == target_service.deep_view(),
            !r@.auto_apply,
            r@.use_dhcp,
            r@.ip_address is None,
            r@.subnet_mask is None,
            r@.router is None,
            r@.dns_servers.len() == 0,
    {
        Self {
            name,
            ssid,
            config_type,
            router_mac,
            auto_apply: false,
            target_service,
            use_dhcp: true,
            ip_address: None,
            subnet_mask: None,
            router: None,
            dns_servers: Vec::new(),
        }
    }

    /// The key the store files this configuration under: its name.
    pub fn config_key(&self) -> (r: String)
        ensures
            r@ == self@.name,
    {
        self.name.clone()
    }

    /// Whether this configuration matches the probed identity, per the
    /// wildcard, SSID and fail-closed MAC rules.
    pub fn matches_network(&self, ssid: &str, router_mac: Option<&str>) -> (r: bool)
        ensures
            r == config_matches(self@, ssid@, router_mac.deep_view()),
    {
        if self.ssid.as_str().is_empty() {
            return true;
        }
        if !str_eq(self.ssid.as_str(), ssid) {
            return false;
        }
        match &self.router_mac {
            Some(cm) => match router_mac {
                Some(m) => str_eq_ci(cm.as_str(), m),
                None => false,
            },
            None => true,
        }
    }

    /// The line a configuration is listed under: markers for its kind
    /// and automatic application, its name, and its SSID and the tail of
    /// its MAC binding where they are set.
    pub fn display_name(&self) -> (r: String)
        ensures
            r@ == spec_display_name(self@),
    {
        let icon: &str = match self.config_type {
            ConfigType::Wifi => "\u{1F4F6}",
            ConfigType::Service => "\u{1F50C}",
        };
        let auto_icon: &str = if self.auto_apply {
            "\u{1F504}"
        } else {
            ""
        };
        let head = String::from_str(auto_icon).concat(icon).concat(" ").concat(self.name.as_str());
        let r = match &self.router_mac {
            Some(mac) => {
                let n = mac.as_str().unicode_len();
                let start = if n > 8 {
                    n - 8
                } else {
                    0
                };
                let short = mac.as_str().substring_char(start, n);
                head.concat(" [").concat(self.ssid.as_str()).concat("] (").concat(short).concat(
                    ")",
                )
            },
            None => {
                if !self.ssid.as_str().is_empty() {
                    head.concat(" [").concat(self.ssid.as_str()).concat("]")
                } else {
                    head
                }
            },
        };
        proof {
            assert(r@ =~= spec_display_name(self@));
        }
        r
    }

    /// A field-for-field copy, equal to the original in every field.
    pub fn duplicate(&self) -> (r: Self)
        ensures
            r@ == self@,
    {
        let mut dns: Vec<String> = Vec::new();
        let mut i: usize = 0;
        while i < self.dns_servers.len()
            invariant
                i <= self.dns_servers.len(),
                dns@ =~= self.dns_servers@.take(i as int),
            decreases self.dns_servers.len() - i,
        {
            dns.push(self.dns_servers[i].clone());
            i += 1;
        }
        proof {
            assert(dns@ =~= self.dns_servers@);
        }
        let r = Self {
            name: self.name.clone(),
            ssid: self.ssid.clone(),
            config_type: self.config_type,
            router_mac: clone_opt(&self.router_mac),
            auto_apply: self.auto_apply,
            target_service: clone_opt(&self.target_service),
            use_dhcp: self.use_dhcp,
            ip_address: clone_opt(&self.ip_address),
            subnet_mask: clone_opt(&self.subnet_mask),
            router: clone_opt(&self.router),
            dns_servers: dns,
        };
        proof {
            assert(r@.dns_servers =~= self@.dns_servers);
            assert(r@ =~= self@);
        }
        r
    }
}

/// The last eight characters of a MAC address, shown in listings.
pub open spec fn mac_tail(mac: Seq<char>) -> Seq<char> {
    if mac.len() > 8 {
        mac.subrange(mac.len() - 8, mac.len() as int)
    } else {
        mac
    }
}

/// The listing line of a configuration: automatic and kind markers, the
/// name, and the SSID and MAC tail where set.
pub open spec fn spec_display_name(c: NetworkConfigV) -> Seq<char> {
    let auto = if c.auto_apply {
        "\u{1F504}"@
    } else {
        ""@
    };
    let icon = match c.config_type {
        ConfigType::Wifi => "\u{1F4F6}"@,
        ConfigType::Service => "\u{1F50C}"@,
    };
    let head = auto + icon + " "@ + c.name;
    match c.router_mac {
        Some(mac) => head + " ["@ + c.ssid + "] ("@ + mac_tail(mac) + ")"@,
        None => if c.ssid.len() > 0 {
            head + " ["@ + c.ssid + "]"@
        } else {
            head
        },
    }
}

/// Copy of an optional string, equal to its source.
pub fn clone_opt(o: &Option<String>) -> (r: Option<String>)
    ensures
        r == *o,
{
    match o {
        Some(s) => Some(s.clone()),
        None => None,
    }
}

/// The store of saved configurations plus the process-wide switches.
#[derive(Debug, PartialEq, Eq)]
pub struct AppConfig {
    /// Saved configurations in insertion order; names are unique.
    pub configs: Vec<NetworkConfig>,
    /// Whether matching configurations are applied automatically.
    pub auto_switch: bool,
    /// The network service manual actions currently target.
    pub network_service: String,
}

/// Mathematical image of an [`AppConfig`].
#[verifier::ext_equal]
pub struct AppConfigV {
    pub configs: Seq<NetworkConfigV>,
    pub auto_switch: bool,
    pub network_service: Seq<char>,
}

impl AppConfigV {
    /// Store well-formedness: configuration names are pairwise distinct.
    pub open spec fn wf(self) -> bool {
        forall|i: int, j: int|
            0 <= i < j < self.configs.len() ==> self.configs[i].name != self.configs[j].name
    }
}

impl View for AppConfig {
    type V = AppConfigV;

    open spec fn view(&self) -> AppConfigV {
        AppConfigV {
            configs: self.configs.deep_view(),
            auto_switch: self.auto_switch,
            network_service: self.network_service@,
        }
    }
}

impl Default for AppConfig {
    /// The empty store: no configurations, automatic switching off, no
    /// selected service.
    fn default() -> (r: Self)
        ensures
            r@.configs.len() == 0,
            !r@.auto_switch,
            r@.network_service.len() == 0,
            r@.wf(),
    {
        AppConfig { configs: Vec::new(), auto_switch: false, network_service: String::new() }
    }
}

impl AppConfig {
    /// Index of the saved configuration of the given name, if any.
    fn position_of(&self, name: &str) -> (r: Option<usize>)
        ensures
            match r {
                Some(i) => i < self.configs.len() && first_name_index(self@.configs, name@)
                    == Some(i as int),
                None => first_name_index(self@.configs, name@) is None,
            },
    {
        let ghost cfgs = self@.configs;
        proof {
            assert(cfgs.skip(0) =~= cfgs);
        }
        let mut i: usize = 0;
        while i < self.configs.len()
            invariant
                i <= self.configs.len(),
                cfgs == self@.configs,
                cfgs.len() == self.configs.len(),
                match first_name_index(cfgs.skip(i as int), name@) {
                    Some(j) => first_name_index(cfgs, name@) == Some(j + i),
                    None => first_name_index(cfgs, name@) is None,
                },
            decreases self.configs.len() - i,
        {
            proof {
                assert(cfgs.skip(i as int)[0] == cfgs[i as int]);
            }
            if str_eq(self.configs[i].name.as_str(), name) {
                return Some(i);
            }
            proof {
                assert(cfgs.skip(i as int).drop_first() =~= cfgs.skip(i as int + 1));
            }
            i += 1;
        }
        proof {
            assert(cfgs.skip(i as int).len() == 0);
        }
        None
    }

    /// Inserts a configuration, replacing the one of the same name in
    /// place or appending a new record.  Name uniqueness is preserved.
    pub fn add_config(&mut self, config: NetworkConfig)
        requires
            old(self)@.wf(),
        ensures
            final(self)@.configs == store_insert(old(self)@.configs, config@),
            final(self)@.auto_switch == old(self)@.auto_switch,
            final(self)@.network_service == old(self)@.network_service,
            final(self)@.wf(),
    {
        proof {
            lemma_first_name_index(self@.configs, config@.name);
        }
        match self.position_of(config.name.as_str()) {
            Some(i) => {
                self.configs.remove(i);
                self.configs.insert(i, config);
                proof {
                    assert(self@.configs =~= store_insert(old(self)@.configs, config@));
                }
            },
            None => {
                self.configs.push(config);
                proof {
                    assert(self@.configs =~= store_insert(old(self)@.configs, config@));
                }
            },
        }
    }

    /// Removes the configuration of the given name; removing an absent
    /// name leaves the store unchanged.
    pub fn remove_config(&mut self, key: &str)
        requires
            old(self)@.wf(),
        ensures
            final(self)@.configs == store_remove(old(self)@.configs, key@),
            final(self)@.auto_switch == old(self)@.auto_switch,
            final(self)@.network_service == old(self)@.network_service,
            final(self)@.wf(),
    {
        proof {
            lemma_first_name_index(self@.configs, key@);
        }
        match self.position_of(key) {
            Some(i) => {
                self.configs.remove(i);
                proof {
                    assert(self@.configs =~= old(self)@.configs.remove(i as int));
                }
            },
            None => {
            },
        }
    }

    /// Selects the configuration to apply automatically for the probed
    /// identity: the strict pass first, the legacy MAC-less fallback
    /// second, none when neither pass accepts a configuration.
    pub fn find_auto_apply_config(&self, ssid: &str, router_mac: Option<&str>) -> (r: Option<
        &NetworkConfig,
    >)
        ensures
            match r {
                Some(c) => spec_find_auto_apply(self@.configs, ssid@, router_mac.deep_view())
                    == Some(c@),
                None => spec_find_auto_apply(self@.configs, ssid@, router_mac.deep_view()) is None,
            },
    {
        let ghost cfgs = self@.configs;
        let ghost mac = router_mac.deep_view();
        proof {
            assert(cfgs.skip(0) =~= cfgs);
        }
        let mut i: usize = 0;
        while i < self.configs.len()
            invariant
                i <= self.configs.len(),
                cfgs == self@.configs,
                cfgs.len() == self.configs.len(),
                mac == router_mac.deep_view(),
                first_strict(cfgs, ssid@, mac) == first_strict(cfgs.skip(i as int), ssid@, mac),
            decreases self.configs.len() - i,
        {
            proof {
                assert(cfgs.skip(i as int)[0] == cfgs[i as int]);
            }
            let c = &self.configs[i];
            if c.auto_apply && c.matches_network(ssid, router_mac) {
                return Some(c);
            }
            proof {
                assert(cfgs.skip(i as int).drop_first() =~= cfgs.skip(i as int + 1));
            }
            i += 1;
        }
        proof {
            assert(cfgs.skip(i as int).len() == 0);
            assert(cfgs.skip(0) =~= cfgs);
        }
        let mut k: usize = 0;
        while k < self.configs.len()
            invariant
                k <= self.configs.len(),
                cfgs == self@.configs,
                cfgs.len() == self.configs.len(),
                mac == router_mac.deep_view(),
                first_strict(cfgs, ssid@, mac) is None,
                first_legacy(cfgs, ssid@) == first_legacy(cfgs.skip(k as int), ssid@),
            decreases self.configs.len() - k,
        {
            proof {
                assert(cfgs.skip(k as int)[0] == cfgs[k as int]);
            }
            let c = &self.configs[k];
            if c.auto_apply && c.router_mac.is_none() && str_eq(c.ssid.as_str(), ssid) {
                return Some(c);
            }
            proof {
                assert(cfgs.skip(k as int).drop_first() =~= cfgs.skip(k as int + 1));
            }
            k += 1;
        }
        proof {
            assert(cfgs.skip(k as int).len() == 0);
        }
        None
    }
}

/// What the strict pass returns: a stored configuration accepted by the
/// strict rule, and nothing when no stored configuration is.
proof fn lemma_first_strict_sound(cfgs: Seq<NetworkConfigV>, ssid: Seq<char>, mac: Option<Seq<char>>)
    ensures
        match first_strict(cfgs, ssid, mac) {
            Some(c) => cfgs.contains(c) && strict_candidate(c, ssid, mac),
            None => forall|i: int| 0 <= i < cfgs.len() ==> !strict_candidate(cfgs[i], ssid, mac),
        },
    decreases cfgs.len(),
{
    if cfgs.len() > 0 {
        if strict_candidate(cfgs[0], ssid, mac) {
            assert(cfgs.contains(cfgs[0]));
        } else {
            let rest = cfgs.drop_first();
            lemma_first_strict_sound(rest, ssid, mac);
            match first_strict(rest, ssid, mac) {
                Some(c) => {
                    let j = choose|j: int| 0 <= j < rest.len() && rest[j] == c;
                    assert(cfgs[j + 1] == c);
                    assert(cfgs.contains(c));
                },
                None => {
                    assert forall|i: int|
                        0 <= i < cfgs.len() implies !strict_candidate(cfgs[i], ssid, mac) by {
                        if i > 0 {
                            assert(rest[i - 1] == cfgs[i]);
                        }
                    }
                },
            }
        }
    }
}

/// What the legacy pass returns, in the same way.
proof fn lemma_first_legacy_sound(cfgs: Seq<NetworkConfigV>, ssid: Seq<char>)
    ensures
        match first_legacy(cfgs, ssid) {
            Some(c) => cfgs.contains(c) && legacy_candidate(c, ssid),
            None => forall|i: int| 0 <= i < cfgs.len() ==> !legacy_candidate(cfgs[i], ssid),
        },
    decreases cfgs.len(),
{
    if cfgs.len() > 0 {
        if legacy_candidate(cfgs[0], ssid) {
            assert(cfgs.contains(cfgs[0]));
        } else {
            let rest = cfgs.drop_first();
            lemma_first_legacy_sound(rest, ssid);
            match first_legacy(rest, ssid) {
                Some(c) => {
                    let j = choose|j: int| 0 <= j < rest.len() && rest[j] == c;
                    assert(cfgs[j + 1] == c);
                    assert(cfgs.contains(c));
                },
                None => {
                    assert forall|i: int|
                        0 <= i < cfgs.len() implies !legacy_candidate(cfgs[i], ssid) by {
                        if i > 0 {
                            assert(rest[i - 1] == cfgs[i]);
                        }
                    }
                },
            }
        }
    }
}

/// The automatic selection is sound and complete: what it returns is a
/// stored configuration that one of the two passes accepts, and it
/// returns nothing exactly when no stored configuration is accepted by
/// either pass.
pub proof fn lemma_find_auto_apply_sound(
    cfgs: Seq<NetworkConfigV>,
    ssid: Seq<char>,
    mac: Option<Seq<char>>,
)
    ensures
        match spec_find_auto_apply(cfgs, ssid, mac) {
            Some(c) => cfgs.contains(c) && (strict_candidate(c, ssid, mac) || legacy_candidate(
                c,
                ssid,
            )),
            None => forall|i: int|
                0 <= i < cfgs.len() ==> !strict_candidate(cfgs[i], ssid, mac)
                    && !legacy_candidate(cfgs[i], ssid),
        },
{
    lemma_first_strict_sound(cfgs, ssid, mac);
    lemma_first_legacy_sound(cfgs, ssid);
}

/// The automatic selection is a function of the store and the probed
/// identity alone: two evaluations over the same store and identity give
/// the same configuration, so repeating the lookup over an unchanged
/// store changes nothing.
pub proof fn lemma_find_deterministic(
    cfgs: Seq<NetworkConfigV>,
    ssid: Seq<char>,
    mac: Option<Seq<char>>,
    r1: Option<NetworkConfigV>,
    r2: Option<NetworkConfigV>,
)
    requires
        r1 == spec_find_auto_apply(cfgs, ssid, mac),
        r2 == spec_find_auto_apply(cfgs, ssid, mac),
    ensures
        r1 == r2,
{
}

/// A configuration with an empty SSID matches every probed identity.
pub proof fn lemma_wildcard_matches(c: NetworkConfigV, ssid: Seq<char>, mac: Option<Seq<char>>)
    requires
        c.ssid.len() == 0,
    ensures
        config_matches(c, ssid, mac),
{
}

/// A MAC-bound configuration probed with its own SSID matches exactly the
/// probes whose MAC is present and equal up to ASCII case, and never an
/// absent MAC.
pub proof fn lemma_mac_bound_matching(c: NetworkConfigV, probed: Option<Seq<char>>, m: Seq<char>)
    requires
        c.ssid.len() > 0,
        c.router_mac == Some(m),
    ensures
        config_matches(c, c.ssid, probed) <==> (probed matches Some(pm) && seq_eq_ci(pm, m)),
        probed is None ==> !config_matches(c, c.ssid, probed),
{
}

} // verus!
