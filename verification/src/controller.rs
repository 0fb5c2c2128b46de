//! The controller: shared snapshot, change detection and the auto-apply
//! decision.
//!
//! A background worker probes the operating system and publishes what it
//! found into a [`NetworkState`] snapshot; the foreground controller state
//! [`NetworkSwitcherApp`] reads the snapshot on every tick, detects a
//! changed network, and decides whether a configuration should be applied.
//! The controller only decides: the caller owns the lock around the
//! snapshot, runs the actuator plan, and reports the outcome back through
//! [`NetworkSwitcherApp::record_apply_outcome`].
//!
//! The decision rules, per tick:
//! - a snapshot is consumed only when a refresh is outstanding and the
//!   snapshot is no longer loading;
//! - only a consumed snapshot whose SSID or router MAC differs from the
//!   last observed values triggers a match attempt, immediately and
//!   independently of the probe cadence;
//! - a match equal to the last applied configuration is skipped, and a
//!   missing match clears the last-applied marker.

use vstd::prelude::*;

use crate::config::{
    AppConfig, AppConfigV, NetworkConfig, NetworkConfigV, clone_opt, spec_find_auto_apply,
};
use crate::network::{ApplyPlan, NetworkIdentity, NetworkIdentityV, apply_config, or_default,
    spec_apply_steps};
use crate::text::str_eq;

verus! {

/// The shared snapshot a probe worker fills and the controller reads.
pub struct NetworkState {
    /// SSID to display: the WiFi SSID, or the labelled wired service.
    pub ssid: Option<String>,
    /// Router MAC of the probed network.
    pub router_mac: Option<String>,
    /// Live settings of the probed service.
    pub config: Option<NetworkConfig>,
    /// Whether a probe is still filling this snapshot.
    pub is_loading: bool,
}

/// Mathematical image of a [`NetworkState`].
#[verifier::ext_equal]
pub struct NetworkStateV {
    pub ssid: Option<Seq<char>>,
    pub router_mac: Option<Seq<char>>,
    pub config: Option<NetworkConfigV>,
    pub is_loading: bool,
}

impl View for NetworkState {
    type V = NetworkStateV;

    open spec fn view(&self) -> NetworkStateV {
        NetworkStateV {
            ssid: self.ssid.deep_view(),
            router_mac: self.router_mac.deep_view(),
            config: self.config.deep_view(),
            is_loading: self.is_loading,
        }
    }
}

impl Default for NetworkState {
    /// The empty snapshot: nothing probed yet, not loading.
    fn default() -> (r: Self)
        ensures
            r@.ssid is None,
            r@.router_mac is None,
            r@.config is None,
            !r@.is_loading,
    {
        NetworkState { ssid: None, router_mac: None, config: None, is_loading: false }
    }
}

/// The label a wired service is displayed under in place of an SSID.
pub open spec fn wired_label(name: Seq<char>) -> Seq<char> {
    "[wired] "@ + name
}

/// The SSID a probed identity is displayed under: the WiFi SSID, or the
/// wired service name behind a wired marker.
pub open spec fn display_ssid(id: NetworkIdentityV) -> Option<Seq<char>> {
    if id.is_wired {
        match id.service_name {
            Some(n) => Some(wired_label(n)),
            None => None,
        }
    } else {
        id.ssid
    }
}

impl NetworkState {
    /// Marks the snapshot as loading; done before a probe worker starts.
    pub fn begin_loading(&mut self)
        ensures
            final(self)@ == (NetworkStateV { is_loading: true, ..old(self)@ }),
    {
        self.is_loading = true;
        proof {
            assert(self@ =~= (NetworkStateV { is_loading: true, ..old(self)@ }));
        }
    }

    /// Publishes a completed probe: identity fields and live settings are
    /// replaced atomically and the loading flag cleared.
    pub fn publish(&mut self, identity: NetworkIdentity, live: NetworkConfig)
        ensures
            final(self)@.ssid == display_ssid(identity@),
            final(self)@.router_mac == identity@.router_mac,
            final(self)@.config == Some(live@),
            !final(self)@.is_loading,
    {
        let display = if identity.is_wired {
            match identity.service_name {
                Some(n) => Some(String::from_str("[wired] ").concat(n.as_str())),
                None => None,
            }
        } else {
            identity.ssid
        };
        self.ssid = display;
        self.router_mac = identity.router_mac;
        self.config = Some(live);
        self.is_loading = false;
    }
}

/// Foreground controller state: the configuration store, the last
/// observed network identity, and the re-apply suppression marker.
pub struct NetworkSwitcherApp {
    /// The configuration store and process-wide switches.
    pub config: AppConfig,
    /// SSID observed at the last consumed snapshot.
    pub current_ssid: Option<String>,
    /// Router MAC observed at the last consumed snapshot.
    pub current_router_mac: Option<String>,
    /// Live settings observed at the last consumed snapshot.
    pub current_network_config: Option<NetworkConfig>,
    /// Name of the configuration applied most recently, to suppress
    /// re-application while the matching network stays connected.
    pub last_applied_key: Option<String>,
    /// Whether a probe refresh is outstanding.
    pub is_refreshing: bool,
    /// Short user-facing report of the last apply attempt.
    pub status_message: String,
    /// Whether the password check has been satisfied.
    pub is_authenticated: bool,
    /// Whether the last password attempt failed.
    pub password_error: bool,
    /// The password being typed.
    pub password_input: String,
}

/// Mathematical image of a [`NetworkSwitcherApp`].
#[verifier::ext_equal]
pub struct NetworkSwitcherAppV {
    pub config: AppConfigV,
    pub current_ssid: Option<Seq<char>>,
    pub current_router_mac: Option<Seq<char>>,
    pub current_network_config: Option<NetworkConfigV>,
    pub last_applied_key: Option<Seq<char>>,
    pub is_refreshing: bool,
    pub status_message: Seq<char>,
    pub is_authenticated: bool,
    pub password_error: bool,
    pub password_input: Seq<char>,
}

impl View for NetworkSwitcherApp {
    type V = NetworkSwitcherAppV;

    open spec fn view(&self) -> NetworkSwitcherAppV {
        NetworkSwitcherAppV {
            config: self.config@,
            current_ssid: self.current_ssid.deep_view(),
            current_router_mac: self.current_router_mac.deep_view(),
            current_network_config: self.current_network_config.deep_view(),
            last_applied_key: self.last_applied_key.deep_view(),
            is_refreshing: self.is_refreshing,
            status_message: self.status_message@,
            is_authenticated: self.is_authenticated,
            password_error: self.password_error,
            password_input: self.password_input@,
        }
    }
}

/// What consuming a snapshot does to the controller state, and whether
/// the observed network changed.  A snapshot is consumed only when a
/// refresh is outstanding and the snapshot has finished loading.
pub open spec fn spec_check_bg(s: NetworkSwitcherAppV, st: NetworkStateV) -> (
    NetworkSwitcherAppV,
    bool,
) {
    if !st.is_loading && s.is_refreshing {
        (
            NetworkSwitcherAppV {
                current_ssid: st.ssid,
                current_router_mac: st.router_mac,
                current_network_config: st.config,
                is_refreshing: false,
                ..s
            },
            s.current_ssid != st.ssid || s.current_router_mac != st.router_mac,
        )
    } else {
        (s, false)
    }
}

/// What the auto-apply decision does to the controller state, and which
/// configuration it asks to apply: none when switching is off or the SSID
/// unknown; none (clearing the marker) when nothing matches; none when
/// the match was already applied; otherwise the match.
pub open spec fn spec_try_auto_apply(s: NetworkSwitcherAppV) -> (
    NetworkSwitcherAppV,
    Option<NetworkConfigV>,
) {
    if !s.config.auto_switch {
        (s, None)
    } else {
        match s.current_ssid {
            None => (s, None),
            Some(ssid) => match spec_find_auto_apply(
                s.config.configs,
                ssid,
                s.current_router_mac,
            ) {
                Some(c) => if s.last_applied_key == Some(c.name) {
                    (s, None)
                } else {
                    (s, Some(c))
                },
                None => (NetworkSwitcherAppV { last_applied_key: None, ..s }, None),
            },
        }
    }
}

/// One controller tick: consume the snapshot, and on a changed network
/// run the auto-apply decision at once; the cadence flag only schedules
/// the next probe.
pub open spec fn spec_tick(s: NetworkSwitcherAppV, st: NetworkStateV, cadence_elapsed: bool) -> (
    NetworkSwitcherAppV,
    Option<NetworkConfigV>,
    bool,
) {
    let (s1, changed) = spec_check_bg(s, st);
    let (s2, apply) = if changed {
        spec_try_auto_apply(s1)
    } else {
        (s1, None)
    };
    (s2, apply, cadence_elapsed)
}

impl NetworkSwitcherApp {
    /// Fresh controller state around a loaded configuration store:
    /// nothing observed, nothing applied, no refresh outstanding, the
    /// controller still locked.
    pub fn new(config: AppConfig) -> (r: Self)
        ensures
            r@.config == config@,
            r@.current_ssid is None,
            r@.current_router_mac is None,
            r@.current_network_config is None,
            r@.last_applied_key is None,
            !r@.is_refreshing,
            r@.status_message.len() == 0,
            !r@.is_authenticated,
            !r@.password_error,
            r@.password_input.len() == 0,
    {
        NetworkSwitcherApp {
            config,
            current_ssid: None,
            current_router_mac: None,
            current_network_config: None,
            last_applied_key: None,
            is_refreshing: false,
            status_message: String::new(),
            is_authenticated: false,
            password_error: false,
            password_input: String::new(),
        }
    }

    /// Consumes the snapshot when a refresh has completed; reports
    /// whether the observed SSID or router MAC changed.
    pub fn check_bg_state(&mut self, state: &NetworkState) -> (changed: bool)
        ensures
            (final(self)@, changed) == spec_check_bg(old(self)@, state@),
    {
        if state.is_loading || !self.is_refreshing {
            proof {
                assert(self@ =~= spec_check_bg(old(self)@, state@).0);
            }
            return false;
        }
        let changed = !opt_str_eq(&self.current_ssid, &state.ssid) || !opt_str_eq(
            &self.current_router_mac,
            &state.router_mac,
        );
        self.current_ssid = clone_opt(&state.ssid);
        self.current_router_mac = clone_opt(&state.router_mac);
        self.current_network_config = match &state.config {
            Some(c) => Some(c.duplicate()),
            None => None,
        };
        self.is_refreshing = false;
        proof {
            assert(self@ =~= spec_check_bg(old(self)@, state@).0);
        }
        changed
    }

    /// Runs the auto-apply decision and hands back the configuration the
    /// caller should apply now, if any.  The last-applied marker is
    /// cleared when nothing matches; it is set only once the caller
    /// reports a successful apply.
    pub fn try_auto_apply(&mut self) -> (r: Option<NetworkConfig>)
        ensures
            final(self)@ == spec_try_auto_apply(old(self)@).0,
            r.deep_view() == spec_try_auto_apply(old(self)@).1,
    {
        if !self.config.auto_switch {
            return None;
        }
        let matched: Option<NetworkConfig> = {
            let ssid: &String = match &self.current_ssid {
                Some(s) => s,
                None => {
                    return None;
                },
            };
            let mac: Option<&str> = match &self.current_router_mac {
                Some(m) => Some(m.as_str()),
                None => None,
            };
            match self.config.find_auto_apply_config(ssid.as_str(), mac) {
                Some(c) => Some(c.duplicate()),
                None => None,
            }
        };
        match matched {
            Some(c) => {
                let already = match &self.last_applied_key {
                    Some(last) => str_eq(last.as_str(), c.name.as_str()),
                    None => false,
                };
                if already {
                    None
                } else {
                    Some(c)
                }
            },
            None => {
                self.last_applied_key = None;
                proof {
                    assert(self@ =~= spec_try_auto_apply(old(self)@).0);
                }
                None
            },
        }
    }

    /// Resolves the service a configuration targets — its own
    /// `target_service`, or the currently selected service — and builds
    /// the actuator plan for it.
    pub fn apply_config_internal(&self, cfg: &NetworkConfig) -> (plan: ApplyPlan)
        ensures
            plan.service@ == or_default(cfg@.target_service, self@.config.network_service),
            plan.steps.deep_view() == spec_apply_steps(cfg@),
    {
        let service: String = match &cfg.target_service {
            Some(s) => s.clone(),
            None => self.config.network_service.clone(),
        };
        apply_config(service.as_str(), cfg)
    }

    /// Records the outcome the caller got from running an apply plan: a
    /// success sets the last-applied marker and asks for a re-probe, a
    /// failure only reports.  The status message names the configuration
    /// and service, or the error.
    pub fn record_apply_outcome(
        &mut self,
        cfg: &NetworkConfig,
        service: &str,
        error: Option<String>,
    ) -> (refresh: bool)
        ensures
            match error {
                None => {
                    &&& final(self)@ == (NetworkSwitcherAppV {
                        last_applied_key: Some(cfg@.name),
                        status_message: applied_status(cfg@.name, service@),
                        ..old(self)@
                    })
                    &&& refresh
                },
                Some(e) => {
                    &&& final(self)@ == (NetworkSwitcherAppV {
                        status_message: failed_status(e@),
                        ..old(self)@
                    })
                    &&& !refresh
                },
            },
    {
        match error {
            None => {
                self.status_message = String::from_str("applied ").concat(
                    cfg.name.as_str(),
                ).concat(" -> ").concat(service);
                self.last_applied_key = Some(cfg.config_key());
                proof {
                    assert(self@ =~= (NetworkSwitcherAppV {
                        last_applied_key: Some(cfg@.name),
                        status_message: applied_status(cfg@.name, service@),
                        ..old(self)@
                    }));
                }
                true
            },
            Some(e) => {
                self.status_message = String::from_str("apply failed: ").concat(e.as_str());
                proof {
                    assert(self@ =~= (NetworkSwitcherAppV {
                        status_message: failed_status(e@),
                        ..old(self)@
                    }));
                }
                false
            },
        }
    }

    /// One controller tick: consume the snapshot, decide on an apply
    /// when the network changed, and pass the cadence decision through.
    pub fn check_and_auto_apply(&mut self, state: &NetworkState, cadence_elapsed: bool) -> (r: (
        Option<NetworkConfig>,
        bool,
    ))
        ensures
            final(self)@ == spec_tick(old(self)@, state@, cadence_elapsed).0,
            r.0.deep_view() == spec_tick(old(self)@, state@, cadence_elapsed).1,
            r.1 == spec_tick(old(self)@, state@, cadence_elapsed).2,
    {
        let changed = self.check_bg_state(state);
        let apply = if changed {
            self.try_auto_apply()
        } else {
            None
        };
        (apply, cadence_elapsed)
    }

    /// Starts a probe refresh unless one is already outstanding; at most
    /// one probe is ever in flight.
    pub fn begin_refresh(&mut self, state: &mut NetworkState) -> (started: bool)
        ensures
            old(self)@.is_refreshing ==> {
                &&& final(self)@ == old(self)@
                &&& final(state)@ == old(state)@
                &&& !started
            },
            !old(self)@.is_refreshing ==> {
                &&& final(self)@ == (NetworkSwitcherAppV { is_refreshing: true, ..old(self)@ })
                &&& final(state)@ == (NetworkStateV { is_loading: true, ..old(state)@ })
                &&& started
            },
    {
        if self.is_refreshing {
            proof {
                assert(self@ =~= old(self)@);
                assert(state@ =~= old(state)@);
            }
            return false;
        }
        self.is_refreshing = true;
        state.begin_loading();
        proof {
            assert(self@ =~= (NetworkSwitcherAppV { is_refreshing: true, ..old(self)@ }));
        }
        true
    }

    /// Checks the typed password; a correct one unlocks the controller
    /// and asks for an immediate refresh, a wrong one flags the error
    /// and clears the input.
    pub fn verify_password(&mut self) -> (refresh: bool)
        ensures
            old(self)@.password_input == "Legna"@ ==> {
                &&& final(self)@ == (NetworkSwitcherAppV {
                    is_authenticated: true,
                    password_error: false,
                    ..old(self)@
                })
                &&& refresh
            },
            old(self)@.password_input != "Legna"@ ==> {
                &&& final(self)@ == (NetworkSwitcherAppV {
                    password_error: true,
                    password_input: Seq::empty(),
                    ..old(self)@
                })
                &&& !refresh
            },
    {
        if str_eq(self.password_input.as_str(), "Legna") {
            self.is_authenticated = true;
            self.password_error = false;
            proof {
                assert(self@ =~= (NetworkSwitcherAppV {
                    is_authenticated: true,
                    password_error: false,
                    ..old(self)@
                }));
            }
            true
        } else {
            self.password_error = true;
            self.password_input = String::new();
            proof {
                assert(self@ =~= (NetworkSwitcherAppV {
                    password_error: true,
                    password_input: Seq::empty(),
                    ..old(self)@
                }));
            }
            false
        }
    }
}

/// Status line reporting a successful apply of a configuration to a
/// service.
pub open spec fn applied_status(name: Seq<char>, service: Seq<char>) -> Seq<char> {
    "applied "@ + name + " -> "@ + service
}

/// Status line reporting a failed apply.
pub open spec fn failed_status(error: Seq<char>) -> Seq<char> {
    "apply failed: "@ + error
}

/// Comparison of two optional strings by contents.
pub fn opt_str_eq(a: &Option<String>, b: &Option<String>) -> (r: bool)
    ensures
        r == (a.deep_view() == b.deep_view()),
{
    match (a, b) {
        (None, None) => true,
        (Some(x), Some(y)) => str_eq(x.as_str(), y.as_str()),
        _ => false,
    }
}

/// A tick that observes the identity the controller has already recorded
/// never asks for an apply: re-application is suppressed while the
/// network stays the same.
pub proof fn lemma_unchanged_identity_no_apply(
    s: NetworkSwitcherAppV,
    st: NetworkStateV,
    cadence_elapsed: bool,
)
    requires
        s.current_ssid == st.ssid,
        s.current_router_mac == st.router_mac,
    ensures
        spec_tick(s, st, cadence_elapsed).1 is None,
{
}

/// Two consecutive controller ticks over an unchanged snapshot ask for
/// an apply at most once: whatever the first tick decided, the second
/// tick asks for nothing.
pub proof fn lemma_reapply_suppression(
    s0: NetworkSwitcherAppV,
    st: NetworkStateV,
    c0: bool,
    c1: bool,
)
    ensures
        spec_tick(spec_tick(s0, st, c0).0, st, c1).1 is None,
{
    let s1 = spec_tick(s0, st, c0).0;
    if !st.is_loading && s0.is_refreshing {
        assert(!s1.is_refreshing);
    } else {
        assert(spec_check_bg(s1, st).1 == false);
    }
}

/// The idempotence guard: when the configuration the snapshot's identity
/// selects is the one recorded as last applied, a tick never asks to
/// apply it again, however the snapshot was reached.
pub proof fn lemma_last_applied_suppression(
    s: NetworkSwitcherAppV,
    st: NetworkStateV,
    cadence_elapsed: bool,
    m: NetworkConfigV,
)
    requires
        st.ssid is Some,
        spec_find_auto_apply(s.config.configs, st.ssid->0, st.router_mac) == Some(m),
        s.last_applied_key == Some(m.name),
    ensures
        spec_tick(s, st, cadence_elapsed).1 is None,
{
}

/// A ready snapshot carrying a changed SSID triggers the matching apply
/// on the very tick that consumes it, independently of the cadence
/// timer.
pub proof fn lemma_changed_ssid_triggers_apply(
    s: NetworkSwitcherAppV,
    st: NetworkStateV,
    cadence_elapsed: bool,
    m: NetworkConfigV,
)
    requires
        !st.is_loading,
        s.is_refreshing,
        st.ssid != s.current_ssid,
        s.config.auto_switch,
        st.ssid is Some,
        spec_find_auto_apply(s.config.configs, st.ssid->0, st.router_mac) == Some(m),
        s.last_applied_key != Some(m.name),
    ensures
        spec_tick(s, st, cadence_elapsed).1 == Some(m),
{
}

} // verus!
