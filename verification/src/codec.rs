//! The persisted configuration document.
//!
//! A configuration store is carried to durable storage as a byte
//! document: booleans as one byte, integers as eight little-endian
//! bytes, strings as a byte length followed by their UTF-8 bytes,
//! options behind a one-byte tag, and lists behind an element count.
//! Every store has exactly one encoding, and decoding a store's
//! encoding recovers the store in every field
//! ([`lemma_document_round_trip`]): the document round-trips losslessly.
//!
//! Reading a document that does not decode — absent, truncated, corrupt,
//! or holding duplicate names — falls back to the empty default store;
//! loading never fails.

use vstd::prelude::*;
use vstd::bytes::{
    lemma_auto_spec_u64_to_from_le_bytes, spec_u64_from_le_bytes, spec_u64_to_le_bytes,
    u64_from_le_bytes, u64_to_le_bytes,
};
use vstd::slice::{slice_subrange, slice_to_vec};
use vstd::string::StrSliceExecFns;
use vstd::utf8::{decode_utf8, encode_utf8, encode_utf8_decode_utf8, encode_utf8_valid_utf8,
    valid_utf8};

use crate::config::{AppConfig, AppConfigV, ConfigType, NetworkConfig, NetworkConfigV};

verus! {

// ---------------------------------------------------------------------
// The encoding, as spec functions.
// ---------------------------------------------------------------------

/// Whether a count fits the eight-byte length field.
pub open spec fn fits_u64(n: int) -> bool {
    n < 0x10000000000000000
}

pub open spec fn enc_bool(b: bool) -> Seq<u8> {
    seq![if b { 1u8 } else { 0u8 }]
}

pub open spec fn enc_u64(n: u64) -> Seq<u8> {
    spec_u64_to_le_bytes(n)
}

pub open spec fn enc_str(s: Seq<char>) -> Seq<u8> {
    enc_u64(encode_utf8(s).len() as u64) + encode_utf8(s)
}

pub open spec fn enc_opt_str(o: Option<Seq<char>>) -> Seq<u8> {
    match o {
        None => seq![0u8],
        Some(s) => seq![1u8] + enc_str(s),
    }
}

pub open spec fn enc_config_type(t: ConfigType) -> Seq<u8> {
    match t {
        ConfigType::Wifi => seq![0u8],
        ConfigType::Service => seq![1u8],
    }
}

pub open spec fn enc_str_items(l: Seq<Seq<char>>) -> Seq<u8>
    decreases l.len(),
{
    if l.len() == 0 {
        Seq::empty()
    } else {
        enc_str(l[0]) + enc_str_items(l.drop_first())
    }
}

pub open spec fn enc_str_list(l: Seq<Seq<char>>) -> Seq<u8> {
    enc_u64(l.len() as u64) + enc_str_items(l)
}

pub open spec fn enc_config(c: NetworkConfigV) -> Seq<u8> {
    enc_str(c.name) + (enc_str(c.ssid) + (enc_config_type(c.config_type) + (enc_opt_str(
        c.router_mac,
    ) + (enc_bool(c.auto_apply) + (enc_opt_str(c.target_service) + (enc_bool(c.use_dhcp) + (
    enc_opt_str(c.ip_address) + (enc_opt_str(c.subnet_mask) + (enc_opt_str(c.router)
        + enc_str_list(c.dns_servers))))))))))
}

pub open spec fn enc_config_items(l: Seq<NetworkConfigV>) -> Seq<u8>
    decreases l.len(),
{
    if l.len() == 0 {
        Seq::empty()
    } else {
        enc_config(l[0]) + enc_config_items(l.drop_first())
    }
}

pub open spec fn enc_config_list(l: Seq<NetworkConfigV>) -> Seq<u8> {
    enc_u64(l.len() as u64) + enc_config_items(l)
}

/// The whole document: the switches first, then the configurations.
pub open spec fn enc_document(a: AppConfigV) -> Seq<u8> {
    enc_bool(a.auto_switch) + (enc_str(a.network_service) + enc_config_list(a.configs))
}

/// A string whose UTF-8 form fits the length field.
pub open spec fn str_ok(s: Seq<char>) -> bool {
    fits_u64(encode_utf8(s).len() as int)
}

pub open spec fn opt_str_ok(o: Option<Seq<char>>) -> bool {
    match o {
        None => true,
        Some(s) => str_ok(s),
    }
}

pub open spec fn str_list_ok(l: Seq<Seq<char>>) -> bool {
    fits_u64(l.len() as int) && forall|i: int| 0 <= i < l.len() ==> str_ok(#[trigger] l[i])
}

pub open spec fn config_ok(c: NetworkConfigV) -> bool {
    str_ok(c.name) && str_ok(c.ssid) && opt_str_ok(c.router_mac) && opt_str_ok(c.target_service)
        && opt_str_ok(c.ip_address) && opt_str_ok(c.subnet_mask) && opt_str_ok(c.router)
        && str_list_ok(c.dns_servers)
}

/// A store the document format can carry: every count fits the length
/// field.  Every store held in memory satisfies this.
pub open spec fn doc_ok(a: AppConfigV) -> bool {
    str_ok(a.network_service) && fits_u64(a.configs.len() as int) && forall|i: int|
        0 <= i < a.configs.len() ==> config_ok(#[trigger] a.configs[i])
}

// ---------------------------------------------------------------------
// The decoding, as spec functions.  Each takes the document and a
// position and yields the decoded value and the position after it.
// ---------------------------------------------------------------------

pub open spec fn dec_bool(d: Seq<u8>, i: int) -> Option<(bool, int)> {
    if 0 <= i && i + 1 <= d.len() && (d[i] == 0u8 || d[i] == 1u8) {
        Some((d[i] == 1u8, i + 1))
    } else {
        None
    }
}

pub open spec fn dec_u64(d: Seq<u8>, i: int) -> Option<(u64, int)> {
    if 0 <= i && i + 8 <= d.len() {
        Some((spec_u64_from_le_bytes(d.subrange(i, i + 8)), i + 8))
    } else {
        None
    }
}

pub open spec fn dec_str(d: Seq<u8>, i: int) -> Option<(Seq<char>, int)> {
    match dec_u64(d, i) {
        None => None,
        Some((n, j)) => if j + n <= d.len() && valid_utf8(d.subrange(j, j + n)) {
            Some((decode_utf8(d.subrange(j, j + n)), j + n))
        } else {
            None
        },
    }
}

pub open spec fn dec_opt_str(d: Seq<u8>, i: int) -> Option<(Option<Seq<char>>, int)> {
    if 0 <= i && i + 1 <= d.len() && d[i] == 0u8 {
        Some((None, i + 1))
    } else if 0 <= i && i + 1 <= d.len() && d[i] == 1u8 {
        match dec_str(d, i + 1) {
            None => None,
            Some((s, j)) => Some((Some(s), j)),
        }
    } else {
        None
    }
}

pub open spec fn dec_config_type(d: Seq<u8>, i: int) -> Option<(ConfigType, int)> {
    if 0 <= i && i + 1 <= d.len() && d[i] == 0u8 {
        Some((ConfigType::Wifi, i + 1))
    } else if 0 <= i && i + 1 <= d.len() && d[i] == 1u8 {
        Some((ConfigType::Service, i + 1))
    } else {
        None
    }
}

pub open spec fn dec_str_items(d: Seq<u8>, i: int, n: int) -> Option<(Seq<Seq<char>>, int)>
    decreases n,
{
    if n <= 0 {
        Some((Seq::empty(), i))
    } else {
        match dec_str(d, i) {
            None => None,
            Some((s, j)) => match dec_str_items(d, j, n - 1) {
                None => None,
                Some((rest, k)) => Some((seq![s] + rest, k)),
            },
        }
    }
}

pub open spec fn dec_str_list(d: Seq<u8>, i: int) -> Option<(Seq<Seq<char>>, int)> {
    match dec_u64(d, i) {
        None => None,
        Some((n, j)) => dec_str_items(d, j, n as int),
    }
}

pub open spec fn dec_config(d: Seq<u8>, i: int) -> Option<(NetworkConfigV, int)> {
    match dec_str(d, i) {
        None => None,
        Some((name, i1)) => match dec_str(d, i1) {
            None => None,
            Some((ssid, i2)) => match dec_config_type(d, i2) {
                None => None,
                Some((config_type, i3)) => match dec_opt_str(d, i3) {
                    None => None,
                    Some((router_mac, i4)) => match dec_bool(d, i4) {
                        None => None,
                        Some((auto_apply, i5)) => match dec_opt_str(d, i5) {
                            None => None,
                            Some((target_service, i6)) => match dec_bool(d, i6) {
                                None => None,
                                Some((use_dhcp, i7)) => match dec_opt_str(d, i7) {
                                    None => None,
                                    Some((ip_address, i8)) => match dec_opt_str(d, i8) {
                                        None => None,
                                        Some((subnet_mask, i9)) => match dec_opt_str(d, i9) {
                                            None => None,
                                            Some((router, i10)) => match dec_str_list(d, i10) {
                                                None => None,
                                                Some((dns_servers, i11)) => Some((
                                                    NetworkConfigV {
                                                        name,
                                                        ssid,
                                                        config_type,
                                                        router_mac,
                                                        auto_apply,
                                                        target_service,
                                                        use_dhcp,
                                                        ip_address,
                                                        subnet_mask,
                                                        router,
                                                        dns_servers,
                                                    },
                                                    i11,
                                                )),
                                            },
                                        },
                                    },
                                },
                            },
                        },
                    },
                },
            },
        },
    }
}

pub open spec fn dec_config_items(d: Seq<u8>, i: int, n: int) -> Option<(Seq<NetworkConfigV>, int)>
    decreases n,
{
    if n <= 0 {
        Some((Seq::empty(), i))
    } else {
        match dec_config(d, i) {
            None => None,
            Some((c, j)) => match dec_config_items(d, j, n - 1) {
                None => None,
                Some((rest, k)) => Some((seq![c] + rest, k)),
            },
        }
    }
}

pub open spec fn dec_config_list(d: Seq<u8>, i: int) -> Option<(Seq<NetworkConfigV>, int)> {
    match dec_u64(d, i) {
        None => None,
        Some((n, j)) => dec_config_items(d, j, n as int),
    }
}

pub open spec fn dec_document(d: Seq<u8>, i: int) -> Option<(AppConfigV, int)> {
    match dec_bool(d, i) {
        None => None,
        Some((auto_switch, i1)) => match dec_str(d, i1) {
            None => None,
            Some((network_service, i2)) => match dec_config_list(d, i2) {
                None => None,
                Some((configs, i3)) => Some((
                    AppConfigV { configs, auto_switch, network_service },
                    i3,
                )),
            },
        },
    }
}

/// What loading a document yields: the decoded store, provided the whole
/// document was consumed and the store's names are unique; nothing
/// otherwise.
pub open spec fn spec_load_document(d: Seq<u8>) -> Option<AppConfigV> {
    match dec_document(d, 0) {
        Some((a, end)) => if end == d.len() && a.wf() {
            Some(a)
        } else {
            None
        },
        None => None,
    }
}

// ---------------------------------------------------------------------
// Decoding inverts encoding.
// ---------------------------------------------------------------------

/// The encoding of a boolean decodes to it.
proof fn lemma_dec_bool(d: Seq<u8>, i: int, b: bool)
    requires
        0 <= i,
        i + enc_bool(b).len() <= d.len(),
        d.subrange(i, i + enc_bool(b).len()) == enc_bool(b),
    ensures
        dec_bool(d, i) == Some((b, i + enc_bool(b).len())),
{
    assert(d[i] == enc_bool(b)[0]);
}

/// The encoding of an integer decodes to it.
proof fn lemma_dec_u64(d: Seq<u8>, i: int, n: u64)
    requires
        0 <= i,
        i + enc_u64(n).len() <= d.len(),
        d.subrange(i, i + enc_u64(n).len()) == enc_u64(n),
    ensures
        dec_u64(d, i) == Some((n, i + 8)),
{
    lemma_auto_spec_u64_to_from_le_bytes();
    assert(enc_u64(n).len() == 8);
    assert(d.subrange(i, i + 8) == spec_u64_to_le_bytes(n));
}

/// The encoding of a string decodes to it.
proof fn lemma_dec_str(d: Seq<u8>, i: int, s: Seq<char>)
    requires
        0 <= i,
        str_ok(s),
        i + enc_str(s).len() <= d.len(),
        d.subrange(i, i + enc_str(s).len()) == enc_str(s),
    ensures
        dec_str(d, i) == Some((s, i + enc_str(s).len())),
{
    lemma_auto_spec_u64_to_from_le_bytes();
    let bs = encode_utf8(s);
    let n64 = bs.len() as u64;
    assert(n64 as int == bs.len() as int);
    assert(enc_u64(n64).len() == 8);
    assert(enc_str(s).len() == 8 + bs.len());
    assert(d.subrange(i, i + 8) =~= enc_u64(n64)) by {
        assert forall|m: int| 0 <= m < 8 implies d.subrange(i, i + 8)[m] == enc_u64(n64)[m] by {
            assert(d[i + m] == enc_str(s)[m]);
        }
    }
    lemma_dec_u64(d, i, n64);
    let j = i + 8;
    assert(d.subrange(j, j + bs.len()) =~= bs) by {
        assert forall|m: int| 0 <= m < bs.len() implies d.subrange(j, j + bs.len())[m] == bs[m] by {
            assert(d[j + m] == enc_str(s)[8 + m]);
        }
    }
    encode_utf8_valid_utf8(s);
    encode_utf8_decode_utf8(s);
}

/// The encoding of an optional string decodes to it.
proof fn lemma_dec_opt_str(d: Seq<u8>, i: int, o: Option<Seq<char>>)
    requires
        0 <= i,
        opt_str_ok(o),
        i + enc_opt_str(o).len() <= d.len(),
        d.subrange(i, i + enc_opt_str(o).len()) == enc_opt_str(o),
    ensures
        dec_opt_str(d, i) == Some((o, i + enc_opt_str(o).len())),
{
    match o {
        None => {
            assert(d[i] == enc_opt_str(o)[0]);
        },
        Some(s) => {
            assert(d[i] == enc_opt_str(o)[0]);
            assert(d[i] == 1u8);
            assert(d.subrange(i + 1, i + 1 + enc_str(s).len()) =~= enc_str(s)) by {
                assert forall|m: int| 0 <= m < enc_str(s).len() implies d.subrange(
                    i + 1,
                    i + 1 + enc_str(s).len(),
                )[m] == enc_str(s)[m] by {
                    assert(d[i + 1 + m] == enc_opt_str(o)[1 + m]);
                }
            }
            lemma_dec_str(d, i + 1, s);
        },
    }
}

/// The encoding of a configuration type decodes to it.
proof fn lemma_dec_config_type(d: Seq<u8>, i: int, t: ConfigType)
    requires
        0 <= i,
        i + enc_config_type(t).len() <= d.len(),
        d.subrange(i, i + enc_config_type(t).len()) == enc_config_type(t),
    ensures
        dec_config_type(d, i) == Some((t, i + enc_config_type(t).len())),
{
    assert(d[i] == enc_config_type(t)[0]);
}

/// A subrange equality passes to any inner subrange.
proof fn lemma_sub_prefix(d: Seq<u8>, i: int, whole: Seq<u8>, off: int, part: Seq<u8>)
    requires
        0 <= i,
        i + whole.len() <= d.len(),
        d.subrange(i, i + whole.len()) == whole,
        0 <= off,
        off + part.len() <= whole.len(),
        forall|m: int| 0 <= m < part.len() ==> part[m] == whole[off + m],
    ensures
        d.subrange(i + off, i + off + part.len()) == part,
{
    assert(d.subrange(i + off, i + off + part.len()) =~= part) by {
        assert forall|m: int| 0 <= m < part.len() implies d.subrange(
            i + off,
            i + off + part.len(),
        )[m] == part[m] by {
            assert(d[i + off + m] == whole[off + m]);
        }
    }
}

/// The encoding of a string list decodes to it, element by element.
proof fn lemma_dec_str_items(d: Seq<u8>, i: int, l: Seq<Seq<char>>)
    requires
        0 <= i,
        forall|k: int| 0 <= k < l.len() ==> str_ok(#[trigger] l[k]),
        i + enc_str_items(l).len() <= d.len(),
        d.subrange(i, i + enc_str_items(l).len()) == enc_str_items(l),
    ensures
        dec_str_items(d, i, l.len() as int) == Some((l, i + enc_str_items(l).len())),
    decreases l.len(),
{
    if l.len() == 0 {
        assert(l =~= Seq::<Seq<char>>::empty());
    } else {
        let head = enc_str(l[0]);
        let tail = enc_str_items(l.drop_first());
        assert(enc_str_items(l) == head + tail);
        lemma_sub_prefix(d, i, enc_str_items(l), 0, head);
        lemma_dec_str(d, i, l[0]);
        lemma_sub_prefix(d, i, enc_str_items(l), head.len() as int, tail);
        lemma_dec_str_items(d, i + head.len(), l.drop_first());
        assert(seq![l[0]] + l.drop_first() =~= l);
    }
}

/// A subrange holding a concatenation splits into subranges holding the
/// parts.
proof fn lemma_split(d: Seq<u8>, i: int, x: Seq<u8>, y: Seq<u8>)
    requires
        0 <= i,
        i + x.len() + y.len() <= d.len(),
        d.subrange(i, i + x.len() + y.len()) == x + y,
    ensures
        d.subrange(i, i + x.len()) == x,
        d.subrange(i + x.len(), i + x.len() + y.len()) == y,
{
    assert(d.subrange(i, i + x.len()) =~= x) by {
        assert forall|m: int| 0 <= m < x.len() implies d.subrange(i, i + x.len())[m] == x[m] by {
            assert(d[i + m] == (x + y)[m]);
        }
    }
    assert(d.subrange(i + x.len(), i + x.len() + y.len()) =~= y) by {
        assert forall|m: int| 0 <= m < y.len() implies d.subrange(
            i + x.len(),
            i + x.len() + y.len(),
        )[m] == y[m] by {
            assert(d[i + x.len() + m] == (x + y)[x.len() + m]);
        }
    }
}

/// The encoding of a configuration decodes to it.
#[verifier::rlimit(50)]
proof fn lemma_dec_config(d: Seq<u8>, i: int, c: NetworkConfigV)
    requires
        0 <= i,
        config_ok(c),
        i + enc_config(c).len() <= d.len(),
        d.subrange(i, i + enc_config(c).len()) == enc_config(c),
    ensures
        dec_config(d, i) == Some((c, i + enc_config(c).len())),
{
    lemma_auto_spec_u64_to_from_le_bytes();
    let e1 = enc_str(c.name);
    let e2 = enc_str(c.ssid);
    let e3 = enc_config_type(c.config_type);
    let e4 = enc_opt_str(c.router_mac);
    let e5 = enc_bool(c.auto_apply);
    let e6 = enc_opt_str(c.target_service);
    let e7 = enc_bool(c.use_dhcp);
    let e8 = enc_opt_str(c.ip_address);
    let e9 = enc_opt_str(c.subnet_mask);
    let e10 = enc_opt_str(c.router);
    let e11 = enc_str_list(c.dns_servers);
    let t10 = e10 + e11;
    let t9 = e9 + t10;
    let t8 = e8 + t9;
    let t7 = e7 + t8;
    let t6 = e6 + t7;
    let t5 = e5 + t6;
    let t4 = e4 + t5;
    let t3 = e3 + t4;
    let t2 = e2 + t3;
    assert(enc_config(c) == e1 + t2);
    let i1 = i + e1.len();
    let i2 = i1 + e2.len();
    let i3 = i2 + e3.len();
    let i4 = i3 + e4.len();
    let i5 = i4 + e5.len();
    let i6 = i5 + e6.len();
    let i7 = i6 + e7.len();
    let i8 = i7 + e8.len();
    let i9 = i8 + e9.len();
    let i10 = i9 + e10.len();
    lemma_split(d, i, e1, t2);
    lemma_dec_str(d, i, c.name);
    lemma_split(d, i1, e2, t3);
    lemma_dec_str(d, i1, c.ssid);
    lemma_split(d, i2, e3, t4);
    lemma_dec_config_type(d, i2, c.config_type);
    lemma_split(d, i3, e4, t5);
    lemma_dec_opt_str(d, i3, c.router_mac);
    lemma_split(d, i4, e5, t6);
    lemma_dec_bool(d, i4, c.auto_apply);
    lemma_split(d, i5, e6, t7);
    lemma_dec_opt_str(d, i5, c.target_service);
    lemma_split(d, i6, e7, t8);
    lemma_dec_bool(d, i6, c.use_dhcp);
    lemma_split(d, i7, e8, t9);
    lemma_dec_opt_str(d, i7, c.ip_address);
    lemma_split(d, i8, e9, t10);
    lemma_dec_opt_str(d, i8, c.subnet_mask);
    lemma_split(d, i9, e10, e11);
    lemma_dec_opt_str(d, i9, c.router);
    // The list: its count, then its items.
    let items = enc_str_items(c.dns_servers);
    let n64 = c.dns_servers.len() as u64;
    assert(e11 == enc_u64(n64) + items);
    lemma_split(d, i10, enc_u64(n64), items);
    lemma_dec_u64(d, i10, n64);
    lemma_dec_str_items(d, i10 + 8, c.dns_servers);
}

/// The encoding of a configuration list decodes to it, element by
/// element.
proof fn lemma_dec_config_items(d: Seq<u8>, i: int, l: Seq<NetworkConfigV>)
    requires
        0 <= i,
        forall|k: int| 0 <= k < l.len() ==> config_ok(#[trigger] l[k]),
        i + enc_config_items(l).len() <= d.len(),
        d.subrange(i, i + enc_config_items(l).len()) == enc_config_items(l),
    ensures
        dec_config_items(d, i, l.len() as int) == Some((l, i + enc_config_items(l).len())),
    decreases l.len(),
{
    if l.len() == 0 {
        assert(l =~= Seq::<NetworkConfigV>::empty());
    } else {
        let head = enc_config(l[0]);
        let tail = enc_config_items(l.drop_first());
        assert(enc_config_items(l) == head + tail);
        lemma_sub_prefix(d, i, enc_config_items(l), 0, head);
        lemma_dec_config(d, i, l[0]);
        lemma_sub_prefix(d, i, enc_config_items(l), head.len() as int, tail);
        lemma_dec_config_items(d, i + head.len(), l.drop_first());
        assert(seq![l[0]] + l.drop_first() =~= l);
    }
}

/// Saving a well-formed store and loading the document back yields the
/// same store, field for field.
#[verifier::rlimit(50)]
pub proof fn lemma_document_round_trip(a: AppConfigV)
    requires
        doc_ok(a),
        a.wf(),
    ensures
        spec_load_document(enc_document(a)) == Some(a),
{
    lemma_auto_spec_u64_to_from_le_bytes();
    let d = enc_document(a);
    let e1 = enc_bool(a.auto_switch);
    let e2 = enc_str(a.network_service);
    let e3 = enc_config_list(a.configs);
    assert(d.subrange(0, d.len() as int) =~= d);
    lemma_sub_prefix(d, 0, d, 0, e1);
    lemma_dec_bool(d, 0, a.auto_switch);
    lemma_sub_prefix(d, 0, d, 1, e2);
    lemma_dec_str(d, 1, a.network_service);
    let o2 = 1 + e2.len() as int;
    lemma_sub_prefix(d, 0, d, o2, e3);
    let items = enc_config_items(a.configs);
    let n64 = a.configs.len() as u64;
    lemma_sub_prefix(d, o2, e3, 0, enc_u64(n64));
    lemma_dec_u64(d, o2, n64);
    lemma_sub_prefix(d, o2, e3, 8, items);
    lemma_dec_config_items(d, o2 + 8, a.configs);
    assert(dec_document(d, 0) == Some((
        AppConfigV {
            configs: a.configs,
            auto_switch: a.auto_switch,
            network_service: a.network_service,
        },
        d.len() as int,
    )));
    assert(AppConfigV {
        configs: a.configs,
        auto_switch: a.auto_switch,
        network_service: a.network_service,
    } =~= a);
}

// ---------------------------------------------------------------------
// The executable encoder.
// ---------------------------------------------------------------------

/// Appending an element encodes after the earlier elements.
proof fn lemma_enc_str_items_push(l: Seq<Seq<char>>, x: Seq<char>)
    ensures
        enc_str_items(l.push(x)) == enc_str_items(l) + enc_str(x),
    decreases l.len(),
{
    if l.len() == 0 {
        let e = Seq::<Seq<char>>::empty();
        assert(l.push(x)[0] == x);
        assert(l.push(x).drop_first() =~= e);
        assert(enc_str_items(e) == Seq::<u8>::empty());
        assert(enc_str_items(l.push(x)) == enc_str(x) + Seq::<u8>::empty());
        assert(enc_str_items(l.push(x)) =~= enc_str_items(l) + enc_str(x));
    } else {
        assert(l.push(x)[0] == l[0]);
        assert(l.push(x).drop_first() =~= l.drop_first().push(x));
        lemma_enc_str_items_push(l.drop_first(), x);
        assert(enc_str_items(l.push(x)) == enc_str(l[0]) + (enc_str_items(l.drop_first())
            + enc_str(x)));
        assert(enc_str(l[0]) + (enc_str_items(l.drop_first()) + enc_str(x)) =~= (enc_str(l[0])
            + enc_str_items(l.drop_first())) + enc_str(x));
    }
}

/// Appending a configuration encodes after the earlier ones.
#[verifier::rlimit(50)]
proof fn lemma_enc_config_items_push(l: Seq<NetworkConfigV>, x: NetworkConfigV)
    ensures
        enc_config_items(l.push(x)) == enc_config_items(l) + enc_config(x),
    decreases l.len(),
{
    if l.len() == 0 {
        let e = Seq::<NetworkConfigV>::empty();
        assert(l.push(x)[0] == x);
        assert(l.push(x).drop_first() =~= e);
        assert(enc_config_items(e) == Seq::<u8>::empty());
        assert(enc_config_items(l.push(x)) == enc_config(x) + Seq::<u8>::empty());
        assert(enc_config_items(l.push(x)) =~= enc_config_items(l) + enc_config(x));
    } else {
        assert(l.push(x)[0] == l[0]);
        assert(l.push(x).drop_first() =~= l.drop_first().push(x));
        lemma_enc_config_items_push(l.drop_first(), x);
        assert(enc_config_items(l.push(x)) == enc_config(l[0]) + (enc_config_items(l.drop_first())
            + enc_config(x)));
        assert(enc_config(l[0]) + (enc_config_items(l.drop_first()) + enc_config(x)) =~= (
        enc_config(l[0]) + enc_config_items(l.drop_first())) + enc_config(x));
    }
}

fn push_bool(out: &mut Vec<u8>, b: bool)
    ensures
        final(out)@ == old(out)@ + enc_bool(b),
{
    out.push(if b { 1u8 } else { 0u8 });
    proof {
        assert(out@ =~= old(out)@ + enc_bool(b));
    }
}

fn push_u64(out: &mut Vec<u8>, n: u64)
    ensures
        final(out)@ == old(out)@ + enc_u64(n),
{
    let mut bs = u64_to_le_bytes(n);
    out.append(&mut bs);
}

fn push_str(out: &mut Vec<u8>, s: &str)
    ensures
        final(out)@ == old(out)@ + enc_str(s@),
        str_ok(s@),
{
    let mut bs = s.as_bytes_vec();
    push_u64(out, bs.len() as u64);
    out.append(&mut bs);
    proof {
        assert(out@ =~= old(out)@ + enc_str(s@));
    }
}

fn push_opt_str(out: &mut Vec<u8>, o: &Option<String>)
    ensures
        final(out)@ == old(out)@ + enc_opt_str(o.deep_view()),
        opt_str_ok(o.deep_view()),
{
    match o {
        None => {
            out.push(0u8);
            proof {
                assert(out@ =~= old(out)@ + enc_opt_str(o.deep_view()));
            }
        },
        Some(s) => {
            out.push(1u8);
            push_str(out, s.as_str());
            proof {
                assert(out@ =~= old(out)@ + enc_opt_str(o.deep_view()));
            }
        },
    }
}

fn push_config_type(out: &mut Vec<u8>, t: ConfigType)
    ensures
        final(out)@ == old(out)@ + enc_config_type(t),
{
    match t {
        ConfigType::Wifi => out.push(0u8),
        ConfigType::Service => out.push(1u8),
    }
    proof {
        assert(out@ =~= old(out)@ + enc_config_type(t));
    }
}

fn push_str_list(out: &mut Vec<u8>, l: &Vec<String>)
    ensures
        final(out)@ == old(out)@ + enc_str_list(l.deep_view()),
        str_list_ok(l.deep_view()),
{
    let ghost lv = l.deep_view();
    push_u64(out, l.len() as u64);
    let mut i: usize = 0;
    proof {
        assert(lv.take(0) =~= Seq::<Seq<char>>::empty());
    }
    while i < l.len()
        invariant
            i <= l.len(),
            lv == l.deep_view(),
            out@ == old(out)@ + enc_u64(lv.len() as u64) + enc_str_items(lv.take(i as int)),
            forall|k: int| 0 <= k < i ==> str_ok(#[trigger] lv[k]),
        decreases l.len() - i,
    {
        push_str(out, l[i].as_str());
        proof {
            lemma_enc_str_items_push(lv.take(i as int), lv[i as int]);
            assert(lv.take(i as int).push(lv[i as int]) =~= lv.take(i as int + 1));
        }
        i += 1;
    }
    proof {
        assert(lv.take(i as int) =~= lv);
        assert(old(out)@ + enc_u64(lv.len() as u64) + enc_str_items(lv) =~= old(out)@
            + enc_str_list(lv));
    }
}

#[verifier::rlimit(50)]
fn push_config(out: &mut Vec<u8>, c: &NetworkConfig)
    ensures
        final(out)@ == old(out)@ + enc_config(c@),
        config_ok(c@),
{
    push_str(out, c.name.as_str());
    push_str(out, c.ssid.as_str());
    push_config_type(out, c.config_type);
    push_opt_str(out, &c.router_mac);
    push_bool(out, c.auto_apply);
    push_opt_str(out, &c.target_service);
    push_bool(out, c.use_dhcp);
    push_opt_str(out, &c.ip_address);
    push_opt_str(out, &c.subnet_mask);
    push_opt_str(out, &c.router);
    push_str_list(out, &c.dns_servers);
    proof {
        let o = old(out)@;
        let e1 = enc_str(c@.name);
        let e2 = enc_str(c@.ssid);
        let e3 = enc_config_type(c@.config_type);
        let e4 = enc_opt_str(c@.router_mac);
        let e5 = enc_bool(c@.auto_apply);
        let e6 = enc_opt_str(c@.target_service);
        let e7 = enc_bool(c@.use_dhcp);
        let e8 = enc_opt_str(c@.ip_address);
        let e9 = enc_opt_str(c@.subnet_mask);
        let e10 = enc_opt_str(c@.router);
        let e11 = enc_str_list(c@.dns_servers);
        let p1 = o + e1;
        let p2 = p1 + e2;
        let p3 = p2 + e3;
        let p4 = p3 + e4;
        let p5 = p4 + e5;
        let p6 = p5 + e6;
        let p7 = p6 + e7;
        let p8 = p7 + e8;
        let p9 = p8 + e9;
        let p10 = p9 + e10;
        assert(out@ == p10 + e11);
        let a10 = e10 + e11;
        let a9 = e9 + a10;
        let a8 = e8 + a9;
        let a7 = e7 + a8;
        let a6 = e6 + a7;
        let a5 = e5 + a6;
        let a4 = e4 + a5;
        let a3 = e3 + a4;
        let a2 = e2 + a3;
        let a1 = e1 + a2;
        vstd::seq_lib::lemma_concat_associative(p9, e10, e11);
        vstd::seq_lib::lemma_concat_associative(p8, e9, a10);
        vstd::seq_lib::lemma_concat_associative(p7, e8, a9);
        vstd::seq_lib::lemma_concat_associative(p6, e7, a8);
        vstd::seq_lib::lemma_concat_associative(p5, e6, a7);
        vstd::seq_lib::lemma_concat_associative(p4, e5, a6);
        vstd::seq_lib::lemma_concat_associative(p3, e4, a5);
        vstd::seq_lib::lemma_concat_associative(p2, e3, a4);
        vstd::seq_lib::lemma_concat_associative(p1, e2, a3);
        vstd::seq_lib::lemma_concat_associative(o, e1, a2);
        assert(out@ == o + a1);
        assert(enc_config(c@) == a1);
    }
}

/// Encodes a store as its document bytes.  Every store in memory can be
/// carried: the document validity bound holds of it.
pub fn encode_document(a: &AppConfig) -> (out: Vec<u8>)
    ensures
        out@ == enc_document(a@),
        doc_ok(a@),
{
    let ghost cv = a@.configs;
    let mut out: Vec<u8> = Vec::new();
    push_bool(&mut out, a.auto_switch);
    push_str(&mut out, a.network_service.as_str());
    push_u64(&mut out, a.configs.len() as u64);
    let ghost prefix = out@;
    let mut i: usize = 0;
    proof {
        assert(cv.take(0) =~= Seq::<NetworkConfigV>::empty());
        assert(out@ =~= prefix + enc_config_items(cv.take(0)));
    }
    while i < a.configs.len()
        invariant
            i <= a.configs.len(),
            cv == a@.configs,
            out@ == prefix + enc_config_items(cv.take(i as int)),
            forall|k: int| 0 <= k < i ==> config_ok(#[trigger] cv[k]),
        decreases a.configs.len() - i,
    {
        push_config(&mut out, &a.configs[i]);
        proof {
            lemma_enc_config_items_push(cv.take(i as int), cv[i as int]);
            assert(cv.take(i as int).push(cv[i as int]) =~= cv.take(i as int + 1));
        }
        i += 1;
    }
    proof {
        assert(cv.take(i as int) =~= cv);
        assert(out@ =~= enc_document(a@));
    }
    out
}

// ---------------------------------------------------------------------
// The executable decoder.
// ---------------------------------------------------------------------

/// Relies on String::from_utf8: it returns Ok exactly on valid UTF-8
/// input, and the returned string holds the input bytes.
#[verifier::external_body]
fn bytes_to_string(bytes: Vec<u8>) -> (r: Option<String>)
    ensures
        match r {
            Some(s) => valid_utf8(bytes@) && s@ == decode_utf8(bytes@),
            None => !valid_utf8(bytes@),
        },
{
    match String::from_utf8(bytes) {
        Ok(s) => Some(s),
        Err(_) => None,
    }
}

fn parse_bool(data: &Vec<u8>, pos: usize) -> (r: Option<(bool, usize)>)
    ensures
        match r {
            Some((v, end)) => pos <= end <= data@.len() && dec_bool(data@, pos as int) == Some(
                (v, end as int),
            ),
            None => dec_bool(data@, pos as int) is None,
        },
{
    if pos < data.len() {
        let b = data[pos];
        if b == 0u8 || b == 1u8 {
            Some((b == 1u8, pos + 1))
        } else {
            None
        }
    } else {
        None
    }
}

fn parse_u64(data: &Vec<u8>, pos: usize) -> (r: Option<(u64, usize)>)
    ensures
        match r {
            Some((v, end)) => pos <= end <= data@.len() && dec_u64(data@, pos as int) == Some(
                (v, end as int),
            ),
            None => dec_u64(data@, pos as int) is None,
        },
{
    if pos <= data.len() && data.len() - pos >= 8 {
        let s = slice_subrange(data.as_slice(), pos, pos + 8);
        let n = u64_from_le_bytes(s);
        Some((n, pos + 8))
    } else {
        None
    }
}

fn parse_str(data: &Vec<u8>, pos: usize) -> (r: Option<(String, usize)>)
    ensures
        match r {
            Some((v, end)) => pos <= end <= data@.len() && dec_str(data@, pos as int) == Some(
                (v@, end as int),
            ),
            None => dec_str(data@, pos as int) is None,
        },
{
    let (n, j) = match parse_u64(data, pos) {
        Some(p) => p,
        None => {
            return None;
        },
    };
    if n > (data.len() - j) as u64 {
        return None;
    }
    let m = n as usize;
    let bytes = slice_to_vec(slice_subrange(data.as_slice(), j, j + m));
    match bytes_to_string(bytes) {
        Some(s) => Some((s, j + m)),
        None => None,
    }
}

fn parse_opt_str(data: &Vec<u8>, pos: usize) -> (r: Option<(Option<String>, usize)>)
    ensures
        match r {
            Some((v, end)) => pos <= end <= data@.len() && dec_opt_str(data@, pos as int) == Some(
                (v.deep_view(), end as int),
            ),
            None => dec_opt_str(data@, pos as int) is None,
        },
{
    if pos >= data.len() {
        return None;
    }
    let tag = data[pos];
    if tag == 0u8 {
        Some((None, pos + 1))
    } else if tag == 1u8 {
        match parse_str(data, pos + 1) {
            Some((s, end)) => Some((Some(s), end)),
            None => None,
        }
    } else {
        None
    }
}

fn parse_config_type(data: &Vec<u8>, pos: usize) -> (r: Option<(ConfigType, usize)>)
    ensures
        match r {
            Some((v, end)) => pos <= end <= data@.len() && dec_config_type(data@, pos as int)
                == Some((v, end as int)),
            None => dec_config_type(data@, pos as int) is None,
        },
{
    if pos >= data.len() {
        return None;
    }
    let tag = data[pos];
    if tag == 0u8 {
        Some((ConfigType::Wifi, pos + 1))
    } else if tag == 1u8 {
        Some((ConfigType::Service, pos + 1))
    } else {
        None
    }
}

fn parse_str_list(data: &Vec<u8>, pos: usize) -> (r: Option<(Vec<String>, usize)>)
    ensures
        match r {
            Some((v, end)) => pos <= end <= data@.len() && dec_str_list(data@, pos as int) == Some(
                (v.deep_view(), end as int),
            ),
            None => dec_str_list(data@, pos as int) is None,
        },
{
    let (n, j) = match parse_u64(data, pos) {
        Some(p) => p,
        None => {
            return None;
        },
    };
    let mut items: Vec<String> = Vec::new();
    let mut cur: usize = j;
    let mut k: u64 = 0;
    proof {
        assert(items.deep_view() =~= Seq::<Seq<char>>::empty());
    }
    while k < n
        invariant
            j <= cur <= data@.len(),
            k <= n,
            pos <= j <= data@.len(),
            dec_u64(data@, pos as int) == Some((n, j as int)),
            match dec_str_items(data@, cur as int, (n - k) as int) {
                Some((rest, end)) => dec_str_items(data@, j as int, n as int) == Some(
                    (items.deep_view() + rest, end),
                ),
                None => dec_str_items(data@, j as int, n as int) is None,
            },
        decreases n - k,
    {
        match parse_str(data, cur) {
            Some((s, end)) => {
                let ghost old_items = items.deep_view();
                items.push(s);
                proof {
                    assert(items.deep_view() =~= old_items.push(s@));
                    assert forall|rest: Seq<Seq<char>>|
                        true implies old_items + (seq![s@] + rest) =~= old_items.push(s@)
                        + rest by {}
                }
                cur = end;
            },
            None => {
                return None;
            },
        }
        k = k + 1;
    }
    Some((items, cur))
}

fn parse_config(data: &Vec<u8>, pos: usize) -> (r: Option<(NetworkConfig, usize)>)
    ensures
        match r {
            Some((v, end)) => pos <= end <= data@.len() && dec_config(data@, pos as int) == Some(
                (v@, end as int),
            ),
            None => dec_config(data@, pos as int) is None,
        },
{
    let (name, i1) = match parse_str(data, pos) {
        Some(p) => p,
        None => {
            return None;
        },
    };
    let (ssid, i2) = match parse_str(data, i1) {
        Some(p) => p,
        None => {
            return None;
        },
    };
    let (config_type, i3) = match parse_config_type(data, i2) {
        Some(p) => p,
        None => {
            return None;
        },
    };
    let (router_mac, i4) = match parse_opt_str(data, i3) {
        Some(p) => p,
        None => {
            return None;
        },
    };
    let (auto_apply, i5) = match parse_bool(data, i4) {
        Some(p) => p,
        None => {
            return None;
        },
    };
    let (target_service, i6) = match parse_opt_str(data, i5) {
        Some(p) => p,
        None => {
            return None;
        },
    };
    let (use_dhcp, i7) = match parse_bool(data, i6) {
        Some(p) => p,
        None => {
            return None;
        },
    };
    let (ip_address, i8) = match parse_opt_str(data, i7) {
        Some(p) => p,
        None => {
            return None;
        },
    };
    let (subnet_mask, i9) = match parse_opt_str(data, i8) {
        Some(p) => p,
        None => {
            return None;
        },
    };
    let (router, i10) = match parse_opt_str(data, i9) {
        Some(p) => p,
        None => {
            return None;
        },
    };
    let (dns_servers, i11) = match parse_str_list(data, i10) {
        Some(p) => p,
        None => {
            return None;
        },
    };
    let c = NetworkConfig {
        name,
        ssid,
        config_type,
        router_mac,
        auto_apply,
        target_service,
        use_dhcp,
        ip_address,
        subnet_mask,
        router,
        dns_servers,
    };
    Some((c, i11))
}

fn parse_config_list(data: &Vec<u8>, pos: usize) -> (r: Option<(Vec<NetworkConfig>, usize)>)
    ensures
        match r {
            Some((v, end)) => pos <= end <= data@.len() && dec_config_list(data@, pos as int)
                == Some((v.deep_view(), end as int)),
            None => dec_config_list(data@, pos as int) is None,
        },
{
    let (n, j) = match parse_u64(data, pos) {
        Some(p) => p,
        None => {
            return None;
        },
    };
    let mut items: Vec<NetworkConfig> = Vec::new();
    let mut cur: usize = j;
    let mut k: u64 = 0;
    proof {
        assert(items.deep_view() =~= Seq::<NetworkConfigV>::empty());
    }
    while k < n
        invariant
            j <= cur <= data@.len(),
            k <= n,
            pos <= j <= data@.len(),
            dec_u64(data@, pos as int) == Some((n, j as int)),
            match dec_config_items(data@, cur as int, (n - k) as int) {
                Some((rest, end)) => dec_config_items(data@, j as int, n as int) == Some(
                    (items.deep_view() + rest, end),
                ),
                None => dec_config_items(data@, j as int, n as int) is None,
            },
        decreases n - k,
    {
        match parse_config(data, cur) {
            Some((c, end)) => {
                let ghost old_items = items.deep_view();
                let ghost cval = c@;
                items.push(c);
                proof {
                    assert(items.deep_view() =~= old_items.push(cval));
                    assert forall|rest: Seq<NetworkConfigV>|
                        true implies old_items + (seq![cval] + rest) =~= old_items.push(cval)
                        + rest by {}
                }
                cur = end;
            },
            None => {
                return None;
            },
        }
        k = k + 1;
    }
    Some((items, cur))
}

/// Whether the configurations carry pairwise distinct names.
fn names_unique(configs: &Vec<NetworkConfig>) -> (r: bool)
    ensures
        r == (forall|a: int, b: int|
            0 <= a < b < configs.deep_view().len() ==> configs.deep_view()[a].name
                != configs.deep_view()[b].name),
{
    let ghost cv = configs.deep_view();
    let mut i: usize = 0;
    while i < configs.len()
        invariant
            i <= configs.len(),
            cv == configs.deep_view(),
            forall|a: int, b: int| 0 <= a < b < cv.len() && a < i ==> cv[a].name != cv[b].name,
        decreases configs.len() - i,
    {
        let mut j: usize = i + 1;
        while j < configs.len()
            invariant
                i < j <= configs.len(),
                i < configs.len(),
                cv == configs.deep_view(),
                forall|b: int| i < b < j ==> cv[i as int].name != cv[b].name,
            decreases configs.len() - j,
        {
            if crate::text::str_eq(configs[i].name.as_str(), configs[j].name.as_str()) {
                proof {
                    assert(cv[i as int].name == configs@[i as int]@.name);
                    assert(cv[j as int].name == configs@[j as int]@.name);
                    assert(0 <= i < j < cv.len() && cv[i as int].name == cv[j as int].name);
                }
                return false;
            }
            j += 1;
        }
        i += 1;
    }
    true
}

/// Decodes a document into the store it carries: the whole input must be
/// one valid document whose configuration names are unique.
pub fn decode_document(data: &Vec<u8>) -> (r: Option<AppConfig>)
    ensures
        match r {
            Some(a) => spec_load_document(data@) == Some(a@) && a@.wf(),
            None => spec_load_document(data@) is None,
        },
{
    let (auto_switch, i1) = match parse_bool(data, 0) {
        Some(p) => p,
        None => {
            return None;
        },
    };
    let (network_service, i2) = match parse_str(data, i1) {
        Some(p) => p,
        None => {
            return None;
        },
    };
    let (configs, i3) = match parse_config_list(data, i2) {
        Some(p) => p,
        None => {
            return None;
        },
    };
    if i3 != data.len() {
        return None;
    }
    if !names_unique(&configs) {
        return None;
    }
    let a = AppConfig { configs, auto_switch, network_service };
    Some(a)
}

/// Loads a store from document bytes, falling back to the empty default
/// store when the document does not decode; loading never fails.
pub fn load_document(data: &Vec<u8>) -> (r: AppConfig)
    ensures
        r@.wf(),
        match spec_load_document(data@) {
            Some(v) => r@ == v,
            None => r@.configs.len() == 0 && !r@.auto_switch && r@.network_service.len() == 0,
        },
{
    match decode_document(data) {
        Some(a) => a,
        None => AppConfig::default(),
    }
}

} // verus!
