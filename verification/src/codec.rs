//! Self-contained byte encoding of a `NetworkExport`, for
//! backup/restore and blob storage.  Decoding an encoded snapshot
//! reproduces the exact value; the round trip is proved below.
//!
//! The format is plain: little-endian fixed-width integers, a tag
//! byte before each optional field, and a length prefix before each
//! byte string and list.

use vstd::prelude::*;

use crate::model::{ExportModel, NetworkExport};
use crate::records::{
    AccessPolicy, IssuedToken, Member, MemberModel, Network, NetworkModel, Route, Rule,
    SsoBinding, TokenModel,
};
use crate::identity::{Address, Fingerprint, NetworkId};

verus! {

// ---------------------------------------------------------------
// Specification: encoders over the ghost models.
// ---------------------------------------------------------------

/// One byte.
pub open spec fn enc_u8(x: u8) -> Seq<u8> {
    seq![x]
}

/// Eight bytes, little endian.
pub open spec fn enc_u64(x: u64) -> Seq<u8> {
    seq![
        x as u8,
        (x >> 8) as u8,
        (x >> 16) as u8,
        (x >> 24) as u8,
        (x >> 32) as u8,
        (x >> 40) as u8,
        (x >> 48) as u8,
        (x >> 56) as u8,
    ]
}

/// A signed value, in its two's-complement image.
pub open spec fn enc_i64(x: i64) -> Seq<u8> {
    enc_u64(x as u64)
}

/// A length-prefixed byte string.
pub open spec fn enc_bytes(b: Seq<u8>) -> Seq<u8> {
    enc_u64(b.len() as u64) + b
}

/// A list, one element after the other.  The count travels in front
/// of the list, outside this function.
pub open spec fn enc_list<T>(s: Seq<T>, f: spec_fn(T) -> Seq<u8>) -> Seq<u8>
    decreases s.len(),
{
    if s.len() == 0 {
        Seq::<u8>::empty()
    } else {
        f(s[0]) + enc_list(s.drop_first(), f)
    }
}

// ---------------------------------------------------------------
// Specification: decoders.  Each takes the remaining input and
// yields the value and what is left, or nothing on malformed input.
// ---------------------------------------------------------------

/// Inverse of `enc_u8`.
pub open spec fn dec_u8(s: Seq<u8>) -> Option<(u8, Seq<u8>)> {
    if s.len() < 1 {
        None
    } else {
        Some((s[0], s.skip(1)))
    }
}

/// The value eight little-endian bytes stand for.
pub open spec fn u64_of_bytes(s: Seq<u8>) -> u64
    recommends
        s.len() >= 8,
{
    (s[0] as u64) | (s[1] as u64) << 8 | (s[2] as u64) << 16 | (s[3] as u64) << 24 | (
    s[4] as u64) << 32 | (s[5] as u64) << 40 | (s[6] as u64) << 48 | (s[7] as u64) << 56
}

/// Inverse of `enc_u64`.
pub open spec fn dec_u64(s: Seq<u8>) -> Option<(u64, Seq<u8>)> {
    if s.len() < 8 {
        None
    } else {
        Some((u64_of_bytes(s), s.skip(8)))
    }
}

/// Inverse of `enc_i64`.
pub open spec fn dec_i64(s: Seq<u8>) -> Option<(i64, Seq<u8>)> {
    match dec_u64(s) {
        None => None,
        Some((x, rest)) => Some((x as i64, rest)),
    }
}

/// Inverse of `enc_bytes`.
pub open spec fn dec_bytes(s: Seq<u8>) -> Option<(Seq<u8>, Seq<u8>)> {
    match dec_u64(s) {
        None => None,
        Some((n, rest)) => if rest.len() < n {
            None
        } else {
            Some((rest.take(n as int), rest.skip(n as int)))
        },
    }
}

/// Inverse of `enc_list`, given the element count.
pub open spec fn dec_list<T>(
    n: nat,
    s: Seq<u8>,
    g: spec_fn(Seq<u8>) -> Option<(T, Seq<u8>)>,
) -> Option<(Seq<T>, Seq<u8>)>
    decreases n,
{
    if n == 0 {
        Some((Seq::<T>::empty(), s))
    } else {
        match g(s) {
            None => None,
            Some((x, r1)) => match dec_list((n - 1) as nat, r1, g) {
                None => None,
                Some((xs, r2)) => Some((seq![x] + xs, r2)),
            },
        }
    }
}

// ---------------------------------------------------------------
// Round trip of the primitives.
// ---------------------------------------------------------------

/// A byte decodes to itself.
pub proof fn lemma_rt_u8(x: u8, rest: Seq<u8>)
    ensures
        dec_u8(enc_u8(x) + rest) == Some((x, rest)),
{
    let s = enc_u8(x) + rest;
    assert(s[0] == x);
    assert(s.skip(1) =~= rest);
}

/// Eight little-endian bytes decode to the value they came from.
pub proof fn lemma_rt_u64(x: u64, rest: Seq<u8>)
    ensures
        dec_u64(enc_u64(x) + rest) == Some((x, rest)),
{
    let s = enc_u64(x) + rest;
    let b0 = x as u8;
    let b1 = (x >> 8) as u8;
    let b2 = (x >> 16) as u8;
    let b3 = (x >> 24) as u8;
    let b4 = (x >> 32) as u8;
    let b5 = (x >> 40) as u8;
    let b6 = (x >> 48) as u8;
    let b7 = (x >> 56) as u8;
    assert((b0 as u64) | (b1 as u64) << 8 | (b2 as u64) << 16 | (b3 as u64) << 24 | (
    b4 as u64) << 32 | (b5 as u64) << 40 | (b6 as u64) << 48 | (b7 as u64) << 56 == x)
        by (bit_vector)
        requires
            b0 == x as u8,
            b1 == (x >> 8) as u8,
            b2 == (x >> 16) as u8,
            b3 == (x >> 24) as u8,
            b4 == (x >> 32) as u8,
            b5 == (x >> 40) as u8,
            b6 == (x >> 48) as u8,
            b7 == (x >> 56) as u8,
    ;
    assert(u64_of_bytes(s) == x);
    assert(s.skip(8) =~= rest);
}

/// The two's-complement image decodes to the signed value.
pub proof fn lemma_rt_i64(x: i64, rest: Seq<u8>)
    ensures
        dec_i64(enc_i64(x) + rest) == Some((x, rest)),
{
    lemma_rt_u64(x as u64, rest);
    assert((x as u64) as i64 == x) by (bit_vector);
}

/// A length-prefixed byte string decodes to itself.
pub proof fn lemma_rt_bytes(b: Seq<u8>, rest: Seq<u8>)
    requires
        b.len() <= u64::MAX,
    ensures
        dec_bytes(enc_bytes(b) + rest) == Some((b, rest)),
{
    let n = b.len() as u64;
    assert(enc_bytes(b) + rest =~= enc_u64(n) + (b + rest));
    lemma_rt_u64(n, b + rest);
    assert((b + rest).take(n as int) =~= b);
    assert((b + rest).skip(n as int) =~= rest);
}

/// A list whose element codec round-trips decodes to itself.
pub proof fn lemma_rt_list<T>(
    s: Seq<T>,
    rest: Seq<u8>,
    f: spec_fn(T) -> Seq<u8>,
    g: spec_fn(Seq<u8>) -> Option<(T, Seq<u8>)>,
)
    requires
        forall|x: T, r: Seq<u8>| #[trigger] g(f(x) + r) == Some((x, r)),
    ensures
        dec_list(s.len(), enc_list(s, f) + rest, g) == Some((s, rest)),
    decreases s.len(),
{
    if s.len() == 0 {
        assert(enc_list(s, f) + rest =~= rest);
        assert(Seq::<T>::empty() =~= s);
    } else {
        let tail = s.drop_first();
        assert(enc_list(s, f) + rest =~= f(s[0]) + (enc_list(tail, f) + rest));
        assert(g(f(s[0]) + (enc_list(tail, f) + rest)) == Some((s[0], enc_list(tail, f) + rest)));
        lemma_rt_list(tail, rest, f, g);
        assert(seq![s[0]] + tail =~= s);
    }
}

/// Encoding one more element extends the encoding of the front.
pub proof fn lemma_enc_list_snoc<T>(s: Seq<T>, f: spec_fn(T) -> Seq<u8>, i: int)
    requires
        0 <= i < s.len(),
    ensures
        enc_list(s.take(i + 1), f) == enc_list(s.take(i), f) + f(s[i]),
    decreases i,
{
    if i == 0 {
        assert(s.take(1) =~= seq![s[0]]);
        assert(s.take(1).drop_first() =~= Seq::<T>::empty());
        assert(s.take(1)[0] == s[0]);
        assert(enc_list(s.take(1), f) == f(s[0]) + enc_list(Seq::<T>::empty(), f));
        assert(enc_list(Seq::<T>::empty(), f) =~= Seq::<u8>::empty());
        assert(f(s[0]) + Seq::<u8>::empty() =~= f(s[0]));
        assert(s.take(0) =~= Seq::<T>::empty());
        assert(enc_list(s.take(0), f) + f(s[0]) =~= f(s[0]));
    } else {
        let t = s.drop_first();
        assert(s.take(i + 1).drop_first() =~= t.take(i));
        assert(s.take(i).drop_first() =~= t.take(i - 1));
        assert(s.take(i + 1)[0] == s[0]);
        assert(s.take(i)[0] == s[0]);
        lemma_enc_list_snoc(t, f, i - 1);
        assert(t[i - 1] == s[i]);
        assert(enc_list(s.take(i + 1), f) == f(s[0]) + enc_list(t.take(i), f));
        assert(enc_list(s.take(i), f) == f(s[0]) + enc_list(t.take(i - 1), f));
        assert(f(s[0]) + (enc_list(t.take(i - 1), f) + f(s[i])) =~= (f(s[0]) + enc_list(
            t.take(i - 1),
            f,
        )) + f(s[i]));
    }
}

// ---------------------------------------------------------------
// Specification: the record formats.
// ---------------------------------------------------------------

/// An optional value: a tag byte, then the payload if present.
pub open spec fn enc_opt_u64(o: Option<u64>) -> Seq<u8> {
    match o {
        None => enc_u8(0),
        Some(x) => enc_u8(1) + enc_u64(x),
    }
}

/// Inverse of `enc_opt_u64`.
pub open spec fn dec_opt_u64(s: Seq<u8>) -> Option<(Option<u64>, Seq<u8>)> {
    match dec_u8(s) {
        None => None,
        Some((tag, r1)) => if tag == 0 {
            Some((None, r1))
        } else if tag == 1 {
            match dec_u64(r1) {
                None => None,
                Some((x, r2)) => Some((Some(x), r2)),
            }
        } else {
            None
        },
    }
}

/// A three-state flag in one byte: unset, revoked, authorized.
pub open spec fn enc_flag(o: Option<bool>) -> Seq<u8> {
    match o {
        None => enc_u8(0),
        Some(false) => enc_u8(1),
        Some(true) => enc_u8(2),
    }
}

/// Inverse of `enc_flag`.
pub open spec fn dec_flag(s: Seq<u8>) -> Option<(Option<bool>, Seq<u8>)> {
    match dec_u8(s) {
        None => None,
        Some((tag, r1)) => if tag == 0 {
            Some((None, r1))
        } else if tag == 1 {
            Some((Some(false), r1))
        } else if tag == 2 {
            Some((Some(true), r1))
        } else {
            None
        },
    }
}

/// An optional byte string: a tag byte, then the string if present.
pub open spec fn enc_opt_bytes(o: Option<Seq<u8>>) -> Seq<u8> {
    match o {
        None => enc_u8(0),
        Some(b) => enc_u8(1) + enc_bytes(b),
    }
}

/// Inverse of `enc_opt_bytes`.
pub open spec fn dec_opt_bytes(s: Seq<u8>) -> Option<(Option<Seq<u8>>, Seq<u8>)> {
    match dec_u8(s) {
        None => None,
        Some((tag, r1)) => if tag == 0 {
            Some((None, r1))
        } else if tag == 1 {
            match dec_bytes(r1) {
                None => None,
                Some((b, r2)) => Some((Some(b), r2)),
            }
        } else {
            None
        },
    }
}

/// An optional SSO claim binding.
pub open spec fn enc_sso(o: Option<SsoBinding>) -> Seq<u8> {
    match o {
        None => enc_u8(0),
        Some(b) => enc_u8(1) + enc_u64(b.subject) + enc_i64(b.expires_at),
    }
}

/// Inverse of `enc_sso`.
pub open spec fn dec_sso(s: Seq<u8>) -> Option<(Option<SsoBinding>, Seq<u8>)> {
    match dec_u8(s) {
        None => None,
        Some((tag, r1)) => if tag == 0 {
            Some((None, r1))
        } else if tag == 1 {
            match dec_u64(r1) {
                None => None,
                Some((subject, r2)) => match dec_i64(r2) {
                    None => None,
                    Some((expires_at, r3)) => Some((Some(SsoBinding { subject, expires_at }), r3)),
                },
            }
        } else {
            None
        },
    }
}

/// An optional issued-token record.
pub open spec fn enc_token(o: Option<TokenModel>) -> Seq<u8> {
    match o {
        None => enc_u8(0),
        Some(t) => enc_u8(1) + enc_bytes(t.secret) + enc_i64(t.expires_at),
    }
}

/// Inverse of `enc_token`.
pub open spec fn dec_token(s: Seq<u8>) -> Option<(Option<TokenModel>, Seq<u8>)> {
    match dec_u8(s) {
        None => None,
        Some((tag, r1)) => if tag == 0 {
            Some((None, r1))
        } else if tag == 1 {
            match dec_bytes(r1) {
                None => None,
                Some((secret, r2)) => match dec_i64(r2) {
                    None => None,
                    Some((expires_at, r3)) => Some((Some(TokenModel { secret, expires_at }), r3)),
                },
            }
        } else {
            None
        },
    }
}

/// A membership policy, as one tag byte.
pub open spec fn enc_policy(p: AccessPolicy) -> Seq<u8> {
    match p {
        AccessPolicy::Open => enc_u8(0),
        AccessPolicy::Manual => enc_u8(1),
        AccessPolicy::Sso => enc_u8(2),
        AccessPolicy::Token => enc_u8(3),
    }
}

/// Inverse of `enc_policy`.
pub open spec fn dec_policy(s: Seq<u8>) -> Option<(AccessPolicy, Seq<u8>)> {
    match dec_u8(s) {
        None => None,
        Some((tag, r1)) => if tag == 0 {
            Some((AccessPolicy::Open, r1))
        } else if tag == 1 {
            Some((AccessPolicy::Manual, r1))
        } else if tag == 2 {
            Some((AccessPolicy::Sso, r1))
        } else if tag == 3 {
            Some((AccessPolicy::Token, r1))
        } else {
            None
        },
    }
}

/// One route.
pub open spec fn enc_route(r: Route) -> Seq<u8> {
    enc_u64(r.target) + enc_opt_u64(r.via)
}

/// Inverse of `enc_route`.
pub open spec fn dec_route(s: Seq<u8>) -> Option<(Route, Seq<u8>)> {
    match dec_u64(s) {
        None => None,
        Some((target, r1)) => match dec_opt_u64(r1) {
            None => None,
            Some((via, r2)) => Some((Route { target, via }, r2)),
        },
    }
}

/// One rule word.
pub open spec fn enc_rule(r: Rule) -> Seq<u8> {
    enc_u64(r.word)
}

/// Inverse of `enc_rule`.
pub open spec fn dec_rule(s: Seq<u8>) -> Option<(Rule, Seq<u8>)> {
    match dec_u64(s) {
        None => None,
        Some((word, r1)) => Some((Rule { word }, r1)),
    }
}

/// A route list.
pub open spec fn enc_routes(s: Seq<Route>) -> Seq<u8> {
    enc_list(s, |r: Route| enc_route(r))
}

/// Inverse of `enc_routes`, given the count.
pub open spec fn dec_routes(n: nat, s: Seq<u8>) -> Option<(Seq<Route>, Seq<u8>)> {
    dec_list(n, s, |t: Seq<u8>| dec_route(t))
}

/// A rule list.
pub open spec fn enc_rules(s: Seq<Rule>) -> Seq<u8> {
    enc_list(s, |r: Rule| enc_rule(r))
}

/// Inverse of `enc_rules`, given the count.
pub open spec fn dec_rules(n: nat, s: Seq<u8>) -> Option<(Seq<Rule>, Seq<u8>)> {
    dec_list(n, s, |t: Seq<u8>| dec_rule(t))
}

/// One member record.
pub open spec fn enc_member(m: MemberModel) -> Seq<u8> {
    enc_u64(m.address.value) + enc_flag(m.authorized) + enc_opt_bytes(m.fingerprint) + enc_sso(
        m.sso,
    ) + enc_token(m.token) + enc_u64(m.revision) + enc_flag(Some(m.removed))
}

/// Inverse of `enc_member`.
#[verifier::opaque]
pub open spec fn dec_member(s: Seq<u8>) -> Option<(MemberModel, Seq<u8>)> {
    match dec_u64(s) {
        None => None,
        Some((address, r1)) => match dec_flag(r1) {
            None => None,
            Some((authorized, r2)) => match dec_opt_bytes(r2) {
                None => None,
                Some((fingerprint, r3)) => match dec_sso(r3) {
                    None => None,
                    Some((sso, r4)) => match dec_token(r4) {
                        None => None,
                        Some((token, r5)) => match dec_u64(r5) {
                            None => None,
                            Some((revision, r6)) => match dec_flag(r6) {
                                Some((Some(removed), r7)) => Some(
                                    (
                                        MemberModel {
                                            address: Address { value: address },
                                            authorized,
                                            fingerprint,
                                            sso,
                                            token,
                                            revision,
                                            removed,
                                        },
                                        r7,
                                    ),
                                ),
                                _ => None,
                            },
                        },
                    },
                },
            },
        },
    }
}

/// A member list.
pub open spec fn enc_members(s: Seq<MemberModel>) -> Seq<u8> {
    enc_list(s, |m: MemberModel| enc_member(m))
}

/// Inverse of `enc_members`, given the count.
pub open spec fn dec_members(n: nat, s: Seq<u8>) -> Option<(Seq<MemberModel>, Seq<u8>)> {
    dec_list(n, s, |t: Seq<u8>| dec_member(t))
}

/// One network record, its lists length-prefixed.
pub open spec fn enc_network(n: NetworkModel) -> Seq<u8> {
    enc_u64(n.id.value) + enc_policy(n.policy) + enc_i64(n.credential_window) + enc_i64(
        n.config_window,
    ) + enc_u64(n.routes.len() as u64) + enc_routes(n.routes) + enc_u64(
        n.rules.len() as u64,
    ) + enc_rules(n.rules) + enc_u64(n.multicast_limit as u64)
}

/// Inverse of `enc_network`.
pub open spec fn dec_network(s: Seq<u8>) -> Option<(NetworkModel, Seq<u8>)> {
    match dec_u64(s) {
        None => None,
        Some((id, r1)) => match dec_policy(r1) {
            None => None,
            Some((policy, r2)) => match dec_i64(r2) {
                None => None,
                Some((credential_window, r3)) => match dec_i64(r3) {
                    None => None,
                    Some((config_window, r4)) => match dec_u64(r4) {
                        None => None,
                        Some((nroutes, r5)) => match dec_routes(nroutes as nat, r5) {
                            None => None,
                            Some((routes, r6)) => match dec_u64(r6) {
                                None => None,
                                Some((nrules, r7)) => match dec_rules(nrules as nat, r7) {
                                    None => None,
                                    Some((rules, r8)) => match dec_u64(r8) {
                                        None => None,
                                        Some((mc, r9)) => if mc <= u32::MAX {
                                            Some(
                                                (
                                                    NetworkModel {
                                                        id: NetworkId { value: id },
                                                        policy,
                                                        credential_window,
                                                        config_window,
                                                        routes,
                                                        rules,
                                                        multicast_limit: mc as u32,
                                                    },
                                                    r9,
                                                ),
                                            )
                                        } else {
                                            None
                                        },
                                    },
                                },
                            },
                        },
                    },
                },
            },
        },
    }
}

/// A whole export snapshot: the network, then the member count, then
/// the members.
pub open spec fn enc_export(e: ExportModel) -> Seq<u8> {
    enc_network(e.network) + enc_u64(e.members.len() as u64) + enc_members(e.members)
}

/// Inverse of `enc_export`.
pub open spec fn dec_export(s: Seq<u8>) -> Option<(ExportModel, Seq<u8>)> {
    match dec_network(s) {
        None => None,
        Some((network, r1)) => match dec_u64(r1) {
            None => None,
            Some((nmembers, r2)) => match dec_members(nmembers as nat, r2) {
                None => None,
                Some((members, r3)) => Some((ExportModel { network, members }, r3)),
            },
        },
    }
}

// ---------------------------------------------------------------
// Round trip of the record formats.
// ---------------------------------------------------------------

/// Bounds under which a member record is encodable: each byte
/// string's length must fit its length prefix.
pub open spec fn member_encodable(m: MemberModel) -> bool {
    &&& (match m.fingerprint {
        Some(f) => f.len() <= u64::MAX,
        None => true,
    })
    &&& (match m.token {
        Some(t) => t.secret.len() <= u64::MAX,
        None => true,
    })
}

/// Bounds under which a network record is encodable.
pub open spec fn network_encodable(n: NetworkModel) -> bool {
    &&& n.routes.len() <= u64::MAX
    &&& n.rules.len() <= u64::MAX
}

/// Bounds under which an export snapshot is encodable.  Every value
/// held in memory satisfies them; they matter only for the abstract
/// models the lemmas quantify over.
pub open spec fn export_encodable(e: ExportModel) -> bool {
    &&& network_encodable(e.network)
    &&& e.members.len() <= u64::MAX
    &&& forall|i: int| 0 <= i < e.members.len() ==> member_encodable(#[trigger] e.members[i])
}

/// Round trip of the three-state flag.
pub proof fn lemma_rt_flag(o: Option<bool>, rest: Seq<u8>)
    ensures
        dec_flag(enc_flag(o) + rest) == Some((o, rest)),
{
    match o {
        None => lemma_rt_u8(0, rest),
        Some(false) => lemma_rt_u8(1, rest),
        Some(true) => lemma_rt_u8(2, rest),
    }
}

/// Round trip of an optional integer.
pub proof fn lemma_rt_opt_u64(o: Option<u64>, rest: Seq<u8>)
    ensures
        dec_opt_u64(enc_opt_u64(o) + rest) == Some((o, rest)),
{
    match o {
        None => lemma_rt_u8(0, rest),
        Some(x) => {
            assert(enc_opt_u64(o) + rest =~= enc_u8(1) + (enc_u64(x) + rest));
            lemma_rt_u8(1, enc_u64(x) + rest);
            lemma_rt_u64(x, rest);
        },
    }
}

/// Round trip of an optional byte string.
pub proof fn lemma_rt_opt_bytes(o: Option<Seq<u8>>, rest: Seq<u8>)
    requires
        match o {
            Some(b) => b.len() <= u64::MAX,
            None => true,
        },
    ensures
        dec_opt_bytes(enc_opt_bytes(o) + rest) == Some((o, rest)),
{
    match o {
        None => lemma_rt_u8(0, rest),
        Some(b) => {
            assert(enc_opt_bytes(o) + rest =~= enc_u8(1) + (enc_bytes(b) + rest));
            lemma_rt_u8(1, enc_bytes(b) + rest);
            lemma_rt_bytes(b, rest);
        },
    }
}

/// Round trip of an optional SSO binding.
pub proof fn lemma_rt_sso(o: Option<SsoBinding>, rest: Seq<u8>)
    ensures
        dec_sso(enc_sso(o) + rest) == Some((o, rest)),
{
    match o {
        None => lemma_rt_u8(0, rest),
        Some(b) => {
            let s1 = enc_u64(b.subject) + (enc_i64(b.expires_at) + rest);
            assert(enc_sso(o) + rest =~= enc_u8(1) + s1);
            lemma_rt_u8(1, s1);
            lemma_rt_u64(b.subject, enc_i64(b.expires_at) + rest);
            lemma_rt_i64(b.expires_at, rest);
        },
    }
}

/// Round trip of an optional issued token.
pub proof fn lemma_rt_token(o: Option<TokenModel>, rest: Seq<u8>)
    requires
        match o {
            Some(t) => t.secret.len() <= u64::MAX,
            None => true,
        },
    ensures
        dec_token(enc_token(o) + rest) == Some((o, rest)),
{
    match o {
        None => lemma_rt_u8(0, rest),
        Some(t) => {
            let s1 = enc_bytes(t.secret) + (enc_i64(t.expires_at) + rest);
            assert(enc_token(o) + rest =~= enc_u8(1) + s1);
            lemma_rt_u8(1, s1);
            lemma_rt_bytes(t.secret, enc_i64(t.expires_at) + rest);
            lemma_rt_i64(t.expires_at, rest);
        },
    }
}

/// Round trip of the policy tag.
pub proof fn lemma_rt_policy(p: AccessPolicy, rest: Seq<u8>)
    ensures
        dec_policy(enc_policy(p) + rest) == Some((p, rest)),
{
    match p {
        AccessPolicy::Open => lemma_rt_u8(0, rest),
        AccessPolicy::Manual => lemma_rt_u8(1, rest),
        AccessPolicy::Sso => lemma_rt_u8(2, rest),
        AccessPolicy::Token => lemma_rt_u8(3, rest),
    }
}

/// Round trip of one route.
pub proof fn lemma_rt_route(r: Route, rest: Seq<u8>)
    ensures
        dec_route(enc_route(r) + rest) == Some((r, rest)),
{
    assert(enc_route(r) + rest =~= enc_u64(r.target) + (enc_opt_u64(r.via) + rest));
    lemma_rt_u64(r.target, enc_opt_u64(r.via) + rest);
    lemma_rt_opt_u64(r.via, rest);
}

/// Round trip of one rule word.
pub proof fn lemma_rt_rule(r: Rule, rest: Seq<u8>)
    ensures
        dec_rule(enc_rule(r) + rest) == Some((r, rest)),
{
    lemma_rt_u64(r.word, rest);
}

/// Concatenation is associative; stated once so longer chains can
/// be regrouped without elementwise reasoning.
pub proof fn lemma_assoc(a: Seq<u8>, b: Seq<u8>, c: Seq<u8>)
    ensures
        (a + b) + c == a + (b + c),
{
    assert((a + b) + c =~= a + (b + c));
}

/// Round trip of one member record.
#[verifier::rlimit(100)]
pub proof fn lemma_rt_member(m: MemberModel, rest: Seq<u8>)
    requires
        member_encodable(m),
    ensures
        dec_member(enc_member(m) + rest) == Some((m, rest)),
{
    reveal(dec_member);
    let e1 = enc_u64(m.address.value);
    let e2 = enc_flag(m.authorized);
    let e3 = enc_opt_bytes(m.fingerprint);
    let e4 = enc_sso(m.sso);
    let e5 = enc_token(m.token);
    let e6 = enc_u64(m.revision);
    let e7 = enc_flag(Some(m.removed));
    let s7 = rest;
    let s6 = e7 + s7;
    let s5 = e6 + s6;
    let s4 = e5 + s5;
    let s3 = e4 + s4;
    let s2 = e3 + s3;
    let s1 = e2 + s2;
    assert(enc_member(m) == e1 + e2 + e3 + e4 + e5 + e6 + e7);
    lemma_assoc(e1 + e2 + e3 + e4 + e5 + e6, e7, rest);
    lemma_assoc(e1 + e2 + e3 + e4 + e5, e6, s6);
    lemma_assoc(e1 + e2 + e3 + e4, e5, s5);
    lemma_assoc(e1 + e2 + e3, e4, s4);
    lemma_assoc(e1 + e2, e3, s3);
    lemma_assoc(e1, e2, s2);
    assert(enc_member(m) + rest == e1 + s1);
    lemma_rt_u64(m.address.value, s1);
    lemma_rt_flag(m.authorized, s2);
    lemma_rt_opt_bytes(m.fingerprint, s3);
    lemma_rt_sso(m.sso, s4);
    lemma_rt_token(m.token, s5);
    lemma_rt_u64(m.revision, s6);
    lemma_rt_flag(Some(m.removed), s7);
}

/// Round trip of a route list.
pub proof fn lemma_rt_routes(s: Seq<Route>, rest: Seq<u8>)
    ensures
        dec_routes(s.len(), enc_routes(s) + rest) == Some((s, rest)),
{
    let f = |r: Route| enc_route(r);
    let g = |t: Seq<u8>| dec_route(t);
    assert forall|x: Route, r: Seq<u8>| #[trigger] g(f(x) + r) == Some((x, r)) by {
        lemma_rt_route(x, r);
    }
    lemma_rt_list(s, rest, f, g);
}

/// Round trip of a rule list.
pub proof fn lemma_rt_rules(s: Seq<Rule>, rest: Seq<u8>)
    ensures
        dec_rules(s.len(), enc_rules(s) + rest) == Some((s, rest)),
{
    let f = |r: Rule| enc_rule(r);
    let g = |t: Seq<u8>| dec_rule(t);
    assert forall|x: Rule, r: Seq<u8>| #[trigger] g(f(x) + r) == Some((x, r)) by {
        lemma_rt_rule(x, r);
    }
    lemma_rt_list(s, rest, f, g);
}

/// Round trip of a member list whose members are encodable.
pub proof fn lemma_rt_members(s: Seq<MemberModel>, rest: Seq<u8>)
    requires
        forall|i: int| 0 <= i < s.len() ==> member_encodable(#[trigger] s[i]),
    ensures
        dec_members(s.len(), enc_members(s) + rest) == Some((s, rest)),
{
    let f = |m: MemberModel| enc_member(m);
    let g = |t: Seq<u8>| dec_member(t);
    let ok = |m: MemberModel| member_encodable(m);
    assert forall|x: MemberModel, r: Seq<u8>| ok(x) implies #[trigger] g(f(x) + r) == Some(
        (x, r),
    ) by {
        lemma_rt_member(x, r);
    }
    assert forall|i: int| 0 <= i < s.len() implies ok(#[trigger] s[i]) by {
        assert(member_encodable(s[i]));
    }
    lemma_rt_list_under(s, rest, f, g, ok);
}

/// Encoding one more route extends the encoding of the front.
pub proof fn lemma_enc_routes_snoc(s: Seq<Route>, i: int)
    requires
        0 <= i < s.len(),
    ensures
        enc_routes(s.take(i + 1)) == enc_routes(s.take(i)) + enc_route(s[i]),
{
    let f = |r: Route| enc_route(r);
    lemma_enc_list_snoc(s, f, i);
    assert(f(s[i]) == enc_route(s[i]));
}

/// Encoding one more rule extends the encoding of the front.
pub proof fn lemma_enc_rules_snoc(s: Seq<Rule>, i: int)
    requires
        0 <= i < s.len(),
    ensures
        enc_rules(s.take(i + 1)) == enc_rules(s.take(i)) + enc_rule(s[i]),
{
    let f = |r: Rule| enc_rule(r);
    lemma_enc_list_snoc(s, f, i);
    assert(f(s[i]) == enc_rule(s[i]));
}

/// Encoding one more member extends the encoding of the front.
pub proof fn lemma_enc_members_snoc(s: Seq<MemberModel>, i: int)
    requires
        0 <= i < s.len(),
    ensures
        enc_members(s.take(i + 1)) == enc_members(s.take(i)) + enc_member(s[i]),
{
    let f = |m: MemberModel| enc_member(m);
    lemma_enc_list_snoc(s, f, i);
    assert(f(s[i]) == enc_member(s[i]));
}

/// Round trip of one network record.
#[verifier::rlimit(100)]
pub proof fn lemma_rt_network(n: NetworkModel, rest: Seq<u8>)
    requires
        network_encodable(n),
    ensures
        dec_network(enc_network(n) + rest) == Some((n, rest)),
{
    let e1 = enc_u64(n.id.value);
    let e2 = enc_policy(n.policy);
    let e3 = enc_i64(n.credential_window);
    let e4 = enc_i64(n.config_window);
    let e5 = enc_u64(n.routes.len() as u64);
    let e6 = enc_routes(n.routes);
    let e7 = enc_u64(n.rules.len() as u64);
    let e8 = enc_rules(n.rules);
    let e9 = enc_u64(n.multicast_limit as u64);
    let s8 = e9 + rest;
    let s7 = e8 + s8;
    let s6 = e7 + s7;
    let s5 = e6 + s6;
    let s4 = e5 + s5;
    let s3 = e4 + s4;
    let s2 = e3 + s3;
    let s1 = e2 + s2;
    assert(enc_network(n) == e1 + e2 + e3 + e4 + e5 + e6 + e7 + e8 + e9);
    lemma_assoc(e1 + e2 + e3 + e4 + e5 + e6 + e7 + e8, e9, rest);
    lemma_assoc(e1 + e2 + e3 + e4 + e5 + e6 + e7, e8, s8);
    lemma_assoc(e1 + e2 + e3 + e4 + e5 + e6, e7, s7);
    lemma_assoc(e1 + e2 + e3 + e4 + e5, e6, s6);
    lemma_assoc(e1 + e2 + e3 + e4, e5, s5);
    lemma_assoc(e1 + e2 + e3, e4, s4);
    lemma_assoc(e1 + e2, e3, s3);
    lemma_assoc(e1, e2, s2);
    assert(enc_network(n) + rest == e1 + s1);
    lemma_rt_u64(n.id.value, s1);
    lemma_rt_policy(n.policy, s2);
    lemma_rt_i64(n.credential_window, s3);
    lemma_rt_i64(n.config_window, s4);
    lemma_rt_u64(n.routes.len() as u64, s5);
    lemma_rt_routes(n.routes, s6);
    assert((n.routes.len() as u64) as nat == n.routes.len());
    lemma_rt_u64(n.rules.len() as u64, s7);
    lemma_rt_rules(n.rules, s8);
    assert((n.rules.len() as u64) as nat == n.rules.len());
    lemma_rt_u64(n.multicast_limit as u64, rest);
    assert((n.multicast_limit as u64) <= u32::MAX);
    assert((n.multicast_limit as u64) as u32 == n.multicast_limit);
}

/// Round trip of a whole export snapshot: decoding an encoding
/// yields the same value, with nothing left over.
pub proof fn lemma_rt_export(e: ExportModel, rest: Seq<u8>)
    requires
        export_encodable(e),
    ensures
        dec_export(enc_export(e) + rest) == Some((e, rest)),
{
    let e1 = enc_network(e.network);
    let e2 = enc_u64(e.members.len() as u64);
    let e3 = enc_members(e.members);
    let s3 = e3 + rest;
    let s2 = e2 + s3;
    assert(enc_export(e) == e1 + e2 + e3);
    lemma_assoc(e1 + e2, e3, rest);
    lemma_assoc(e1, e2, s3);
    assert(enc_export(e) + rest == e1 + s2);
    lemma_rt_network(e.network, s2);
    lemma_rt_u64(e.members.len() as u64, s3);
    lemma_rt_members(e.members, rest);
    assert((e.members.len() as u64) as nat == e.members.len());
}

/// As `lemma_rt_list`, for an element codec that round-trips only
/// under a side condition every listed element meets.
pub proof fn lemma_rt_list_under<T>(
    s: Seq<T>,
    rest: Seq<u8>,
    f: spec_fn(T) -> Seq<u8>,
    g: spec_fn(Seq<u8>) -> Option<(T, Seq<u8>)>,
    ok: spec_fn(T) -> bool,
)
    requires
        forall|x: T, r: Seq<u8>| ok(x) ==> #[trigger] g(f(x) + r) == Some((x, r)),
        forall|i: int| 0 <= i < s.len() ==> ok(#[trigger] s[i]),
    ensures
        dec_list(s.len(), enc_list(s, f) + rest, g) == Some((s, rest)),
    decreases s.len(),
{
    if s.len() == 0 {
        assert(enc_list(s, f) + rest =~= rest);
        assert(Seq::<T>::empty() =~= s);
    } else {
        let tail = s.drop_first();
        assert(enc_list(s, f) + rest =~= f(s[0]) + (enc_list(tail, f) + rest));
        assert(ok(s[0]));
        assert(g(f(s[0]) + (enc_list(tail, f) + rest)) == Some((s[0], enc_list(tail, f) + rest)));
        assert(forall|i: int| 0 <= i < tail.len() ==> ok(#[trigger] tail[i]));
        lemma_rt_list_under(tail, rest, f, g, ok);
        assert(seq![s[0]] + tail =~= s);
    }
}

// ---------------------------------------------------------------
// Executable encoder.
// ---------------------------------------------------------------

fn push_u8v(out: &mut Vec<u8>, x: u8)
    ensures
        final(out)@ == old(out)@ + enc_u8(x),
{
    out.push(x);
    proof {
        assert(out@ =~= old(out)@ + enc_u8(x));
    }
}

fn push_u64v(out: &mut Vec<u8>, x: u64)
    ensures
        final(out)@ == old(out)@ + enc_u64(x),
{
    out.push(#[verifier::truncate] (x as u8));
    out.push(#[verifier::truncate] ((x >> 8) as u8));
    out.push(#[verifier::truncate] ((x >> 16) as u8));
    out.push(#[verifier::truncate] ((x >> 24) as u8));
    out.push(#[verifier::truncate] ((x >> 32) as u8));
    out.push(#[verifier::truncate] ((x >> 40) as u8));
    out.push(#[verifier::truncate] ((x >> 48) as u8));
    out.push(#[verifier::truncate] ((x >> 56) as u8));
    proof {
        assert(out@ =~= old(out)@ + enc_u64(x));
    }
}

fn push_i64v(out: &mut Vec<u8>, x: i64)
    ensures
        final(out)@ == old(out)@ + enc_i64(x),
{
    push_u64v(out, #[verifier::truncate] (x as u64));
}

fn push_bytesv(out: &mut Vec<u8>, b: &Vec<u8>)
    ensures
        final(out)@ == old(out)@ + enc_bytes(b@),
{
    push_u64v(out, b.len() as u64);
    let mut i: usize = 0;
    while i < b.len()
        invariant
            i <= b@.len(),
            out@ == old(out)@ + enc_u64(b@.len() as u64) + b@.take(i as int),
        decreases b@.len() - i,
    {
        out.push(b[i]);
        proof {
            assert(out@ =~= old(out)@ + enc_u64(b@.len() as u64) + b@.take(i + 1));
        }
        i = i + 1;
    }
    proof {
        assert(b@.take(b@.len() as int) =~= b@);
        assert(old(out)@ + enc_u64(b@.len() as u64) + b@ =~= old(out)@ + enc_bytes(b@));
    }
}

fn push_flagv(out: &mut Vec<u8>, o: Option<bool>)
    ensures
        final(out)@ == old(out)@ + enc_flag(o),
{
    match o {
        None => push_u8v(out, 0),
        Some(false) => push_u8v(out, 1),
        Some(true) => push_u8v(out, 2),
    }
}

fn push_opt_u64v(out: &mut Vec<u8>, o: Option<u64>)
    ensures
        final(out)@ == old(out)@ + enc_opt_u64(o),
{
    match o {
        None => push_u8v(out, 0),
        Some(x) => {
            push_u8v(out, 1);
            push_u64v(out, x);
            proof {
                assert(out@ =~= old(out)@ + enc_opt_u64(o));
            }
        },
    }
}

fn push_fingerprintv(out: &mut Vec<u8>, o: &Option<Fingerprint>)
    ensures
        final(out)@ == old(out)@ + enc_opt_bytes(
            match *o {
                Some(ref f) => Some(f@),
                None => None,
            },
        ),
{
    match o {
        None => push_u8v(out, 0),
        Some(f) => {
            push_u8v(out, 1);
            push_bytesv(out, &f.bytes);
            proof {
                assert(out@ =~= old(out)@ + enc_opt_bytes(Some(f@)));
            }
        },
    }
}

fn push_ssov(out: &mut Vec<u8>, o: Option<SsoBinding>)
    ensures
        final(out)@ == old(out)@ + enc_sso(o),
{
    match o {
        None => push_u8v(out, 0),
        Some(b) => {
            push_u8v(out, 1);
            push_u64v(out, b.subject);
            push_i64v(out, b.expires_at);
            proof {
                assert(out@ =~= old(out)@ + enc_sso(o));
            }
        },
    }
}

fn push_tokenv(out: &mut Vec<u8>, o: &Option<IssuedToken>)
    ensures
        final(out)@ == old(out)@ + enc_token(
            match *o {
                Some(ref t) => Some(t@),
                None => None,
            },
        ),
{
    match o {
        None => push_u8v(out, 0),
        Some(t) => {
            push_u8v(out, 1);
            push_bytesv(out, &t.secret);
            push_i64v(out, t.expires_at);
            proof {
                assert(out@ =~= old(out)@ + enc_token(Some(t@)));
            }
        },
    }
}

fn push_policyv(out: &mut Vec<u8>, p: AccessPolicy)
    ensures
        final(out)@ == old(out)@ + enc_policy(p),
{
    match p {
        AccessPolicy::Open => push_u8v(out, 0),
        AccessPolicy::Manual => push_u8v(out, 1),
        AccessPolicy::Sso => push_u8v(out, 2),
        AccessPolicy::Token => push_u8v(out, 3),
    }
}

fn push_routev(out: &mut Vec<u8>, r: Route)
    ensures
        final(out)@ == old(out)@ + enc_route(r),
{
    push_u64v(out, r.target);
    push_opt_u64v(out, r.via);
    proof {
        assert(out@ =~= old(out)@ + enc_route(r));
    }
}

fn push_memberv(out: &mut Vec<u8>, m: &Member)
    ensures
        final(out)@ == old(out)@ + enc_member(m@),
{
    push_u64v(out, m.address.value);
    push_flagv(out, m.authorized);
    push_fingerprintv(out, &m.fingerprint);
    push_ssov(out, m.sso);
    push_tokenv(out, &m.token);
    push_u64v(out, m.revision);
    push_flagv(out, Some(m.removed));
    proof {
        assert(out@ =~= old(out)@ + enc_member(m@));
    }
}

#[verifier::rlimit(100)]
fn push_networkv(out: &mut Vec<u8>, n: &Network)
    ensures
        final(out)@ == old(out)@ + enc_network(n@),
{
    push_u64v(out, n.id.value);
    push_policyv(out, n.policy);
    push_i64v(out, n.credential_window);
    push_i64v(out, n.config_window);
    push_u64v(out, n.routes.len() as u64);
    let ghost mid0 = out@;
    let mut i: usize = 0;
    while i < n.routes.len()
        invariant
            i <= n.routes@.len(),
            out@ == mid0 + enc_routes(n.routes@.take(i as int)),
        decreases n.routes@.len() - i,
    {
        push_routev(out, n.routes[i]);
        proof {
            lemma_enc_routes_snoc(n.routes@, i as int);
            lemma_assoc(
                mid0,
                enc_routes(n.routes@.take(i as int)),
                enc_route(n.routes@[i as int]),
            );
            assert(out@ == mid0 + enc_routes(n.routes@.take(i + 1)));
        }
        i = i + 1;
    }
    proof {
        assert(n.routes@.take(n.routes@.len() as int) =~= n.routes@);
    }
    push_u64v(out, n.rules.len() as u64);
    let ghost mid1 = out@;
    let mut j: usize = 0;
    while j < n.rules.len()
        invariant
            j <= n.rules@.len(),
            out@ == mid1 + enc_rules(n.rules@.take(j as int)),
        decreases n.rules@.len() - j,
    {
        push_u64v(out, n.rules[j].word);
        proof {
            lemma_enc_rules_snoc(n.rules@, j as int);
            lemma_assoc(
                mid1,
                enc_rules(n.rules@.take(j as int)),
                enc_rule(n.rules@[j as int]),
            );
            assert(out@ == mid1 + enc_rules(n.rules@.take(j + 1)));
        }
        j = j + 1;
    }
    proof {
        assert(n.rules@.take(n.rules@.len() as int) =~= n.rules@);
    }
    push_u64v(out, n.multicast_limit as u64);
    proof {
        assert(out@ =~= old(out)@ + enc_network(n@));
    }
}

impl NetworkExport {
    /// Encode this snapshot as a self-contained blob.
    #[verifier::rlimit(100)]
    pub fn serialize(&self) -> (r: Vec<u8>)
        ensures
            r@ == enc_export(self@),
    {
        let ghost ms = self.members@.map_values(|m: Member| m@);
        let mut out: Vec<u8> = Vec::new();
        push_networkv(&mut out, &self.network);
        push_u64v(&mut out, self.members.len() as u64);
        let ghost mid = out@;
        let mut i: usize = 0;
        while i < self.members.len()
            invariant
                i <= self.members@.len(),
                ms == self.members@.map_values(|m: Member| m@),
                ms.len() == self.members@.len(),
                out@ == mid + enc_members(ms.take(i as int)),
            decreases self.members@.len() - i,
        {
            push_memberv(&mut out, &self.members[i]);
            proof {
                assert(ms[i as int] == self.members@[i as int]@);
                lemma_enc_members_snoc(ms, i as int);
                lemma_assoc(mid, enc_members(ms.take(i as int)), enc_member(ms[i as int]));
                assert(out@ == mid + enc_members(ms.take(i + 1)));
            }
            i = i + 1;
        }
        proof {
            assert(ms.take(ms.len() as int) =~= ms);
            assert(out@ =~= enc_export(self@));
        }
        out
    }
}

// ---------------------------------------------------------------
// Executable decoder.
// ---------------------------------------------------------------

/// What a blob decodes to: the snapshot, provided the bytes parse
/// and nothing is left over.
pub open spec fn deserialized(s: Seq<u8>) -> Option<ExportModel> {
    match dec_export(s) {
        Some((e, r)) => if r.len() == 0 {
            Some(e)
        } else {
            None
        },
        None => None,
    }
}

/// Round trip: decoding an encoded snapshot reproduces the exact
/// value.
pub proof fn lemma_export_round_trip(e: ExportModel)
    requires
        export_encodable(e),
    ensures
        deserialized(enc_export(e)) == Some(e),
{
    lemma_rt_export(e, Seq::<u8>::empty());
    assert(enc_export(e) + Seq::<u8>::empty() =~= enc_export(e));
}

fn read_u8(v: &Vec<u8>, pos: usize) -> (r: Option<(u8, usize)>)
    requires
        pos <= v@.len(),
    ensures
        match r {
            Some((x, p)) => pos < p <= v@.len() && dec_u8(v@.skip(pos as int)) == Some(
                (x, v@.skip(p as int)),
            ),
            None => dec_u8(v@.skip(pos as int)) is None,
        },
{
    if pos < v.len() {
        let x = v[pos];
        proof {
            assert(v@.skip(pos as int)[0] == v@[pos as int]);
            assert(v@.skip(pos as int).skip(1) =~= v@.skip(pos as int + 1));
        }
        Some((x, pos + 1))
    } else {
        None
    }
}

fn read_u64(v: &Vec<u8>, pos: usize) -> (r: Option<(u64, usize)>)
    requires
        pos <= v@.len(),
    ensures
        match r {
            Some((x, p)) => pos < p <= v@.len() && dec_u64(v@.skip(pos as int)) == Some(
                (x, v@.skip(p as int)),
            ),
            None => dec_u64(v@.skip(pos as int)) is None,
        },
{
    if v.len() - pos >= 8 {
        let x: u64 = (v[pos] as u64) | (v[pos + 1] as u64) << 8 | (v[pos + 2] as u64) << 16 | (
        v[pos + 3] as u64) << 24 | (v[pos + 4] as u64) << 32 | (v[pos + 5] as u64) << 40 | (
        v[pos + 6] as u64) << 48 | (v[pos + 7] as u64) << 56;
        proof {
            let s = v@.skip(pos as int);
            assert(s[0] == v@[pos as int]);
            assert(s[1] == v@[pos as int + 1]);
            assert(s[2] == v@[pos as int + 2]);
            assert(s[3] == v@[pos as int + 3]);
            assert(s[4] == v@[pos as int + 4]);
            assert(s[5] == v@[pos as int + 5]);
            assert(s[6] == v@[pos as int + 6]);
            assert(s[7] == v@[pos as int + 7]);
            assert(s.skip(8) =~= v@.skip(pos as int + 8));
        }
        Some((x, pos + 8))
    } else {
        None
    }
}

fn read_i64(v: &Vec<u8>, pos: usize) -> (r: Option<(i64, usize)>)
    requires
        pos <= v@.len(),
    ensures
        match r {
            Some((x, p)) => pos < p <= v@.len() && dec_i64(v@.skip(pos as int)) == Some(
                (x, v@.skip(p as int)),
            ),
            None => dec_i64(v@.skip(pos as int)) is None,
        },
{
    match read_u64(v, pos) {
        None => None,
        Some((x, p)) => Some((#[verifier::truncate] (x as i64), p)),
    }
}

fn read_bytes(v: &Vec<u8>, pos: usize) -> (r: Option<(Vec<u8>, usize)>)
    requires
        pos <= v@.len(),
    ensures
        match r {
            Some((b, p)) => pos <= p <= v@.len() && dec_bytes(v@.skip(pos as int)) == Some(
                (b@, v@.skip(p as int)),
            ),
            None => dec_bytes(v@.skip(pos as int)) is None,
        },
{
    match read_u64(v, pos) {
        None => None,
        Some((n, p1)) => {
            if n > (v.len() - p1) as u64 {
                proof {
                    assert(v@.skip(p1 as int).len() < n);
                }
                None
            } else {
                let len: usize = n as usize;
                let vlen: usize = v.len();
                let mut b: Vec<u8> = Vec::new();
                let mut i: usize = 0;
                while i < len
                    invariant
                        i <= len,
                        p1 + len <= v@.len(),
                        v@.len() == vlen,
                        b@ == v@.subrange(p1 as int, p1 as int + i as int),
                    decreases len - i,
                {
                    proof {
                        assert(p1 + i < vlen);
                    }
                    b.push(v[p1 + i]);
                    proof {
                        assert(b@ =~= v@.subrange(p1 as int, p1 as int + (i + 1) as int));
                    }
                    i = i + 1;
                }
                proof {
                    assert(v@.skip(p1 as int).take(n as int) =~= v@.subrange(
                        p1 as int,
                        p1 as int + n as int,
                    ));
                    assert(v@.skip(p1 as int).skip(n as int) =~= v@.skip(p1 as int + n as int));
                }
                Some((b, p1 + len))
            }
        },
    }
}

fn read_flag(v: &Vec<u8>, pos: usize) -> (r: Option<(Option<bool>, usize)>)
    requires
        pos <= v@.len(),
    ensures
        match r {
            Some((o, p)) => pos <= p <= v@.len() && dec_flag(v@.skip(pos as int)) == Some(
                (o, v@.skip(p as int)),
            ),
            None => dec_flag(v@.skip(pos as int)) is None,
        },
{
    match read_u8(v, pos) {
        None => None,
        Some((tag, p)) => {
            if tag == 0 {
                Some((None, p))
            } else if tag == 1 {
                Some((Some(false), p))
            } else if tag == 2 {
                Some((Some(true), p))
            } else {
                None
            }
        },
    }
}

fn read_opt_u64(v: &Vec<u8>, pos: usize) -> (r: Option<(Option<u64>, usize)>)
    requires
        pos <= v@.len(),
    ensures
        match r {
            Some((o, p)) => pos <= p <= v@.len() && dec_opt_u64(v@.skip(pos as int)) == Some(
                (o, v@.skip(p as int)),
            ),
            None => dec_opt_u64(v@.skip(pos as int)) is None,
        },
{
    match read_u8(v, pos) {
        None => None,
        Some((tag, p1)) => {
            if tag == 0 {
                Some((None, p1))
            } else if tag == 1 {
                match read_u64(v, p1) {
                    None => None,
                    Some((x, p2)) => Some((Some(x), p2)),
                }
            } else {
                None
            }
        },
    }
}

fn read_fingerprint(v: &Vec<u8>, pos: usize) -> (r: Option<(Option<Fingerprint>, usize)>)
    requires
        pos <= v@.len(),
    ensures
        match r {
            Some((o, p)) => pos <= p <= v@.len() && dec_opt_bytes(v@.skip(pos as int)) == Some(
                (
                    match o {
                        Some(ref f) => Some(f@),
                        None => None,
                    },
                    v@.skip(p as int),
                ),
            ),
            None => dec_opt_bytes(v@.skip(pos as int)) is None,
        },
{
    match read_u8(v, pos) {
        None => None,
        Some((tag, p1)) => {
            if tag == 0 {
                Some((None, p1))
            } else if tag == 1 {
                match read_bytes(v, p1) {
                    None => None,
                    Some((b, p2)) => Some((Some(Fingerprint { bytes: b }), p2)),
                }
            } else {
                None
            }
        },
    }
}

fn read_sso(v: &Vec<u8>, pos: usize) -> (r: Option<(Option<SsoBinding>, usize)>)
    requires
        pos <= v@.len(),
    ensures
        match r {
            Some((o, p)) => pos <= p <= v@.len() && dec_sso(v@.skip(pos as int)) == Some(
                (o, v@.skip(p as int)),
            ),
            None => dec_sso(v@.skip(pos as int)) is None,
        },
{
    match read_u8(v, pos) {
        None => None,
        Some((tag, p1)) => {
            if tag == 0 {
                Some((None, p1))
            } else if tag == 1 {
                match read_u64(v, p1) {
                    None => None,
                    Some((subject, p2)) => match read_i64(v, p2) {
                        None => None,
                        Some((expires_at, p3)) => Some(
                            (Some(SsoBinding { subject, expires_at }), p3),
                        ),
                    },
                }
            } else {
                None
            }
        },
    }
}

fn read_token(v: &Vec<u8>, pos: usize) -> (r: Option<(Option<IssuedToken>, usize)>)
    requires
        pos <= v@.len(),
    ensures
        match r {
            Some((o, p)) => pos <= p <= v@.len() && dec_token(v@.skip(pos as int)) == Some(
                (
                    match o {
                        Some(ref t) => Some(t@),
                        None => None,
                    },
                    v@.skip(p as int),
                ),
            ),
            None => dec_token(v@.skip(pos as int)) is None,
        },
{
    match read_u8(v, pos) {
        None => None,
        Some((tag, p1)) => {
            if tag == 0 {
                Some((None, p1))
            } else if tag == 1 {
                match read_bytes(v, p1) {
                    None => None,
                    Some((secret, p2)) => match read_i64(v, p2) {
                        None => None,
                        Some((expires_at, p3)) => Some(
                            (Some(IssuedToken { secret, expires_at }), p3),
                        ),
                    },
                }
            } else {
                None
            }
        },
    }
}

fn read_policy(v: &Vec<u8>, pos: usize) -> (r: Option<(AccessPolicy, usize)>)
    requires
        pos <= v@.len(),
    ensures
        match r {
            Some((x, p)) => pos <= p <= v@.len() && dec_policy(v@.skip(pos as int)) == Some(
                (x, v@.skip(p as int)),
            ),
            None => dec_policy(v@.skip(pos as int)) is None,
        },
{
    match read_u8(v, pos) {
        None => None,
        Some((tag, p)) => {
            if tag == 0 {
                Some((AccessPolicy::Open, p))
            } else if tag == 1 {
                Some((AccessPolicy::Manual, p))
            } else if tag == 2 {
                Some((AccessPolicy::Sso, p))
            } else if tag == 3 {
                Some((AccessPolicy::Token, p))
            } else {
                None
            }
        },
    }
}

fn read_route(v: &Vec<u8>, pos: usize) -> (r: Option<(Route, usize)>)
    requires
        pos <= v@.len(),
    ensures
        match r {
            Some((x, p)) => pos <= p <= v@.len() && dec_route(v@.skip(pos as int)) == Some(
                (x, v@.skip(p as int)),
            ),
            None => dec_route(v@.skip(pos as int)) is None,
        },
{
    match read_u64(v, pos) {
        None => None,
        Some((target, p1)) => match read_opt_u64(v, p1) {
            None => None,
            Some((via, p2)) => Some((Route { target, via }, p2)),
        },
    }
}

#[verifier::rlimit(100)]
fn read_member(v: &Vec<u8>, pos: usize) -> (r: Option<(Member, usize)>)
    requires
        pos <= v@.len(),
    ensures
        match r {
            Some((m, p)) => pos <= p <= v@.len() && dec_member(v@.skip(pos as int)) == Some(
                (m@, v@.skip(p as int)),
            ),
            None => dec_member(v@.skip(pos as int)) is None,
        },
{
    proof {
        reveal(dec_member);
    }
    match read_u64(v, pos) {
        None => None,
        Some((address, p1)) => match read_flag(v, p1) {
            None => None,
            Some((authorized, p2)) => match read_fingerprint(v, p2) {
                None => None,
                Some((fingerprint, p3)) => match read_sso(v, p3) {
                    None => None,
                    Some((sso, p4)) => match read_token(v, p4) {
                        None => None,
                        Some((token, p5)) => match read_u64(v, p5) {
                            None => None,
                            Some((revision, p6)) => match read_flag(v, p6) {
                                Some((Some(removed), p7)) => Some(
                                    (
                                        Member {
                                            address: Address { value: address },
                                            authorized,
                                            fingerprint,
                                            sso,
                                            token,
                                            revision,
                                            removed,
                                        },
                                        p7,
                                    ),
                                ),
                                _ => None,
                            },
                        },
                    },
                },
            },
        },
    }
}

fn read_routes(v: &Vec<u8>, pos: usize, n: u64) -> (r: Option<(Vec<Route>, usize)>)
    requires
        pos <= v@.len(),
    ensures
        match r {
            Some((xs, p)) => pos <= p <= v@.len() && dec_routes(n as nat, v@.skip(pos as int))
                == Some((xs@, v@.skip(p as int))),
            None => dec_routes(n as nat, v@.skip(pos as int)) is None,
        },
    decreases n,
{
    if n == 0 {
        Some((Vec::new(), pos))
    } else {
        match read_route(v, pos) {
            None => None,
            Some((x, p1)) => match read_routes(v, p1, n - 1) {
                None => None,
                Some((mut xs, p2)) => {
                    let ghost tail = xs@;
                    xs.insert(0, x);
                    proof {
                        assert(xs@ =~= seq![x] + tail);
                    }
                    Some((xs, p2))
                },
            },
        }
    }
}

fn read_rules(v: &Vec<u8>, pos: usize, n: u64) -> (r: Option<(Vec<Rule>, usize)>)
    requires
        pos <= v@.len(),
    ensures
        match r {
            Some((xs, p)) => pos <= p <= v@.len() && dec_rules(n as nat, v@.skip(pos as int))
                == Some((xs@, v@.skip(p as int))),
            None => dec_rules(n as nat, v@.skip(pos as int)) is None,
        },
    decreases n,
{
    if n == 0 {
        Some((Vec::new(), pos))
    } else {
        match read_u64(v, pos) {
            None => None,
            Some((word, p1)) => match read_rules(v, p1, n - 1) {
                None => None,
                Some((mut xs, p2)) => {
                    let ghost tail = xs@;
                    xs.insert(0, Rule { word });
                    proof {
                        assert(xs@ =~= seq![Rule { word }] + tail);
                    }
                    Some((xs, p2))
                },
            },
        }
    }
}

#[verifier::rlimit(100)]
fn read_members(v: &Vec<u8>, pos: usize, n: u64) -> (r: Option<(Vec<Member>, usize)>)
    requires
        pos <= v@.len(),
    ensures
        match r {
            Some((xs, p)) => pos <= p <= v@.len() && dec_members(n as nat, v@.skip(pos as int))
                == Some((xs@.map_values(|m: Member| m@), v@.skip(p as int))),
            None => dec_members(n as nat, v@.skip(pos as int)) is None,
        },
    decreases n,
{
    if n == 0 {
        let xs: Vec<Member> = Vec::new();
        proof {
            assert(xs@.map_values(|m: Member| m@) =~= Seq::<MemberModel>::empty());
        }
        Some((xs, pos))
    } else {
        match read_member(v, pos) {
            None => None,
            Some((x, p1)) => match read_members(v, p1, n - 1) {
                None => None,
                Some((mut xs, p2)) => {
                    let ghost tail = xs@;
                    xs.insert(0, x);
                    proof {
                        assert(xs@ =~= seq![x] + tail);
                        assert(xs@.map_values(|m: Member| m@) =~= seq![x@] + tail.map_values(
                            |m: Member| m@,
                        ));
                    }
                    Some((xs, p2))
                },
            },
        }
    }
}

#[verifier::rlimit(100)]
fn read_network(v: &Vec<u8>, pos: usize) -> (r: Option<(Network, usize)>)
    requires
        pos <= v@.len(),
    ensures
        match r {
            Some((n, p)) => pos <= p <= v@.len() && dec_network(v@.skip(pos as int)) == Some(
                (n@, v@.skip(p as int)),
            ),
            None => dec_network(v@.skip(pos as int)) is None,
        },
{
    match read_u64(v, pos) {
        None => None,
        Some((id, p1)) => match read_policy(v, p1) {
            None => None,
            Some((policy, p2)) => match read_i64(v, p2) {
                None => None,
                Some((credential_window, p3)) => match read_i64(v, p3) {
                    None => None,
                    Some((config_window, p4)) => match read_u64(v, p4) {
                        None => None,
                        Some((nroutes, p5)) => match read_routes(v, p5, nroutes) {
                            None => None,
                            Some((routes, p6)) => match read_u64(v, p6) {
                                None => None,
                                Some((nrules, p7)) => match read_rules(v, p7, nrules) {
                                    None => None,
                                    Some((rules, p8)) => match read_u64(v, p8) {
                                        None => None,
                                        Some((mc, p9)) => {
                                            if mc <= 0xffff_ffffu64 {
                                                Some(
                                                    (
                                                        Network {
                                                            id: NetworkId { value: id },
                                                            policy,
                                                            credential_window,
                                                            config_window,
                                                            routes,
                                                            rules,
                                                            multicast_limit: mc as u32,
                                                        },
                                                        p9,
                                                    ),
                                                )
                                            } else {
                                                None
                                            }
                                        },
                                    },
                                },
                            },
                        },
                    },
                },
            },
        },
    }
}

impl NetworkExport {
    /// Decode a blob produced by `serialize`.  Returns the snapshot
    /// exactly when the bytes parse completely; trailing garbage or
    /// a malformed field yields nothing.
    pub fn deserialize(bytes: &Vec<u8>) -> (r: Option<NetworkExport>)
        ensures
            match r {
                Some(d) => deserialized(bytes@) == Some(d@),
                None => deserialized(bytes@) is None,
            },
    {
        proof {
            assert(bytes@.skip(0) =~= bytes@);
        }
        match read_network(bytes, 0) {
            None => None,
            Some((network, p1)) => match read_u64(bytes, p1) {
                None => None,
                Some((nmembers, p2)) => match read_members(bytes, p2, nmembers) {
                    None => None,
                    Some((members, p3)) => {
                        if p3 == bytes.len() {
                            proof {
                                assert(bytes@.skip(p3 as int).len() == 0);
                            }
                            Some(NetworkExport { network, members })
                        } else {
                            proof {
                                assert(bytes@.skip(p3 as int).len() > 0);
                            }
                            None
                        }
                    },
                },
            },
        }
    }
}

} // verus!
