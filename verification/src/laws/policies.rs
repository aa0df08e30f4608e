//! Application control: what a policy must be to be accepted, and how its
//! rules reach the backend.

use crate::app_control::{
    check_version, hex_octets, santa_mode, santa_rule_args, santa_subject, settle_policy,
    verify_policy, AppControlError, AppControlMode, AppControlPolicyPayload, AppControlProvider,
    AppControlRule, LinuxAppControlProvider, MacAppControlProvider, PolicyVersions, SantaStatus,
    SignedAppControlPolicy, VerifiedPayload, WindowsAppControlProvider,
};
use crate::laws::text::{law_cut_undoes_joining, law_digits};
use crate::text::{digit, digit_char, numeral, views};
use vstd::prelude::*;

verus! {

/// Octets in hexadecimal, two digits each.
pub open spec fn hexed(o: Seq<u8>) -> Seq<char>
    decreases o.len(),
{
    if o.len() == 0 {
        Seq::empty()
    } else {
        seq![digit_char((o[0] / 16) as nat), digit_char((o[0] % 16) as nat)] + hexed(o.drop_first())
    }
}

/// Octets that are written in hexadecimal are read back.
pub proof fn law_hexadecimal_is_read_back(o: Seq<u8>)
    ensures
        hex_octets(hexed(o)) == Some(o),
        hexed(o).len() == 2 * o.len(),
    decreases o.len(),
{
    if o.len() > 0 {
        let s = hexed(o);
        law_digits((o[0] / 16) as nat);
        law_digits((o[0] % 16) as nat);
        law_hexadecimal_is_read_back(o.drop_first());
        assert(s.skip(2) =~= hexed(o.drop_first()));
        assert(s[0] == digit_char((o[0] / 16) as nat) && s[1] == digit_char((o[0] % 16) as nat));
        assert((16 * (o[0] / 16) + o[0] % 16) as u8 == o[0]);
        assert(seq![o[0]] + o.drop_first() =~= o);
    } else {
        assert(o =~= Seq::empty());
    }
}

/// An odd number of digits is no hexadecimal, and neither is a text with a
/// character that is no digit.
pub proof fn law_what_is_no_hexadecimal(s: Seq<char>, i: int)
    ensures
        s.len() % 2 == 1 ==> hex_octets(s) is None,
        0 <= i < s.len() && digit(s[i], 16) is None ==> hex_octets(s) is None,
    decreases s.len(),
{
    if s.len() > 1 {
        law_what_is_no_hexadecimal(s.skip(2), i - 2);
        if 2 <= i < s.len() {
            assert(s.skip(2)[i - 2] == s[i]);
        }
    }
}

/// A policy is accepted where its key is a key of 32 octets that nothing is
/// said against, its signature has 64 octets, its payload can be read and the
/// signature is of the payload by the key; the payload is then what comes
/// out.
pub proof fn law_what_makes_a_policy(
    key: Result<Vec<u8>, String>,
    objection: Option<String>,
    signature: Option<Vec<u8>>,
    payload: Result<Vec<u8>, String>,
    accepted: bool,
    r: Result<Vec<u8>, AppControlError>,
)
    requires
        call_ensures(settle_policy, (key, objection, signature, payload, accepted), r),
    ensures
        r is Ok <==> {
            &&& key is Ok
            &&& key->Ok_0@.len() == 32
            &&& objection is None
            &&& signature is Some
            &&& signature->0@.len() == 64
            &&& payload is Ok
            &&& accepted
        },
        r is Ok ==> r->Ok_0@ == payload->Ok_0@,
{
}

/// The error of a policy is that of the first piece that is wrong: the key,
/// then the signature, then the payload, then what they have to do with one
/// another.
pub proof fn law_the_first_wrong_piece_is_told(
    key: Result<Vec<u8>, String>,
    objection: Option<String>,
    signature: Option<Vec<u8>>,
    payload: Result<Vec<u8>, String>,
    accepted: bool,
    r: Result<Vec<u8>, AppControlError>,
)
    requires
        call_ensures(settle_policy, (key, objection, signature, payload, accepted), r),
    ensures
        key is Err ==> r is Err && r->Err_0 is InvalidSigningKey && r->Err_0->InvalidSigningKey_0@
            == key->Err_0@,
        key is Ok && key->Ok_0@.len() != 32 ==> r is Err && r->Err_0 is InvalidSigningKey
            && r->Err_0->InvalidSigningKey_0@ == "expected "@ + numeral(32, 10) + " bytes, got "@
            + numeral(key->Ok_0@.len(), 10),
        key is Ok && key->Ok_0@.len() == 32 && objection is Some ==> r is Err
            && r->Err_0 is InvalidSigningKey && r->Err_0->InvalidSigningKey_0@ == objection->0@,
        key is Ok && key->Ok_0@.len() == 32 && objection is None && !(signature is Some
            && signature->0@.len() == 64) ==> r is Err && r->Err_0 is InvalidSignature,
        key is Ok && key->Ok_0@.len() == 32 && objection is None && signature is Some
            && signature->0@.len() == 64 && payload is Err ==> r is Err && r->Err_0 is InvalidPayload
            && r->Err_0->InvalidPayload_0@ == payload->Err_0@,
        key is Ok && key->Ok_0@.len() == 32 && objection is None && signature is Some
            && signature->0@.len() == 64 && payload is Ok && !accepted ==> r is Err
            && r->Err_0 is InvalidSignature,
{
}

/// A policy that is verified hands out the octets that its payload writes,
/// with the key and the signature that it names.
pub proof fn law_verified_octets_are_those_of_the_payload(
    policy: SignedAppControlPolicy,
    r: Result<VerifiedPayload, AppControlError>,
    o: Seq<u8>,
)
    requires
        call_ensures(verify_policy, (&policy,), r),
        policy.canonical_payload_hex@ == hexed(o),
        r is Ok,
    ensures
        r->Ok_0.octets() == o,
        hex_octets(policy.signing_key@) == Some(r->Ok_0.signer()),
        hex_octets(policy.signature@) == Some(r->Ok_0.proof_of_origin()),
        crate::app_control::ed25519_accepts(
            r->Ok_0.signer(),
            r->Ok_0.octets(),
            r->Ok_0.proof_of_origin(),
        ),
{
    law_hexadecimal_is_read_back(o);
}

/// A policy comes into force only where its version is above the one in
/// force.
pub proof fn law_versions_only_rise(applied: u64, new: u64, r: Result<(), AppControlError>, first: Result<(), AppControlError>)
    requires
        call_ensures(check_version, (Some(applied), new), r),
        call_ensures(check_version, (None::<u64>, new), first),
    ensures
        r is Ok <==> new > applied,
        r is Err ==> r->Err_0 == (AppControlError::PolicyRegressed { applied, new }),
        first is Ok,
{
}

/// The names of the modes.
pub proof fn law_names_of_modes(m: AppControlMode, r: &'static str)
    requires
        call_ensures(AppControlMode::as_str, (&m,), r),
    ensures
        r@ == "monitor"@ <==> m == AppControlMode::Monitor,
        r@ == "enforce"@ <==> m == AppControlMode::Enforce,
        r@ == "disabled"@ <==> m == AppControlMode::Disabled,
{
    reveal_strlit("monitor");
    reveal_strlit("enforce");
    reveal_strlit("disabled");
    assert("monitor"@[0] == 'm' && "enforce"@[0] == 'e' && "disabled"@[0] == 'd');
}

/// Santa stops programs in lockdown alone.
pub proof fn law_modes_of_santa(name: &str, r: AppControlMode)
    requires
        call_ensures(santa_mode, (name,), r),
    ensures
        r == AppControlMode::Monitor <==> name@ == "MONITOR"@,
        r == AppControlMode::Enforce <==> name@ == "LOCKDOWN"@,
{
    reveal_strlit("MONITOR");
    reveal_strlit("LOCKDOWN");
    assert("MONITOR"@[0] != "LOCKDOWN"@[0]);
}

/// A rule allows or blocks as it says, names its subject, and gives its
/// reason where it has one.
pub proof fn law_rules_for_santa(rule: AppControlRule, r: Vec<String>)
    requires
        call_ensures(santa_rule_args, (&rule,), r),
    ensures
        r@.len() == if rule.reason@.len() == 0 {
            3int
        } else {
            5
        },
        r@[0]@ == "rule"@,
        r@[1]@ == "--allow"@ <==> rule.allow,
        r@[1]@ == "--block"@ <==> !rule.allow,
        r@[2]@ == santa_subject(rule.subject@),
        rule.reason@.len() > 0 ==> r@[3]@ == "--message"@ && r@[4]@ == rule.reason@,
{
    reveal_strlit("--allow");
    reveal_strlit("--block");
    assert("--allow"@[2] != "--block"@[2]);
    let v = views(r@);
    assert(v.len() == r@.len());
    assert(v[0] == r@[0]@ && v[1] == r@[1]@ && v[2] == r@[2]@);
    if rule.reason@.len() > 0 {
        assert(v[3] == r@[3]@ && v[4] == r@[4]@);
    }
}

/// Each kind of subject goes to the option of that kind with its value; a
/// subject of another kind, or of none, is taken for a digest as a whole.
pub proof fn law_subjects_for_santa(kind: Seq<char>, value: Seq<char>)
    requires
        !kind.contains(':'),
    ensures
        ({
            let s = santa_subject(kind + seq![':'] + value);
            &&& kind == "sha256"@ ==> s == "--sha256="@ + value
            &&& kind == "team_id"@ || kind == "teamid"@ ==> s == "--teamid="@ + value
            &&& kind == "signing_id"@ || kind == "signingid"@ ==> s == "--signingid="@ + value
            &&& kind == "certificate"@ || kind == "cert"@ ==> s == "--certificate="@ + value
            &&& kind == "cdhash"@ ==> s == "--cdhash="@ + value
            &&& kind != "sha256"@ && kind != "team_id"@ && kind != "teamid"@ && kind != "signing_id"@
                && kind != "signingid"@ && kind != "certificate"@ && kind != "cert"@ && kind
                != "cdhash"@ ==> s == "--sha256="@ + kind + seq![':'] + value
        }),
        santa_subject(kind) == "--sha256="@ + kind,
{
    law_cut_undoes_joining(kind, ':', value);
    lemma_kinds();
    assert("--sha256="@ + (kind + seq![':'] + value) =~= "--sha256="@ + kind + seq![':'] + value);
}

proof fn lemma_kinds()
    ensures
        "sha256"@.len() == 6 && "sha256"@[1] == 'h',
        "team_id"@.len() == 7 && "team_id"@[0] == 't',
        "teamid"@.len() == 6 && "teamid"@[0] == 't',
        "signing_id"@.len() == 10,
        "signingid"@.len() == 9,
        "certificate"@.len() == 11,
        "cert"@.len() == 4,
        "cdhash"@.len() == 6 && "cdhash"@[0] == 'c',
        "sha256"@[0] == 's',
{
    reveal_strlit("sha256");
    reveal_strlit("team_id");
    reveal_strlit("teamid");
    reveal_strlit("signing_id");
    reveal_strlit("signingid");
    reveal_strlit("certificate");
    reveal_strlit("cert");
    reveal_strlit("cdhash");
}

/// The mode of a host is what Santa says of itself in capitals; a host where
/// it says nothing, and a host of another system, has none.
pub proof fn law_modes_of_hosts(
    m: MacAppControlProvider,
    status: SantaStatus,
    mode: AppControlMode,
    a: Result<AppControlMode, AppControlError>,
    none: MacAppControlProvider,
    b: Result<AppControlMode, AppControlError>,
    l: LinuxAppControlProvider,
    c: Result<AppControlMode, AppControlError>,
    w: WindowsAppControlProvider,
    d: Result<AppControlMode, AppControlError>,
)
    requires
        call_ensures(MacAppControlProvider::with_status, (Some(status),), m),
        call_ensures(SantaStatus::to_app_control_mode, (&status,), mode),
        call_ensures(MacAppControlProvider::current_mode, (&m,), a),
        call_ensures(MacAppControlProvider::new, (), none),
        call_ensures(MacAppControlProvider::current_mode, (&none,), b),
        call_ensures(LinuxAppControlProvider::current_mode, (&l,), c),
        call_ensures(WindowsAppControlProvider::current_mode, (&w,), d),
    ensures
        a == Ok::<AppControlMode, AppControlError>(mode),
        b == Ok::<AppControlMode, AppControlError>(AppControlMode::Disabled),
        c == Ok::<AppControlMode, AppControlError>(AppControlMode::Disabled),
        d == Ok::<AppControlMode, AppControlError>(AppControlMode::Disabled),
        mode == AppControlMode::Enforce <==> crate::app_control::uppercase_text(status.mode@)
            == "LOCKDOWN"@,
        mode == AppControlMode::Monitor <==> crate::app_control::uppercase_text(status.mode@)
            == "MONITOR"@,
{
    reveal_strlit("MONITOR");
    reveal_strlit("LOCKDOWN");
    assert("MONITOR"@[0] != "LOCKDOWN"@[0]);
}

/// A policy comes into force only where it can be read, is newer than the one
/// in force and the provider takes it; otherwise nothing changes.
pub proof fn law_policies_come_into_force<P: AppControlProvider>(
    v: &mut PolicyVersions,
    provider: P,
    verified: VerifiedPayload,
    decoded: Result<AppControlPolicyPayload, String>,
    r: Result<(), AppControlError>,
)
    requires
        old(v).wf(),
        call_ensures(PolicyVersions::apply::<P>, (v, &provider, &verified, decoded), r),
    ensures
        decoded is Err ==> r == Err::<(), AppControlError>(AppControlError::InvalidPayload(decoded->Err_0)),
        decoded is Ok && old(v).history().len() > 0 && decoded->Ok_0.version <= old(v).history().last()
            ==> r is Err && r->Err_0 == (AppControlError::PolicyRegressed {
            applied: old(v).history().last(),
            new: decoded->Ok_0.version,
        }),
        r is Ok ==> final(v).history() == old(v).history().push(decoded->Ok_0.version),
        r is Err ==> final(v).history() == old(v).history(),
        decoded is Ok && (old(v).history().len() == 0 || decoded->Ok_0.version > old(v).history().last())
            ==> call_ensures(P::apply_verified_policy, (&provider, &decoded->Ok_0), r),
{
}

} // verus!
