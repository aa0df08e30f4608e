//! Application control: signed policies, and how they reach the backend of
//! the system.

use crate::clock::Timestamp;
use crate::text::{
    chars_of, cut, decimal, digit, is_text, numeral, opt_view, same_str, split_once, string_of,
    views,
};
use vstd::prelude::*;
use vstd::string::*;

verus! {

/// What the backend does with programs that are not allowed.
#[derive(Debug, Clone, Copy, PartialEq, Eq, Hash, Structural)]
pub enum AppControlMode {
    /// It lets them run and reports them.
    Monitor,
    /// It stops them.
    Enforce,
    /// There is no backend, or it is off.
    Disabled,
}

impl AppControlMode {
    /// The name of the mode.
    pub open spec fn name(self) -> Seq<char> {
        match self {
            AppControlMode::Monitor => "monitor"@,
            AppControlMode::Enforce => "enforce"@,
            AppControlMode::Disabled => "disabled"@,
        }
    }

    /// The name of the mode.
    pub fn as_str(&self) -> (r: &'static str)
        ensures
            r@ == self.name(),
    {
        match self {
            AppControlMode::Monitor => "monitor",
            AppControlMode::Enforce => "enforce",
            AppControlMode::Disabled => "disabled",
        }
    }
}

/// A rule that allows or denies a program.
#[derive(Debug, Clone, PartialEq, Eq, Hash)]
pub struct AppControlRule {
    /// Which programs: a kind, a colon and a value.
    pub subject: String,
    pub allow: bool,
    /// Why.
    pub reason: String,
}

/// What a policy says.
#[derive(Debug, Clone, PartialEq, Eq)]
pub struct AppControlPolicyPayload {
    pub version: u64,
    pub issued_at: Timestamp,
    pub target_mode: AppControlMode,
    pub rules: Vec<AppControlRule>,
}

/// A policy as it is delivered.
#[derive(Debug, Clone)]
pub struct SignedAppControlPolicy {
    /// The octets that were signed, in hexadecimal.
    pub canonical_payload_hex: String,
    /// The Ed25519 signature of those octets, in hexadecimal.
    pub signature: String,
    /// The Ed25519 public key of the signer, in hexadecimal.
    pub signing_key: String,
}

/// What can go wrong in application control.
#[derive(Debug, PartialEq, Eq)]
pub enum AppControlError {
    InvalidSignature,
    InvalidSigningKey(String),
    InvalidPayload(String),
    PolicyRegressed { applied: u64, new: u64 },
    NotSupported,
    Backend(String),
}

impl AppControlError {
    /// The text that describes the error.
    pub open spec fn text(self) -> Seq<char> {
        match self {
            AppControlError::InvalidSignature => "app-control policy signature invalid"@,
            AppControlError::InvalidSigningKey(e) => "app-control signing key malformed: "@ + e@,
            AppControlError::InvalidPayload(e) => "app-control policy payload invalid: "@ + e@,
            AppControlError::PolicyRegressed { applied, new } =>
                "app-control policy version regressed: applied="@ + numeral(applied as nat, 10)
                + " new="@ + numeral(new as nat, 10),
            AppControlError::NotSupported => "app-control not supported on this platform"@,
            AppControlError::Backend(e) => "app-control backend failed: "@ + e@,
        }
    }

    /// Describes the error.
    pub fn message(&self) -> (r: String)
        ensures
            r@ == self.text(),
    {
        match self {
            AppControlError::InvalidSignature => "app-control policy signature invalid".to_owned(),
            AppControlError::InvalidSigningKey(e) =>
                "app-control signing key malformed: ".to_owned().concat(e.as_str()),
            AppControlError::InvalidPayload(e) =>
                "app-control policy payload invalid: ".to_owned().concat(e.as_str()),
            AppControlError::PolicyRegressed { applied, new } =>
                "app-control policy version regressed: applied=".to_owned().concat(
                decimal(*applied).as_str(),
            ).concat(" new=").concat(decimal(*new).as_str()),
            AppControlError::NotSupported => "app-control not supported on this platform".to_owned(),
            AppControlError::Backend(e) => "app-control backend failed: ".to_owned().concat(
                e.as_str(),
            ),
        }
    }
}

// ---------------------------------------------------------------------
// Signatures
// ---------------------------------------------------------------------

/// Length of an Ed25519 public key.
pub const PUBLIC_KEY_LENGTH: usize = 32;

/// Length of an Ed25519 signature.
pub const SIGNATURE_LENGTH: usize = 64;

/// The octets that a text writes in hexadecimal, two digits each.
pub open spec fn hex_octets(s: Seq<char>) -> Option<Seq<u8>>
    decreases s.len(),
{
    if s.len() == 0 {
        Some(Seq::empty())
    } else if s.len() == 1 {
        None
    } else {
        match (digit(s[0], 16), digit(s[1], 16), hex_octets(s.skip(2))) {
            (Some(hi), Some(lo), Some(rest)) => Some(seq![(16 * hi + lo) as u8] + rest),
            _ => None,
        }
    }
}

/// What `hex::decode` says of a text that is not hexadecimal.
pub uninterp spec fn hex_complaint(s: Seq<char>) -> Seq<char>;

/// `hex::decode`: the octets that a text writes with two digits each, in
/// either case; an error where the number of digits is odd or a character
/// is no digit. The words of the error depend on the text alone.
#[verifier::external_body]
fn hex_decode(s: &str) -> (r: Result<Vec<u8>, String>)
    ensures
        match r {
            Ok(v) => hex_octets(s@) == Some(v@),
            Err(e) => hex_octets(s@) is None && e@ == hex_complaint(s@),
        },
{
    hex::decode(s).map_err(|e| e.to_string())
}

/// What `ed25519_dalek::VerifyingKey::from_bytes` says against octets that
/// are no public key; `None` for those that are one.
pub uninterp spec fn key_objection(key: Seq<u8>) -> Option<Seq<char>>;

/// `ed25519_dalek::VerifyingKey::from_bytes`. Whether the octets are a
/// public key, and what is said against them, depends on them alone.
#[verifier::external_body]
fn object_to_key(key: &[u8]) -> (r: Option<String>)
    requires
        key@.len() == PUBLIC_KEY_LENGTH,
    ensures
        opt_view(r) == key_objection(key@),
{
    ed25519_dalek::VerifyingKey::from_bytes(key.try_into().unwrap()).err().map(|e| e.to_string())
}

/// Whether `ed25519_dalek` accepts a signature of a message by a key.
pub uninterp spec fn ed25519_accepts(
    key: Seq<u8>,
    message: Seq<u8>,
    signature: Seq<u8>,
) -> bool;

/// `ed25519_dalek::VerifyingKey::verify`: whether the signature of the
/// message is by the key. That depends on the three alone. Octets that are
/// no public key accept nothing.
#[verifier::external_body]
fn accepts(key: &[u8], message: &[u8], signature: &[u8]) -> (r: bool)
    requires
        key@.len() == PUBLIC_KEY_LENGTH,
        signature@.len() == SIGNATURE_LENGTH,
    ensures
        r == ed25519_accepts(key@, message@, signature@),
{
    let sig = ed25519_dalek::Signature::from_bytes(signature.try_into().unwrap());
    ed25519_dalek::VerifyingKey::from_bytes(key.try_into().unwrap()).is_ok_and(
        |k| ed25519_dalek::Verifier::verify(&k, message, &sig).is_ok(),
    )
}

/// What the pieces of a signed policy turned out to be.
#[verifier::ext_equal]
pub struct PolicyPieces {
    /// The key, or what is said against its text.
    pub key: Result<Seq<u8>, Seq<char>>,
    /// What is said against the key itself.
    pub objection: Option<Seq<char>>,
    /// The signature, where its text is hexadecimal.
    pub signature: Option<Seq<u8>>,
    /// The octets that were signed, or what is said against their text.
    pub payload: Result<Seq<u8>, Seq<char>>,
    /// Whether the signature is by the key.
    pub accepted: bool,
}

/// What is said of a key of the wrong length.
pub open spec fn length_complaint(n: nat) -> Seq<char> {
    "expected "@ + numeral(PUBLIC_KEY_LENGTH as nat, 10) + " bytes, got "@ + numeral(n, 10)
}

/// What is wrong with the key.
pub open spec fn key_fault(p: PolicyPieces) -> Option<Seq<char>> {
    match p.key {
        Err(e) => Some(e),
        Ok(k) => if k.len() != PUBLIC_KEY_LENGTH {
            Some(length_complaint(k.len()))
        } else {
            p.objection
        },
    }
}

/// Whether the signature can be one.
pub open spec fn signature_fits(p: PolicyPieces) -> bool {
    p.signature is Some && p.signature->0.len() == SIGNATURE_LENGTH
}

/// Whether `r` is what becomes of a policy: the key is looked at first,
/// the signature next, then the payload, and last whether they belong
/// together.
pub open spec fn settled(p: PolicyPieces, r: Result<Vec<u8>, AppControlError>) -> bool {
    match key_fault(p) {
        Some(e) => r is Err && r->Err_0 is InvalidSigningKey && r->Err_0->InvalidSigningKey_0@ == e,
        None => if !signature_fits(p) {
            r == Err::<Vec<u8>, AppControlError>(AppControlError::InvalidSignature)
        } else {
            match p.payload {
                Err(e) => r is Err && r->Err_0 is InvalidPayload && r->Err_0->InvalidPayload_0@
                    == e,
                Ok(bytes) => if p.accepted {
                    r is Ok && r->Ok_0@ == bytes
                } else {
                    r == Err::<Vec<u8>, AppControlError>(AppControlError::InvalidSignature)
                },
            }
        },
    }
}

/// The contents of decoded octets.
pub open spec fn decoded_view(r: Result<Vec<u8>, String>) -> Result<Seq<u8>, Seq<char>> {
    match r {
        Ok(v) => Ok(v@),
        Err(e) => Err(e@),
    }
}

/// Decides on a policy by what its pieces turned out to be.
pub fn settle_policy(
    key: Result<Vec<u8>, String>,
    objection: Option<String>,
    signature: Option<Vec<u8>>,
    payload: Result<Vec<u8>, String>,
    accepted: bool,
) -> (r: Result<Vec<u8>, AppControlError>)
    ensures
        settled(
            PolicyPieces {
                key: decoded_view(key),
                objection: opt_view(objection),
                signature: match signature {
                    Some(s) => Some(s@),
                    None => None,
                },
                payload: decoded_view(payload),
                accepted,
            },
            r,
        ),
{
    match key {
        Err(e) => {
            return Err(AppControlError::InvalidSigningKey(e));
        },
        Ok(k) => {
            if k.len() != PUBLIC_KEY_LENGTH {
                let e = "expected ".to_owned().concat(
                    decimal(PUBLIC_KEY_LENGTH as u64).as_str(),
                ).concat(" bytes, got ").concat(decimal(k.len() as u64).as_str());
                return Err(AppControlError::InvalidSigningKey(e));
            }
        },
    }
    match objection {
        Some(e) => {
            return Err(AppControlError::InvalidSigningKey(e));
        },
        None => {},
    }
    let fits = match &signature {
        Some(s) => s.len() == SIGNATURE_LENGTH,
        None => false,
    };
    if !fits {
        return Err(AppControlError::InvalidSignature);
    }
    match payload {
        Err(e) => Err(AppControlError::InvalidPayload(e)),
        Ok(bytes) => if accepted {
            Ok(bytes)
        } else {
            Err(AppControlError::InvalidSignature)
        },
    }
}

/// What a text turns out to be as hexadecimal.
pub open spec fn hex_pieces(s: Seq<char>) -> Result<Seq<u8>, Seq<char>> {
    match hex_octets(s) {
        Some(v) => Ok(v),
        None => Err(hex_complaint(s)),
    }
}

/// What the pieces of a signed policy turn out to be.
pub open spec fn pieces_of_policy(policy: SignedAppControlPolicy) -> PolicyPieces {
    let key = hex_octets(policy.signing_key@);
    let signature = hex_octets(policy.signature@);
    let payload = hex_octets(policy.canonical_payload_hex@);
    let key_fits = key is Some && key->0.len() == PUBLIC_KEY_LENGTH;
    PolicyPieces {
        key: hex_pieces(policy.signing_key@),
        objection: if key_fits {
            key_objection(key->0)
        } else {
            None
        },
        signature,
        payload: hex_pieces(policy.canonical_payload_hex@),
        accepted: key_fits && signature is Some && signature->0.len() == SIGNATURE_LENGTH
            && payload is Some && ed25519_accepts(key->0, payload->0, signature->0),
    }
}

/// Octets that were signed by the key that came with them.
#[derive(Debug)]
pub struct VerifiedPayload {
    bytes: Vec<u8>,
    key: Vec<u8>,
    signature: Vec<u8>,
}

impl VerifiedPayload {
    #[verifier::type_invariant]
    spec fn signed(self) -> bool {
        ed25519_accepts(self.key@, self.bytes@, self.signature@)
    }

    /// The octets.
    pub closed spec fn octets(&self) -> Seq<u8> {
        self.bytes@
    }

    /// The key of the signer.
    pub closed spec fn signer(&self) -> Seq<u8> {
        self.key@
    }

    /// The signature.
    pub closed spec fn proof_of_origin(&self) -> Seq<u8> {
        self.signature@
    }

    /// The octets, which are known to be signed.
    pub fn bytes(&self) -> (r: &Vec<u8>)
        ensures
            r@ == self.octets(),
            ed25519_accepts(self.signer(), r@, self.proof_of_origin()),
    {
        proof {
            use_type_invariant(self);
        }
        &self.bytes
    }
}

/// Checks the signature of a policy and gives the octets that were signed.
pub fn verify_policy(policy: &SignedAppControlPolicy) -> (r: Result<VerifiedPayload, AppControlError>)
    ensures
        match r {
            Ok(p) => {
                &&& key_fault(pieces_of_policy(*policy)) is None
                &&& signature_fits(pieces_of_policy(*policy))
                &&& pieces_of_policy(*policy).payload == Ok::<Seq<u8>, Seq<char>>(p.octets())
                &&& pieces_of_policy(*policy).accepted
                &&& hex_octets(policy.signing_key@) == Some(p.signer())
                &&& hex_octets(policy.signature@) == Some(p.proof_of_origin())
            },
            Err(e) => settled(pieces_of_policy(*policy), Err(e)),
        },
{
    let key = hex_decode(policy.signing_key.as_str());
    let objection = match &key {
        Ok(k) => if k.len() == PUBLIC_KEY_LENGTH {
            object_to_key(k.as_slice())
        } else {
            None
        },
        Err(_) => None,
    };
    let signature = match hex_decode(policy.signature.as_str()) {
        Ok(s) => Some(s),
        Err(_) => None,
    };
    let payload = hex_decode(policy.canonical_payload_hex.as_str());
    let mut accepted = false;
    match (&key, &signature, &payload) {
        (Ok(k), Some(s), Ok(bytes)) => {
            if k.len() == PUBLIC_KEY_LENGTH && s.len() == SIGNATURE_LENGTH {
                accepted = accepts(k.as_slice(), bytes.as_slice(), s.as_slice());
            }
        },
        _ => {},
    }
    let signer = match &key {
        Ok(k) => k.clone(),
        Err(_) => Vec::new(),
    };
    let origin = match &signature {
        Some(s) => s.clone(),
        None => Vec::new(),
    };
    match settle_policy(key, objection, signature, payload, accepted) {
        Ok(bytes) => {
            assert(signer@ =~= key->Ok_0@);
            assert(origin@ =~= signature->0@);
            Ok(VerifiedPayload { bytes, key: signer, signature: origin })
        },
        Err(e) => Err(e),
    }
}

/// A policy that is accepted carries a signature of its very octets by the
/// key it names.
pub proof fn law_accepted_policies_are_signed(policy: SignedAppControlPolicy, r: Vec<u8>)
    requires
        settled(pieces_of_policy(policy), Ok(r)),
    ensures
        hex_octets(policy.canonical_payload_hex@) == Some(r@),
        hex_octets(policy.signing_key@) is Some,
        hex_octets(policy.signature@) is Some,
        ed25519_accepts(
            hex_octets(policy.signing_key@)->0,
            r@,
            hex_octets(policy.signature@)->0,
        ),
{
}

// ---------------------------------------------------------------------
// Providers
// ---------------------------------------------------------------------

/// A policy is older than the one in force, or the same.
pub open spec fn regresses(applied: Option<u64>, new: u64) -> bool {
    applied is Some && new <= applied->0
}

/// Refuses a policy that is not newer than the one in force; `applied` is
/// the version of that one, if there is any.
pub fn check_version(applied: Option<u64>, new: u64) -> (r: Result<(), AppControlError>)
    ensures
        r == if regresses(applied, new) {
            Err(AppControlError::PolicyRegressed { applied: applied->0, new })
        } else {
            Ok(())
        },
{
    match applied {
        Some(a) => if new <= a {
            Err(AppControlError::PolicyRegressed { applied: a, new })
        } else {
            Ok(())
        },
        None => Ok(()),
    }
}

/// Each of the versions was accepted while the one before it was in force.
pub open spec fn accepted_in_turn(versions: Seq<u64>) -> bool {
    forall|i: int| 0 < i < versions.len() ==> !regresses(Some(versions[i - 1]), #[trigger] versions[i])
}

/// Policies that are accepted one after another have growing versions, so
/// that none comes twice.
pub proof fn law_versions_grow(versions: Seq<u64>, i: int, j: int)
    requires
        accepted_in_turn(versions),
        0 <= i < j < versions.len(),
    ensures
        versions[i] < versions[j],
    decreases j,
{
    assert(!regresses(Some(versions[j - 1]), versions[j]));
    if i < j - 1 {
        law_versions_grow(versions, i, j - 1);
    }
}

/// The backend of the system.
pub trait AppControlProvider {
    /// What the backend does now.
    fn current_mode(&self) -> Result<AppControlMode, AppControlError>;

    /// Hands a policy whose signature was checked to the backend. `decoded`
    /// is what its octets say, or why they say nothing; `applied` is the
    /// version of the policy in force, if there is any.
    fn apply_policy(
        &self,
        verified: &VerifiedPayload,
        decoded: Result<AppControlPolicyPayload, String>,
        applied: Option<u64>,
    ) -> (r: Result<(), AppControlError>)
        ensures
            match decoded {
                Err(e) => r == Err::<(), AppControlError>(AppControlError::InvalidPayload(e)),
                Ok(p) => if regresses(applied, p.version) {
                    r == Err::<(), AppControlError>(
                        AppControlError::PolicyRegressed { applied: applied->0, new: p.version },
                    )
                } else {
                    call_ensures(Self::apply_verified_policy, (self, &p), r)
                },
            },
    {
        match decoded {
            Ok(payload) => match check_version(applied, payload.version) {
                Ok(_) => self.apply_verified_policy(&payload),
                Err(e) => Err(e),
            },
            Err(e) => Err(AppControlError::InvalidPayload(e)),
        }
    }

    /// Hands what a policy says to the backend.
    fn apply_verified_policy(&self, payload: &AppControlPolicyPayload) -> Result<
        (),
        AppControlError,
    >;
}

/// The version of the policy in force.
pub struct PolicyVersions {
    applied: Option<u64>,
    accepted: Ghost<Seq<u64>>,
}

impl PolicyVersions {
    /// The versions of all policies that came into force, in order.
    pub closed spec fn history(&self) -> Seq<u64> {
        self.accepted@
    }

    /// The version in force, if there is any.
    pub open spec fn current(&self) -> Option<u64> {
        if self.history().len() == 0 {
            None
        } else {
            Some(self.history().last())
        }
    }

    /// The last version is the one in force, and each was accepted while the
    /// one before it was.
    pub closed spec fn wf(&self) -> bool {
        &&& accepted_in_turn(self.accepted@)
        &&& self.applied == self.current()
    }

    /// No policy is in force.
    pub fn new() -> (r: PolicyVersions)
        ensures
            r.wf(),
            r.history() == Seq::<u64>::empty(),
    {
        PolicyVersions { applied: None, accepted: Ghost(Seq::empty()) }
    }

    /// The version in force, if there is any.
    pub fn in_force(&self) -> (r: Option<u64>)
        requires
            self.wf(),
        ensures
            r == self.current(),
    {
        self.applied
    }

    /// Hands a policy whose signature was checked to the provider. It comes
    /// into force where its octets say something, it is newer than the one in
    /// force and the provider takes it; otherwise nothing changes.
    pub fn apply<P: AppControlProvider>(
        &mut self,
        provider: &P,
        verified: &VerifiedPayload,
        decoded: Result<AppControlPolicyPayload, String>,
    ) -> (r: Result<(), AppControlError>)
        requires
            old(self).wf(),
        ensures
            final(self).wf(),
            final(self).history() == if r is Ok {
                old(self).history().push(decoded->Ok_0.version)
            } else {
                old(self).history()
            },
            match decoded {
                Err(e) => r == Err::<(), AppControlError>(AppControlError::InvalidPayload(e)),
                Ok(p) => if regresses(old(self).current(), p.version) {
                    r == Err::<(), AppControlError>(
                        AppControlError::PolicyRegressed {
                            applied: old(self).current()->0,
                            new: p.version,
                        },
                    )
                } else {
                    call_ensures(P::apply_verified_policy, (provider, &p), r)
                },
            },
    {
        let version: Option<u64> = match &decoded {
            Ok(p) => Some(p.version),
            Err(_) => None,
        };
        let r = provider.apply_policy(verified, decoded, self.applied);
        if r.is_ok() {
            self.applied = version;
            proof {
                self.accepted@ = self.accepted@.push(version->0);
            }
        }
        r
    }
}

impl Default for PolicyVersions {
    fn default() -> (r: Self)
        ensures
            r.wf(),
            r.history() == Seq::<u64>::empty(),
    {
        PolicyVersions::new()
    }
}

/// The policies that come into force have growing versions, so that none
/// comes twice.
pub proof fn law_policies_in_force_grow(v: PolicyVersions, i: int, j: int)
    requires
        v.wf(),
        0 <= i < j < v.history().len(),
    ensures
        v.history()[i] < v.history()[j],
{
    law_versions_grow(v.history(), i, j);
}

/// Application control of Linux hosts, which takes every policy and does
/// nothing with it.
#[derive(Debug, Clone, Copy)]
pub struct LinuxAppControlProvider {}

impl LinuxAppControlProvider {
    pub fn new() -> (r: LinuxAppControlProvider)
        ensures
            r == (LinuxAppControlProvider {  }),
    {
        LinuxAppControlProvider {  }
    }
}

impl Default for LinuxAppControlProvider {
    fn default() -> (r: Self)
        ensures
            r == (LinuxAppControlProvider {  }),
    {
        LinuxAppControlProvider {  }
    }
}

impl AppControlProvider for LinuxAppControlProvider {
    fn current_mode(&self) -> (r: Result<AppControlMode, AppControlError>)
        ensures
            r == Ok::<AppControlMode, AppControlError>(AppControlMode::Disabled),
    {
        Ok(AppControlMode::Disabled)
    }

    fn apply_verified_policy(&self, payload: &AppControlPolicyPayload) -> (r: Result<
        (),
        AppControlError,
    >)
        ensures
            r is Ok,
    {
        Ok(())
    }
}

/// Application control of Windows hosts, which takes every policy and does
/// nothing with it.
#[derive(Debug, Clone, Copy)]
pub struct WindowsAppControlProvider {}

impl WindowsAppControlProvider {
    pub fn new() -> (r: WindowsAppControlProvider)
        ensures
            r == (WindowsAppControlProvider {  }),
    {
        WindowsAppControlProvider {  }
    }
}

impl Default for WindowsAppControlProvider {
    fn default() -> (r: Self)
        ensures
            r == (WindowsAppControlProvider {  }),
    {
        WindowsAppControlProvider {  }
    }
}

impl AppControlProvider for WindowsAppControlProvider {
    fn current_mode(&self) -> (r: Result<AppControlMode, AppControlError>)
        ensures
            r == Ok::<AppControlMode, AppControlError>(AppControlMode::Disabled),
    {
        Ok(AppControlMode::Disabled)
    }

    fn apply_verified_policy(&self, payload: &AppControlPolicyPayload) -> (r: Result<
        (),
        AppControlError,
    >)
        ensures
            r is Ok,
    {
        Ok(())
    }
}

/// What Santa tells of itself.
#[derive(Debug, Clone, PartialEq, Eq)]
pub struct SantaStatus {
    /// `MONITOR` or `LOCKDOWN`.
    pub mode: String,
}

/// What `str::to_uppercase` makes of a text.
pub uninterp spec fn uppercase_text(s: Seq<char>) -> Seq<char>;

/// `str::to_uppercase`, which depends on the text alone.
#[verifier::external_body]
fn uppercase(s: &str) -> (r: String)
    ensures
        r@ == uppercase_text(s@),
{
    s.to_uppercase()
}

/// The mode that Santa names in capital letters.
pub open spec fn santa_mode_named(name: Seq<char>) -> AppControlMode {
    if name == "MONITOR"@ {
        AppControlMode::Monitor
    } else if name == "LOCKDOWN"@ {
        AppControlMode::Enforce
    } else {
        AppControlMode::Disabled
    }
}

/// The mode that Santa names in capital letters.
pub fn santa_mode(name: &str) -> (r: AppControlMode)
    ensures
        r == santa_mode_named(name@),
{
    if same_str(name, "MONITOR") {
        AppControlMode::Monitor
    } else if same_str(name, "LOCKDOWN") {
        AppControlMode::Enforce
    } else {
        AppControlMode::Disabled
    }
}

impl SantaStatus {
    /// The mode that Santa is in.
    pub fn to_app_control_mode(&self) -> (r: AppControlMode)
        ensures
            r == santa_mode_named(uppercase_text(self.mode@)),
    {
        santa_mode(uppercase(self.mode.as_str()).as_str())
    }
}

/// The option that names the subject of a rule to Santa. A kind that Santa
/// does not know goes, with its value, to an option that refuses it.
pub open spec fn santa_subject(subject: Seq<char>) -> Seq<char> {
    match cut(subject, ':') {
        Some((kind, value)) => if kind == "sha256"@ {
            "--sha256="@ + value
        } else if kind == "team_id"@ || kind == "teamid"@ {
            "--teamid="@ + value
        } else if kind == "signing_id"@ || kind == "signingid"@ {
            "--signingid="@ + value
        } else if kind == "certificate"@ || kind == "cert"@ {
            "--certificate="@ + value
        } else if kind == "cdhash"@ {
            "--cdhash="@ + value
        } else {
            "--sha256="@ + subject
        },
        None => "--sha256="@ + subject,
    }
}

/// The arguments that add a rule to Santa.
pub open spec fn santa_arguments(rule: AppControlRule) -> Seq<Seq<char>> {
    seq![
        "rule"@,
        if rule.allow {
            "--allow"@
        } else {
            "--block"@
        },
        santa_subject(rule.subject@),
    ] + if rule.reason@.len() == 0 {
        Seq::empty()
    } else {
        seq!["--message"@, rule.reason@]
    }
}

fn subject_option(subject: &str) -> (r: String)
    ensures
        r@ == santa_subject(subject@),
{
    let chars = chars_of(subject);
    match split_once(chars.as_slice(), ':') {
        Some((kind, value)) => {
            let option = if is_text(kind, "sha256") {
                "--sha256="
            } else if is_text(kind, "team_id") || is_text(kind, "teamid") {
                "--teamid="
            } else if is_text(kind, "signing_id") || is_text(kind, "signingid") {
                "--signingid="
            } else if is_text(kind, "certificate") || is_text(kind, "cert") {
                "--certificate="
            } else if is_text(kind, "cdhash") {
                "--cdhash="
            } else {
                return "--sha256=".to_owned().concat(subject);
            };
            let value = string_of(value);
            option.to_owned().concat(value.as_str())
        },
        None => "--sha256=".to_owned().concat(subject),
    }
}

/// The arguments that add a rule to Santa.
pub fn santa_rule_args(rule: &AppControlRule) -> (r: Vec<String>)
    ensures
        views(r@) == santa_arguments(*rule),
{
    let verb = if rule.allow {
        "--allow".to_owned()
    } else {
        "--block".to_owned()
    };
    let mut args: Vec<String> = vec!["rule".to_owned(), verb, subject_option(rule.subject.as_str())];
    if !rule.reason.as_str().is_empty() {
        args.push("--message".to_owned());
        args.push(rule.reason.clone());
    }
    assert(views(args@) =~= santa_arguments(*rule));
    args
}

/// Application control of macOS hosts by Santa.
#[derive(Debug)]
pub struct MacAppControlProvider {
    status: Option<SantaStatus>,
}

impl MacAppControlProvider {
    /// What Santa has told of itself.
    pub closed spec fn told(&self) -> Option<Seq<char>> {
        match self.status {
            Some(s) => Some(s.mode@),
            None => None,
        }
    }

    /// A host on which Santa has told nothing.
    pub fn new() -> (r: MacAppControlProvider)
        ensures
            r.told() is None,
    {
        MacAppControlProvider { status: None }
    }

    /// A host on which Santa has told this of itself, if anything.
    pub fn with_status(status: Option<SantaStatus>) -> (r: MacAppControlProvider)
        ensures
            r.told() == (match status {
                Some(s) => Some(s.mode@),
                None => None,
            }),
    {
        MacAppControlProvider { status }
    }
}

impl Default for MacAppControlProvider {
    fn default() -> (r: Self)
        ensures
            r.told() is None,
    {
        MacAppControlProvider::new()
    }
}

impl AppControlProvider for MacAppControlProvider {
    /// The mode of Santa; a host without Santa has no backend.
    fn current_mode(&self) -> (r: Result<AppControlMode, AppControlError>)
        ensures
            r == Ok::<AppControlMode, AppControlError>(
                match self.told() {
                    Some(m) => santa_mode_named(uppercase_text(m)),
                    None => AppControlMode::Disabled,
                },
            ),
    {
        match &self.status {
            Some(s) => Ok(s.to_app_control_mode()),
            None => Ok(AppControlMode::Disabled),
        }
    }

    fn apply_verified_policy(&self, payload: &AppControlPolicyPayload) -> (r: Result<
        (),
        AppControlError,
    >)
        ensures
            r is Ok,
    {
        Ok(())
    }
}

} // verus!
