use ed25519_dalek::{Signer, SigningKey};
use sda_agent::app_control::{
    check_version, santa_mode, santa_rule_args, settle_policy, verify_policy, AppControlError, AppControlMode,
    AppControlPolicyPayload, AppControlProvider, AppControlRule, LinuxAppControlProvider,
    MacAppControlProvider, PolicyVersions, SantaStatus, SignedAppControlPolicy, WindowsAppControlProvider,
    SIGNATURE_LENGTH,
};
use sda_agent::clock::Timestamp;

fn sample_payload() -> AppControlPolicyPayload {
    AppControlPolicyPayload {
        version: 1,
        issued_at: Timestamp {
            secs: 1_778_142_600,
            nanos: 0,
        },
        target_mode: AppControlMode::Monitor,
        rules: vec![AppControlRule {
            subject: "sha256:abc".into(),
            allow: true,
            reason: "test".into(),
        }],
    }
}

fn encode(payload: &AppControlPolicyPayload) -> Vec<u8> {
    format!(
        r#"{{"version":{},"issued_at":"{}","target_mode":"{}","rules":[{{"subject":"{}","allow":{},"reason":"{}"}}]}}"#,
        payload.version,
        payload.issued_at.to_rfc3339(),
        payload.target_mode.as_str(),
        payload.rules[0].subject,
        payload.rules[0].allow,
        payload.rules[0].reason,
    )
    .into_bytes()
}

fn sign_payload(payload: &AppControlPolicyPayload) -> SignedAppControlPolicy {
    let mut secret_bytes = [0u8; 32];
    // Deterministic key for reproducible test output.
    secret_bytes[0] = 1;
    let signing = SigningKey::from_bytes(&secret_bytes);
    let bytes = encode(payload);
    let sig = signing.sign(&bytes);
    SignedAppControlPolicy {
        canonical_payload_hex: hex::encode(&bytes),
        signature: hex::encode(sig.to_bytes()),
        signing_key: hex::encode(signing.verifying_key().to_bytes()),
    }
}

/// Checks a policy and hands it to a provider.
fn apply<P: AppControlProvider>(
    p: &P,
    policy: &SignedAppControlPolicy,
    payload: AppControlPolicyPayload,
) -> Result<(), AppControlError> {
    let verified = verify_policy(policy)?;
    p.apply_policy(&verified, Ok(payload), None)
}

#[test]
fn mode_as_str_is_stable() {
    // Logs / wire payloads pin on the lowercase form.
    assert_eq!(AppControlMode::Monitor.as_str(), "monitor");
    assert_eq!(AppControlMode::Enforce.as_str(), "enforce");
    assert_eq!(AppControlMode::Disabled.as_str(), "disabled");
}

#[test]
fn verify_policy_accepts_a_valid_signature() {
    let payload = sample_payload();
    let signed = sign_payload(&payload);
    let verified = verify_policy(&signed).expect("verify");
    assert_eq!(verified.bytes(), &encode(&payload));
    let parsed: serde_json::Value = serde_json::from_slice(verified.bytes()).unwrap();
    assert_eq!(parsed["version"], payload.version);
    assert_eq!(parsed["target_mode"], payload.target_mode.as_str());
}

#[test]
fn verify_policy_rejects_a_tampered_payload() {
    let payload = sample_payload();
    let mut signed = sign_payload(&payload);
    // Flip a byte in the canonical payload — signature must no
    // longer verify.
    let mut bytes = hex::decode(&signed.canonical_payload_hex).unwrap();
    bytes[0] ^= 0x01;
    signed.canonical_payload_hex = hex::encode(bytes);
    assert!(matches!(
        verify_policy(&signed),
        Err(AppControlError::InvalidSignature) | Err(AppControlError::InvalidPayload(_))
    ));
}

#[test]
fn verify_policy_rejects_a_malformed_key() {
    let payload = sample_payload();
    let mut signed = sign_payload(&payload);
    signed.signing_key = "00".into();
    assert!(matches!(
        verify_policy(&signed),
        Err(AppControlError::InvalidSigningKey(_))
    ));
}

#[test]
fn verify_policy_rejects_a_malformed_signature() {
    let payload = sample_payload();
    let mut signed = sign_payload(&payload);
    signed.signature = "00".into();
    assert!(matches!(
        verify_policy(&signed),
        Err(AppControlError::InvalidSignature)
    ));
}

#[test]
fn stub_current_mode_is_disabled_or_observed() {
    for m in [
        LinuxAppControlProvider::new().current_mode(),
        MacAppControlProvider::new().current_mode(),
        WindowsAppControlProvider::new().current_mode(),
    ] {
        let m = m.expect("current_mode");
        let _ok = matches!(
            m,
            AppControlMode::Monitor | AppControlMode::Enforce | AppControlMode::Disabled
        );
    }
}

#[test]
fn stub_apply_policy_accepts_a_valid_signed_policy() {
    let payload = sample_payload();
    let signed = sign_payload(&payload);
    assert!(apply(&LinuxAppControlProvider::new(), &signed, payload.clone()).is_ok());
    assert!(apply(&MacAppControlProvider::new(), &signed, payload.clone()).is_ok());
    assert!(apply(&WindowsAppControlProvider::new(), &signed, payload).is_ok());
}

#[test]
fn stub_apply_policy_rejects_a_tampered_signed_policy() {
    let payload = sample_payload();
    let mut signed = sign_payload(&payload);
    signed.signature = "ff".repeat(SIGNATURE_LENGTH);
    assert!(apply(&LinuxAppControlProvider::new(), &signed, payload).is_err());
}

#[test]
fn santa_status_maps_modes_correctly() {
    let monitor = SantaStatus {
        mode: "MONITOR".into(),
    };
    let lockdown = SantaStatus {
        mode: "LOCKDOWN".into(),
    };
    let unknown = SantaStatus {
        mode: "OTHER".into(),
    };
    assert_eq!(monitor.to_app_control_mode(), AppControlMode::Monitor);
    assert_eq!(lockdown.to_app_control_mode(), AppControlMode::Enforce);
    assert_eq!(unknown.to_app_control_mode(), AppControlMode::Disabled);
}

#[test]
fn santa_rule_args_translate_known_subject_kinds() {
    let rule = AppControlRule {
        subject: "sha256:deadbeef".into(),
        allow: true,
        reason: "trusted".into(),
    };
    let args = santa_rule_args(&rule);
    assert_eq!(args[0], "rule");
    assert_eq!(args[1], "--allow");
    assert_eq!(args[2], "--sha256=deadbeef");
    assert!(args.contains(&"--message".to_string()));

    let team = AppControlRule {
        subject: "team_id:ABCD123".into(),
        allow: false,
        reason: String::new(),
    };
    let args = santa_rule_args(&team);
    assert_eq!(args[1], "--block");
    assert_eq!(args[2], "--teamid=ABCD123");

    let unknown = AppControlRule {
        subject: "bogus_kind:xyz".into(),
        allow: true,
        reason: String::new(),
    };
    let args = santa_rule_args(&unknown);
    assert_eq!(args[2], "--sha256=bogus_kind:xyz");
}

#[test]
fn santa_subjects_have_their_options() {
    let option = |subject: &str| {
        santa_rule_args(&AppControlRule {
            subject: subject.into(),
            allow: true,
            reason: String::new(),
        })[2]
            .clone()
    };
    assert_eq!(option("signingid:a:b"), "--signingid=a:b");
    assert_eq!(option("signing_id:a"), "--signingid=a");
    assert_eq!(option("cert:c"), "--certificate=c");
    assert_eq!(option("certificate:c"), "--certificate=c");
    assert_eq!(option("cdhash:c"), "--cdhash=c");
    assert_eq!(option("teamid:t"), "--teamid=t");
    assert_eq!(option("plain"), "--sha256=plain");
}

#[test]
fn santa_modes_are_read_in_any_case() {
    let status = |mode: &str| SantaStatus { mode: mode.into() };
    assert_eq!(
        status("lockdown").to_app_control_mode(),
        AppControlMode::Enforce
    );
    assert_eq!(santa_mode("lockdown"), AppControlMode::Disabled);
    assert_eq!(
        MacAppControlProvider::with_status(Some(status("Monitor"))).current_mode(),
        Ok(AppControlMode::Monitor)
    );
}

#[test]
fn policies_are_refused_for_what_is_wrong_first() {
    let signed = sign_payload(&sample_payload());
    let mut p = signed.clone();
    p.signing_key = "zz".into();
    p.signature = "zz".into();
    assert_eq!(
        verify_policy(&p).unwrap_err(),
        AppControlError::InvalidSigningKey("Invalid character 'z' at position 0".into())
    );
    let mut p = signed.clone();
    p.signing_key = "0".into();
    assert_eq!(
        verify_policy(&p).unwrap_err(),
        AppControlError::InvalidSigningKey("Odd number of digits".into())
    );
    let mut p = signed.clone();
    p.signing_key = "00".into();
    assert_eq!(
        verify_policy(&p).unwrap_err(),
        AppControlError::InvalidSigningKey("expected 32 bytes, got 1".into())
    );
    // Octets that are no point of the curve.
    let mut p = signed.clone();
    p.signing_key = format!("02{}", "00".repeat(31));
    assert!(matches!(
        verify_policy(&p).unwrap_err(),
        AppControlError::InvalidSigningKey(_)
    ));
    let mut p = signed.clone();
    p.signature = "zz".into();
    p.canonical_payload_hex = "zz".into();
    assert_eq!(
        verify_policy(&p).unwrap_err(),
        AppControlError::InvalidSignature
    );
    let mut p = signed.clone();
    p.canonical_payload_hex = "zz".into();
    assert!(matches!(
        verify_policy(&p).unwrap_err(),
        AppControlError::InvalidPayload(_)
    ));
    let mut p = signed;
    p.signing_key = p.signing_key.to_uppercase();
    assert!(verify_policy(&p).is_ok());
}

#[test]
fn pieces_settle_a_policy() {
    let key = || Ok(vec![1u8; 32]);
    let sig = || Some(vec![2u8; 64]);
    let payload = || Ok(vec![3u8]);
    assert_eq!(
        settle_policy(key(), None, sig(), payload(), true),
        Ok(vec![3])
    );
    assert_eq!(
        settle_policy(key(), None, sig(), payload(), false),
        Err(AppControlError::InvalidSignature)
    );
    assert_eq!(
        settle_policy(key(), Some("weak".into()), sig(), payload(), true),
        Err(AppControlError::InvalidSigningKey("weak".into()))
    );
    assert_eq!(
        settle_policy(key(), None, None, payload(), true),
        Err(AppControlError::InvalidSignature)
    );
    assert_eq!(
        settle_policy(key(), None, sig(), Err("bad".into()), true),
        Err(AppControlError::InvalidPayload("bad".into()))
    );
}

#[test]
fn unreadable_payloads_are_not_applied() {
    let verified = verify_policy(&sign_payload(&sample_payload())).unwrap();
    assert_eq!(
        LinuxAppControlProvider::new().apply_policy(&verified, Err("no version".into()), None),
        Err(AppControlError::InvalidPayload("no version".into()))
    );
}

/// Refuses every policy.
struct Refusing;

impl AppControlProvider for Refusing {
    fn current_mode(&self) -> Result<AppControlMode, AppControlError> {
        Ok(AppControlMode::Disabled)
    }

    fn apply_verified_policy(&self, _: &AppControlPolicyPayload) -> Result<(), AppControlError> {
        Err(AppControlError::InvalidSignature)
    }
}

#[test]
fn versions_in_force_grow() {
    let verified = verify_policy(&sign_payload(&sample_payload())).unwrap();
    let of = |version: u64| Ok(AppControlPolicyPayload { version, ..sample_payload() });
    let p = LinuxAppControlProvider::new();
    let mut versions = PolicyVersions::default();
    assert_eq!(versions.in_force(), None);
    assert_eq!(versions.apply(&p, &verified, of(3)), Ok(()));
    assert_eq!(versions.in_force(), Some(3));
    assert_eq!(
        versions.apply(&p, &verified, of(3)),
        Err(AppControlError::PolicyRegressed { applied: 3, new: 3 })
    );
    assert_eq!(
        versions.apply(&p, &verified, Err("no version".into())),
        Err(AppControlError::InvalidPayload("no version".into()))
    );
    assert_eq!(versions.apply(&Refusing, &verified, of(9)), Err(AppControlError::InvalidSignature));
    assert_eq!(versions.in_force(), Some(3));
    assert_eq!(versions.apply(&p, &verified, of(4)), Ok(()));
    assert_eq!(versions.in_force(), Some(4));
}

#[test]
fn older_policies_are_not_applied() {
    let p = LinuxAppControlProvider::new();
    let payload = sample_payload();
    let verified = verify_policy(&sign_payload(&payload)).unwrap();
    for applied in [1u64, 12] {
        assert_eq!(
            p.apply_policy(&verified, Ok(payload.clone()), Some(applied)),
            Err(AppControlError::PolicyRegressed { applied, new: 1 })
        );
    }
    assert_eq!(p.apply_policy(&verified, Ok(payload), Some(0)), Ok(()));
    assert_eq!(check_version(None, 0), Ok(()));
    assert_eq!(check_version(Some(3), 4), Ok(()));
}

#[test]
fn app_control_errors_have_their_texts() {
    assert_eq!(
        AppControlError::InvalidSignature.message(),
        "app-control policy signature invalid"
    );
    assert_eq!(
        AppControlError::InvalidSigningKey("x".into()).message(),
        "app-control signing key malformed: x"
    );
    assert_eq!(
        AppControlError::InvalidPayload("x".into()).message(),
        "app-control policy payload invalid: x"
    );
    assert_eq!(
        AppControlError::PolicyRegressed { applied: 12, new: 7 }.message(),
        "app-control policy version regressed: applied=12 new=7"
    );
    assert_eq!(
        AppControlError::NotSupported.message(),
        "app-control not supported on this platform"
    );
    assert_eq!(
        AppControlError::Backend("x".into()).message(),
        "app-control backend failed: x"
    );
}
