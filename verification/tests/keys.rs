use buffr_permissions::clock::unix_seconds;
use buffr_permissions::text::{append_decimal, parse_u32, same_text};
use buffr_permissions::{Capability, Decision, PermError};

#[test]
fn capability_storage_key_round_trip() {
    for cap in [
        Capability::Camera,
        Capability::Microphone,
        Capability::Geolocation,
        Capability::Notifications,
        Capability::Clipboard,
        Capability::Midi,
        Capability::Other(2048),
    ] {
        let key = cap.as_storage_key();
        let back = Capability::from_storage_key(&key).unwrap();
        assert_eq!(back, cap);
    }
}

#[test]
fn capability_from_unknown_string_errors() {
    let err = Capability::from_storage_key("not_a_thing").unwrap_err();
    match err {
        PermError::UnknownCapability { capability } => {
            assert_eq!(capability, "not_a_thing");
        }
        other => panic!("expected UnknownCapability, got {other:?}"),
    }
}

#[test]
fn capability_other_must_have_numeric_suffix() {
    assert!(Capability::from_storage_key("other:abc").is_err());
    assert!(Capability::from_storage_key("other:").is_err());
    assert!(Capability::from_storage_key("other:42").is_ok());
}

#[test]
fn capability_human_label_distinguishes_other() {
    assert_eq!(Capability::Camera.human_label(), "camera");
    assert!(Capability::Other(8192).human_label().contains("8192"));
}

#[test]
fn every_capability_has_its_key_and_label() {
    let named = [
        (Capability::Camera, "camera"),
        (Capability::Microphone, "microphone"),
        (Capability::Geolocation, "geolocation"),
        (Capability::Notifications, "notifications"),
        (Capability::Clipboard, "clipboard"),
        (Capability::Midi, "midi"),
    ];
    for (cap, text) in named {
        assert_eq!(cap.as_storage_key(), text);
        assert_eq!(cap.human_label(), text);
        assert_eq!(Capability::from_storage_key(text).unwrap(), cap);
    }
    assert_eq!(Capability::Other(0).as_storage_key(), "other:0");
    assert_eq!(Capability::Other(4294967295).as_storage_key(), "other:4294967295");
    assert_eq!(Capability::Other(8192).human_label(), "other (bit 8192)");
}

#[test]
fn other_keys_take_what_a_u32_takes() {
    let read = |s: &str| Capability::from_storage_key(s).ok();
    assert_eq!(read("other:4294967295"), Some(Capability::Other(4294967295)));
    assert_eq!(read("other:4294967296"), None);
    assert_eq!(read("other:99999999999999999999"), None);
    assert_eq!(read("other:007"), Some(Capability::Other(7)));
    assert_eq!(read("other:+7"), Some(Capability::Other(7)));
    assert_eq!(read("other:+"), None);
    assert_eq!(read("other:++7"), None);
    assert_eq!(read("other:-1"), None);
    assert_eq!(read("other: 7"), None);
    assert_eq!(read("other:7 "), None);
    assert_eq!(read("other:\u{0667}"), None);
    assert_eq!(read("other"), None);
    assert_eq!(read("Other:7"), None);
    assert_eq!(read(""), None);
}

#[test]
fn numbers_agree_with_the_standard_library() {
    for n in [0u32, 9, 10, 99, 100, 2048, 65535, 1_000_000_000, u32::MAX] {
        let mut out = String::from(">");
        append_decimal(&mut out, n);
        assert_eq!(out, format!(">{n}"));
        assert_eq!(parse_u32(&n.to_string()), Some(n));
    }
    for s in ["", "+", "-0", "+0", "00", "0x1", "1_0", "4294967296", "+4294967295", "\u{e9}"] {
        assert_eq!(parse_u32(s), s.parse::<u32>().ok());
    }
}

#[test]
fn texts_compare_by_content() {
    assert!(same_text("deny", "deny"));
    assert!(!same_text("deny", "den"));
    assert!(!same_text("deny", "Deny"));
}

#[test]
fn decision_texts_round_trip() {
    assert_eq!(Decision::Allow.as_str(), "allow");
    assert_eq!(Decision::Deny.as_str(), "deny");
    for d in [Decision::Allow, Decision::Deny] {
        assert_eq!(Decision::from_str(d.as_str()).unwrap(), d);
    }
    match Decision::from_str("ask").unwrap_err() {
        PermError::UnknownDecision { decision } => assert_eq!(decision, "ask"),
        other => panic!("expected UnknownDecision, got {other:?}"),
    }
}

#[test]
fn different_capabilities_differ_in_key_and_label() {
    let caps = [
        Capability::Camera,
        Capability::Microphone,
        Capability::Geolocation,
        Capability::Notifications,
        Capability::Clipboard,
        Capability::Midi,
        Capability::Other(1),
        Capability::Other(10),
    ];
    for a in caps {
        for b in caps {
            assert_eq!(a == b, a.as_storage_key() == b.as_storage_key());
            assert_eq!(a == b, a.human_label() == b.human_label());
        }
    }
}

#[test]
fn clock_readings_become_seconds() {
    assert_eq!(unix_seconds(Some(1_700_000_000)), 1_700_000_000);
    assert_eq!(unix_seconds(Some(0)), 0);
    assert_eq!(unix_seconds(None), 0);
}
