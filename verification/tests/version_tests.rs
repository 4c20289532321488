use openstart::updater::{compare_versions, update_info_from_release, UpdateInfo};
use openstart::version::{compare_components, parse_u32, split_char, version_components};
use std::cmp::Ordering;

#[test]
fn compare_versions_basic() {
    assert_eq!(compare_versions("1.2.3", "1.2.3"), Ordering::Equal);
    assert_eq!(compare_versions("1.2.4", "1.2.3"), Ordering::Greater);
    assert_eq!(compare_versions("1.10.0", "1.9.9"), Ordering::Greater);
    assert_eq!(compare_versions("0.9", "1.0"), Ordering::Less);
}

#[test]
fn compare_versions_padding_and_garbage() {
    assert_eq!(compare_versions("1.0", "1"), Ordering::Equal);
    assert_eq!(compare_versions("1.0.1", "1"), Ordering::Greater);
    assert_eq!(compare_versions("1.x", "1.0"), Ordering::Equal);
    assert_eq!(compare_versions("", "0"), Ordering::Equal);
    assert_eq!(compare_versions("2.0.0-beta", "2.0.0"), Ordering::Equal);
}

#[test]
fn compare_versions_trailing_zero_component() {
    for a in ["1", "1.2", "0", "", "2.x", "10.0.3"] {
        assert_eq!(compare_versions(a, &format!("{}.0", a)), Ordering::Equal, "version {:?}", a);
    }
}

#[test]
fn compare_versions_laws_on_samples() {
    let samples = ["1.0", "1", "1.2", "1.10", "0.9.9", "2", "1.2.3.4", ""];
    for a in samples {
        assert_eq!(compare_versions(a, a), Ordering::Equal);
        for b in samples {
            assert_eq!(compare_versions(a, b), compare_versions(b, a).reverse());
            for c in samples {
                if compare_versions(a, b) != Ordering::Greater && compare_versions(b, c) != Ordering::Greater {
                    assert_ne!(compare_versions(a, c), Ordering::Greater);
                }
            }
        }
    }
}

#[test]
fn parse_u32_agrees_with_std() {
    let inputs = [
        "", "+", "-", "0", "7", "+7", "-7", "42", "007", "4294967295", "4294967296", "99999999999", "1a", " 1", "1 ",
        "++1", "+-1", "١", "12345678901234567890",
    ];
    for s in inputs {
        assert_eq!(parse_u32(s), s.parse::<u32>().ok(), "input {:?}", s);
    }
}

#[test]
fn split_char_agrees_with_std() {
    let inputs = ["", "a", "a.b", ".a.", "..", "1.2.3", "no-dot"];
    for s in inputs {
        let expected: Vec<String> = s.split('.').map(|p| p.to_string()).collect();
        assert_eq!(split_char(s, '.'), expected, "input {:?}", s);
    }
}

#[test]
fn version_components_parse() {
    assert_eq!(version_components("1.2.3"), vec![1, 2, 3]);
    assert_eq!(version_components("1..x"), vec![1, 0, 0]);
    assert_eq!(version_components(""), vec![0]);
    assert_eq!(compare_components(&[1, 0, 0], &[1]), 0);
    assert_eq!(compare_components(&[1, 0, 1], &[1]), 1);
    assert_eq!(compare_components(&[], &[0, 2]), -1);
}

#[test]
fn update_info_newer_release() {
    let info = update_info_from_release(
        "0.1.0",
        Some("v0.2.0".into()),
        Some("https://example.invalid/release".into()),
        Some("notes".into()),
    )
    .unwrap();
    assert_eq!(
        info,
        UpdateInfo {
            current_version: "0.1.0".into(),
            latest_version: "0.2.0".into(),
            update_available: true,
            download_url: "https://example.invalid/release".into(),
            release_notes: "notes".into(),
        }
    );
}

#[test]
fn update_info_defaults_and_same_version() {
    let info = update_info_from_release("1.0.0", Some("1.0".into()), None, None).unwrap();
    assert_eq!(info.latest_version, "1.0");
    assert!(!info.update_available);
    assert_eq!(info.download_url, "https://github.com/purejiang/openstart/releases");
    assert_eq!(info.release_notes, "");
    let older = update_info_from_release("1.0.0", Some("v0.9.9".into()), None, None).unwrap();
    assert!(!older.update_available);
}

#[test]
fn update_info_missing_tag() {
    assert_eq!(
        update_info_from_release("1.0.0", None, None, None),
        Err("Missing 'tag_name' in response".to_string())
    );
}
