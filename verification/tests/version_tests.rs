use walksnail_osd_tool::PreId;
use walksnail_osd_tool::Version;
use walksnail_osd_tool::should_update_to_version;

fn release(major: u64, minor: u64, patch: u64) -> Version {
    Version::release(major, minor, patch)
}

fn beta(major: u64, minor: u64, patch: u64, n: u64) -> Version {
    Version {
        major,
        minor,
        patch,
        pre: vec![PreId::Alpha(String::from("beta")), PreId::Num(n)],
    }
}

#[test]
fn update_to_new_release() {
    let current_version = release(0, 1, 0);
    let new_version = release(0, 2, 0);
    assert!(should_update_to_version(&current_version, &new_version));
}

#[test]
fn not_update_to_older_release() {
    let current_version = release(0, 2, 0);
    let new_version = release(0, 1, 0);
    assert!(!should_update_to_version(&current_version, &new_version));
}

#[test]
fn update_from_prerelease_to_full_release() {
    let current_version = beta(0, 1, 0, 2);
    let new_version = release(0, 1, 0);
    assert!(should_update_to_version(&current_version, &new_version));
}

#[test]
fn update_from_prerelease_to_new_prerelease() {
    let current_version = beta(0, 1, 0, 1);
    let new_version = beta(0, 1, 0, 3);
    assert!(should_update_to_version(&current_version, &new_version));
}

#[test]
fn not_update_from_prerelease_to_older_prerelease() {
    let current_version = beta(0, 1, 0, 3);
    let new_version = beta(0, 1, 0, 2);
    assert!(!should_update_to_version(&current_version, &new_version));
}

#[test]
fn not_update_from_prerelease_to_prerelease_in_new_cyce() {
    let current_version = beta(0, 1, 0, 3);
    let new_version = beta(0, 2, 0, 2);
    assert!(!should_update_to_version(&current_version, &new_version));
}

#[test]
fn not_update_from_release_to_prerelease_of_new_release() {
    let current_version = release(0, 1, 0);
    let new_version = beta(0, 2, 0, 2);
    assert!(!should_update_to_version(&current_version, &new_version));
}

#[test]
fn not_update_to_same_release() {
    let current_version = release(0, 1, 0);
    assert!(!should_update_to_version(&current_version, &current_version));
}

#[test]
fn precedence_orders_numeric_and_alphanumeric_identifiers() {
    // a purely numeric identifier orders before an alphanumeric one
    let num = Version { major: 1, minor: 0, patch: 0, pre: vec![PreId::Num(1)] };
    let alpha = Version {
        major: 1,
        minor: 0,
        patch: 0,
        pre: vec![PreId::Alpha(String::from("alpha"))],
    };
    assert_eq!(num.cmp_precedence(&alpha), -1);
    assert_eq!(alpha.cmp_precedence(&num), 1);
    // a prerelease orders before its release
    let rel = release(1, 0, 0);
    assert_eq!(num.cmp_precedence(&rel), -1);
    assert_eq!(rel.cmp_precedence(&num), 1);
    // a shorter tag that is a prefix orders first
    let longer = Version {
        major: 1,
        minor: 0,
        patch: 0,
        pre: vec![PreId::Num(1), PreId::Num(2)],
    };
    assert_eq!(num.cmp_precedence(&longer), -1);
    assert_eq!(rel.cmp_precedence(&rel), 0);
}
