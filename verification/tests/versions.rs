use pesde::manifest::target::TargetKind;
use pesde::names::{PackageName, PackageNameError};
use pesde::source::version_id::{Version, VersionId, VersionReq};
use pesde::text::replace;

#[test]
fn caret_requirement_admits_compatible_versions() {
    let req = VersionReq::parse("^1.2.0").expect("a requirement");
    assert!(req.matches(&Version::new(1, 2, 0)));
    assert!(req.matches(&Version::new(1, 3, 1)));
    assert!(!req.matches(&Version::new(2, 0, 0)));
    assert!(!req.matches(&Version::new(1, 1, 9)));
}

#[test]
fn malformed_requirement_is_refused() {
    assert!(VersionReq::parse("not a requirement").is_none());
    let req = VersionReq { text: "???".to_string() };
    assert!(!req.is_valid());
    assert!(!req.matches(&Version::new(1, 0, 0)));
}

#[test]
fn version_text_and_order() {
    assert_eq!(Version::new(1, 3, 1).text(), "1.3.1");
    assert_eq!(Version::new(0, 0, 0).text(), "0.0.0");
    assert_eq!(Version::new(10, 200, 18446744073709551615).text(), "10.200.18446744073709551615");
    assert!(Version::new(1, 2, 0).precedes(&Version::new(1, 3, 1)));
    assert!(!Version::new(1, 3, 1).precedes(&Version::new(1, 3, 1)));
    assert!(Version::new(1, 9, 9).precedes(&Version::new(2, 0, 0)));
    let id = VersionId::new(Version::new(1, 3, 1), TargetKind::Lune);
    assert_eq!(id.escaped(), "1.3.1+lune");
    assert_eq!(id.text(), "1.3.1 lune");
}

#[test]
fn package_names_are_parsed() {
    let name = PackageName::parse("scope/util").expect("a name");
    assert_eq!(name.scope, "scope");
    assert_eq!(name.name, "util");
    assert_eq!(name.escaped(), "scope+util");
    assert_eq!(name.text(), "scope/util");
    assert_eq!(PackageName::parse("scope").unwrap_err(), PackageNameError::MissingSeparator);
    assert_eq!(PackageName::parse("Scope/util").unwrap_err(), PackageNameError::InvalidScope);
    assert_eq!(PackageName::parse("/util").unwrap_err(), PackageNameError::InvalidScope);
    assert_eq!(PackageName::parse("scope/").unwrap_err(), PackageNameError::InvalidName);
    assert_eq!(PackageName::parse("scope/a/b").unwrap_err(), PackageNameError::InvalidName);
}

#[test]
fn replace_is_leftmost_and_non_overlapping() {
    assert_eq!(replace("aaa", "aa", "b"), "ba");
    assert_eq!(replace("{X}/{X}", "{X}", "y"), "y/y");
    assert_eq!(replace("abc", "", "y"), "abc");
    assert_eq!(replace("abc", "abcd", "y"), "abc");
}

#[test]
fn a_version_is_written_with_its_parts() {
    assert_eq!(Version::new(1, 2, 3).text(), "1.2.3");
    assert_eq!(Version::with_parts(1, 2, 3, "", "").text(), "1.2.3");
    assert_eq!(Version::with_parts(1, 2, 3, "", ""), Version::new(1, 2, 3));
    assert_eq!(Version::with_parts(1, 0, 0, "rc.1", "").text(), "1.0.0-rc.1");
    assert_eq!(Version::with_parts(1, 0, 0, "", "build5").text(), "1.0.0+build5");
    assert_eq!(Version::with_parts(10, 20, 30, "alpha-1.x", "001.sha").text(), "10.20.30-alpha-1.x+001.sha");
    let id = VersionId::new(Version::with_parts(1, 0, 0, "rc.1", "b"), TargetKind::Lune);
    assert_eq!(id.text(), "1.0.0-rc.1+b lune");
    assert_eq!(id.escaped(), "1.0.0-rc.1+b+lune");
    assert!(id.same_as(&id.duplicate()));
    assert!(!id.same_as(&VersionId::new(Version::with_parts(1, 0, 0, "rc.1", ""), TargetKind::Lune)));
    assert!(!id.same_as(&VersionId::new(Version::with_parts(1, 0, 0, "rc.1", "b"), TargetKind::Luau)));
}

fn parsed(text: &str) -> Version {
    let v = semver::Version::parse(text).expect("a version");
    Version::with_parts(v.major, v.minor, v.patch, v.pre.as_str(), v.build.as_str())
}

#[test]
fn versions_are_ordered_as_semver_orders_them() {
    let ordered = [
        "0.9.9", "1.0.0-alpha", "1.0.0-alpha.1", "1.0.0-alpha.beta", "1.0.0-beta", "1.0.0-beta.2",
        "1.0.0-beta.11", "1.0.0-rc.1", "1.0.0", "1.0.0+build.1", "1.0.0+build.2", "1.0.1-rc.1", "1.0.1", "1.1.0", "2.0.0-a",
        "2.0.0", "10.0.0",
    ];
    for (i, a) in ordered.iter().enumerate() {
        for (j, b) in ordered.iter().enumerate() {
            let (x, y) = (parsed(a), parsed(b));
            assert_eq!(x.precedes(&y), i < j, "{a} and {b}");
            let (sx, sy) = (semver::Version::parse(a).unwrap(), semver::Version::parse(b).unwrap());
            assert_eq!(x.precedes(&y), sx < sy, "{a} and {b}");
            assert_eq!(x.same_as(&y), i == j, "{a} and {b}");
        }
    }
    // a part that is no part of a version puts a version before none
    let odd = Version::with_parts(1, 0, 0, "not valid!", "");
    assert!(!odd.precedes(&Version::new(1, 0, 0)));
    assert!(!Version::new(1, 0, 0).precedes(&odd));
    assert!(odd.precedes(&Version::new(1, 0, 1)));
}

#[test]
fn versions_are_kept_in_one_order() {
    let ordered = ["0.9.9", "1.0.0", "1.0.0+b", "1.0.0-alpha", "1.0.0-alpha+b", "1.0.0-alpha.1", "1.0.0-beta", "1.0.1"];
    for (i, a) in ordered.iter().enumerate() {
        for (j, b) in ordered.iter().enumerate() {
            assert_eq!(parsed(a).stands_before(&parsed(b)), i < j, "{a} and {b}");
        }
    }
}

#[test]
fn requirements_see_the_whole_version() {
    let caret = VersionReq::parse("^1.2.0").expect("a requirement");
    assert!(caret.matches(&parsed("1.3.0")));
    assert!(caret.matches(&parsed("1.3.0+build.7")));
    // a pre-release is admitted only where the requirement names one of its numbers
    assert!(!caret.matches(&parsed("1.3.0-rc.1")));
    let pre = VersionReq::parse(">=1.3.0-rc.1").expect("a requirement");
    assert!(pre.matches(&parsed("1.3.0-rc.2")));
    assert!(pre.matches(&parsed("1.3.0")));
    assert!(!pre.matches(&parsed("1.3.0-alpha")));
    assert!(!pre.matches(&parsed("1.4.0-rc.1")));
    assert!(VersionReq::parse("=1.3.0-rc.1").unwrap().matches(&parsed("1.3.0-rc.1")));
    // a part that semver does not take is admitted by nothing
    assert!(!VersionReq::star().matches(&Version::with_parts(1, 0, 0, "not valid!", "")));
    assert!(VersionReq::star().matches(&Version::new(1, 0, 0)));
}
