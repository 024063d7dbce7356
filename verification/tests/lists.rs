use fapt::error::Error;
use fapt::lists::{download_plan, releases, Entry, Mirror, RequestedRelease};

fn entry(url: &str, suite: &str) -> Entry {
    Entry { url: url.to_string(), suite_codename: suite.to_string() }
}

#[test]
fn names_and_urls() {
    let r = RequestedRelease {
        mirror: Mirror::parse("http://deb.debian.org/debian/").unwrap(),
        codename: "sid".to_string(),
    };
    assert_eq!(r.filesystem_safe(), "http__deb.debian.org_0_debian__sid");
    assert_eq!(r.dists().unwrap().as_str(), "http://deb.debian.org/debian/dists/sid/");
    let r = RequestedRelease {
        mirror: Mirror::parse("https://user@mirror.example:8080/a/b").unwrap(),
        codename: "stable".to_string(),
    };
    assert_eq!(r.filesystem_safe(), "https_user_mirror.example_8080_a_b_stable");
    assert_eq!(r.dists().unwrap().as_str(), "https://user@mirror.example:8080/a/dists/stable/");
}

#[test]
fn bad_urls() {
    assert_eq!(Mirror::parse("not a url").unwrap_err(), Error::BadUrl("not a url".to_string()));
    assert!(releases(&vec![entry("http://a/", "x"), entry("::", "y")]).is_err());
}

#[test]
fn releases_once_each() {
    let rs = releases(&vec![
        entry("http://a.example/debian/", "sid"),
        entry("http://b.example/debian/", "sid"),
        entry("http://a.example/debian/", "sid"),
        entry("http://a.example/debian/", "bookworm"),
    ])
    .unwrap();
    assert_eq!(rs.len(), 3);
    assert_eq!(rs[0].mirror.as_str(), "http://a.example/debian/");
    assert_eq!(rs[1].mirror.as_str(), "http://b.example/debian/");
    assert_eq!(rs[2].codename, "bookworm");
}

#[test]
fn in_release_downloads() {
    let rs = releases(&vec![
        entry("http://deb.debian.org/debian/", "sid"),
        entry("https://mirror.example:8080/ubuntu/", "noble"),
    ])
    .unwrap();
    let plan = download_plan(&rs).unwrap();
    assert_eq!(plan.len(), 2);
    assert_eq!(plan[0].0.as_str(), "http://deb.debian.org/debian/dists/sid/InRelease");
    assert_eq!(plan[0].1, "http__deb.debian.org_0_debian__sid_InRelease");
    assert_eq!(plan[1].0.as_str(), "https://mirror.example:8080/ubuntu/dists/noble/InRelease");
    assert_eq!(plan[1].1, "https__mirror.example_8080_ubuntu__noble_InRelease");
    assert_eq!(rs[0].verified_name(), "http__deb.debian.org_0_debian__sid_Verified");
    assert!(download_plan(&Vec::new()).unwrap().is_empty());
}
