use orange_beam::update::{newer_release, Release, UpdateCheck, Version};
use orange_beam::update_flow::{chosen, offer, published, OfferAction, ReleaseEntry, Updates};
use std::cmp::Ordering;

fn v(text: &str) -> Version {
    Version::parse(text).unwrap()
}

#[test]
fn versions_order_like_semver_with_short_forms() {
    assert_eq!(v("v1.0").cmp(&v("1.0.0")), Ordering::Equal);
    assert!(v("1.0-beta") < v("1.0-beta.2"));
    assert!(v("1.0-beta.2") < v("1.0-beta.10"), "numeric identifiers");
    assert!(v("1.0-beta.2") < v("1.0-rc.1"));
    assert!(v("1.0-rc.1") < v("1.0"));
    assert!(v("1.0") < v("1.0.1"));
    assert!(v("0.2.0") < v("1.0-beta"));
    assert!(v("1.0.0-beta.2") > v("v1.0-beta"));
    assert_eq!(
        v("v1.0-beta.2+build.5").as_str(),
        "1.0-beta.2",
        "build metadata dropped"
    );
    for bad in ["", "v", "1..0", "1.x", "1.0-", "1.0-beta..2"] {
        assert!(Version::parse(bad).is_none(), "{bad:?}");
    }
}

#[test]
fn stable_installs_ignore_betas_and_betas_see_both() {
    let releases = vec![
        Release {
            tag: "v1.0-beta".into(),
            prerelease: true,
            url: "a".into(),
        },
        Release {
            tag: "v1.0-beta.3".into(),
            prerelease: true,
            url: "b".into(),
        },
        Release {
            tag: "v0.9".into(),
            prerelease: false,
            url: "c".into(),
        },
        Release {
            tag: "not-a-version".into(),
            prerelease: false,
            url: "d".into(),
        },
    ];
    let beta = v("1.0.0-beta.2");
    assert_eq!(
        newer_release(&beta, &releases).map(|(_, r)| r.url.as_str()),
        Some("b")
    );
    assert_eq!(
        newer_release(&v("0.8"), &releases).map(|(_, r)| r.url.as_str()),
        Some("c")
    );
    assert!(
        newer_release(&v("1.0-beta.3"), &releases).is_none(),
        "already newest"
    );
    let mut with_stable = releases.clone();
    with_stable.push(Release {
        tag: "v1.0".into(),
        prerelease: false,
        url: "e".into(),
    });
    assert_eq!(
        newer_release(&beta, &with_stable).map(|(_, r)| r.url.as_str()),
        Some("e")
    );
}

#[test]
fn checks_are_due_by_interval_and_off_never_runs() {
    let week = 7 * 24 * 3600;
    assert!(!UpdateCheck::Off.is_due(None, 1_000));
    assert!(UpdateCheck::Weekly.is_due(None, 1_000), "never checked");
    assert!(!UpdateCheck::Weekly.is_due(Some(1_000), 1_000 + week - 1));
    assert!(UpdateCheck::Weekly.is_due(Some(1_000), 1_000 + week));
    assert!(UpdateCheck::Daily.is_due(Some(1_000), 1_000 + 24 * 3600));
    assert!(
        UpdateCheck::Monthly.is_due(Some(5_000), 4_000),
        "clock went backwards"
    );
    for mode in UpdateCheck::ALL {
        assert_eq!(UpdateCheck::from_key(mode.key()), Some(mode));
    }
}

fn entry(tag: Option<&str>, prerelease: bool, draft: bool, url: Option<&str>) -> ReleaseEntry {
    ReleaseEntry {
        tag: tag.map(str::to_string),
        url: url.map(str::to_string),
        draft,
        prerelease,
    }
}

#[test]
fn release_list_parsing_skips_drafts_and_incomplete_entries() {
    let releases = published(&[
        entry(Some("v1.0-beta.3"), true, false, Some("https://x/3")),
        entry(Some("v9.9"), false, true, Some("https://x/draft")),
        entry(Some("v1.0"), false, false, Some("https://x/1")),
        entry(None, false, false, Some("https://x/no-tag")),
        entry(Some("v2.0"), false, false, None),
    ]);
    assert_eq!(
        releases,
        vec![
            Release {
                tag: "v1.0-beta.3".into(),
                prerelease: true,
                url: "https://x/3".into()
            },
            Release {
                tag: "v1.0".into(),
                prerelease: false,
                url: "https://x/1".into()
            },
        ]
    );
}

#[test]
fn version_order_is_total_on_mixed_identifiers() {
    let ascending = [
        "0.9",
        "1.0-1",
        "1.0-2",
        "1.0-10",
        "1.0-alpha",
        "1.0-Beta",
        "1.0-beta.1",
        "1.0-beta.1.1",
        "1.0-beta.x",
        "1.0-rc",
        "1.0",
        "1.0.0.1",
        "1.2",
        "1.10",
    ];
    for (i, a) in ascending.iter().enumerate() {
        for (j, b) in ascending.iter().enumerate() {
            assert_eq!(v(a).cmp(&v(b)), i.cmp(&j), "{a} {b}");
            assert_eq!(v(a).partial_cmp(&v(b)), Some(i.cmp(&j)));
        }
    }
    assert_eq!(v("1.0-BETA").cmp(&v("1.0-beta")), Ordering::Equal);
    assert_eq!(v("  v1.0-99999999999999999999 ").as_str(), "1.0-99999999999999999999");
    assert!(v("1.0-99999999999999999999").is_prerelease());
    assert!(!v("1.0").is_prerelease());
    assert!(Version::parse("99999999999999999999").is_none());
}

#[test]
fn the_last_of_equal_releases_is_offered() {
    let release = |tag: &str, url: &str| Release {
        tag: tag.into(),
        prerelease: false,
        url: url.into(),
    };
    let releases = [release("v2.0", "a"), release("2.0.0", "b"), release("1.5", "c")];
    let (version, found) = newer_release(&v("1.0"), &releases).unwrap();
    assert_eq!(version.as_str(), "2.0.0");
    assert_eq!(found.url, "b");
    assert!(newer_release(&v("2.0"), &releases).is_none());
    assert!(newer_release(&v("1.0"), &[]).is_none());
}

#[test]
fn names_and_labels_of_the_update_modes() {
    let keys: Vec<_> = UpdateCheck::ALL.iter().map(|m| m.key()).collect();
    assert_eq!(keys, ["off", "daily", "weekly", "monthly"]);
    let labels: Vec<_> = UpdateCheck::ALL.iter().map(|m| m.label()).collect();
    assert_eq!(labels, ["不自动检查", "每天", "每周", "每月"]);
    assert_eq!(UpdateCheck::from_key("hourly"), None);
}

#[test]
fn scheduled_checks_run_once_a_minute_and_one_at_a_time() {
    const SECOND: i64 = 1_000_000;
    let mut updates = Updates::new(UpdateCheck::Daily, None);
    assert!(!updates.poll(0, 1_000, true), "demo");
    assert!(updates.poll(0, 1_000, false));
    assert!(!updates.poll(59 * SECOND, 1_000, false));
    assert!(updates.poll(60 * SECOND, 1_000, false));
    assert!(updates.begin());
    assert!(!updates.begin());
    let failed = updates.finish(
        Err("offline".into()),
        false,
        61 * SECOND,
        1_000,
        &v("1.0"),
    );
    assert!(failed.message.is_none() && failed.alert.is_none() && !failed.offer);
    assert!(!updates.poll(3_660 * SECOND, 1_000, false));
    assert!(updates.poll(3_661 * SECOND, 1_000, false));
    assert!(updates.begin());
    updates.abandon();
    assert!(updates.begin());
    let failed = updates.finish(Err("offline".into()), true, 0, 1_000, &v("1.0"));
    assert_eq!(
        failed.alert,
        Some(("检查更新失败".to_string(), "offline".to_string()))
    );
}

#[test]
fn a_finished_check_announces_what_it_found() {
    let releases = || {
        vec![Release {
            tag: "v1.1".into(),
            prerelease: false,
            url: "https://x/11".into(),
        }]
    };
    let mut updates = Updates::new(UpdateCheck::Weekly, Some(5));
    assert_eq!(updates.status_line(&v("1.0"), 6), "当前 1.0 · 上次检查：今天");
    assert_eq!(
        updates.status_line(&v("1.0"), 5 + 3 * 86_400),
        "当前 1.0 · 上次检查：3 天前"
    );
    assert_eq!(updates.status_line(&v("1.0"), 0), "当前 1.0 · 上次检查：今天");
    assert_eq!(
        Updates::new(UpdateCheck::Off, None).status_line(&v("v1.0"), 0),
        "当前 1.0 · 尚未检查"
    );
    let notice = updates.finish(Ok(releases()), true, 0, 70, &v("1.0"));
    assert_eq!(notice.message.unwrap(), "发现新版本 1.1，可在菜单栏中查看。");
    assert!(notice.offer && notice.alert.is_none());
    assert_eq!(updates.last_check, Some(70));
    assert_eq!(updates.available.as_ref().unwrap().url, "https://x/11");
    assert_eq!(updates.status_line(&v("1.0"), 70), "当前 1.0 · 有新版本 1.1");
    assert!(!updates.finish(Ok(releases()), false, 0, 70, &v("1.0")).offer);
    let notice = updates.finish(Ok(releases()), true, 0, 80, &v("1.1"));
    assert_eq!(notice.message.unwrap(), "已是最新版本。");
    assert_eq!(
        notice.alert,
        Some(("已是最新版本".to_string(), "当前版本 1.1。".to_string()))
    );
    assert!(updates.available.is_none());
    assert!(updates
        .finish(Ok(releases()), false, 0, 80, &v("1.1"))
        .message
        .is_none());
}

#[test]
fn offers_depend_on_how_the_app_was_installed() {
    let brew = offer("1.1", &v("1.0"), true);
    assert_eq!(brew.title, "发现新版本 1.1");
    assert_eq!(
        brew.detail,
        "当前版本 1.0。通过 Homebrew 安装的，请在终端运行：\nbrew upgrade --cask orange-beam"
    );
    assert_eq!(brew.buttons, ["复制更新命令", "查看更新内容", "稍后"]);
    assert!(matches!(chosen(0, "u", true), OfferAction::CopyCommand));
    assert!(matches!(chosen(1, "u", true), OfferAction::Open(page) if page == "u"));
    assert!(matches!(chosen(2, "u", true), OfferAction::Nothing));
    let plain = offer("1.1", &v("1.0"), false);
    assert_eq!(plain.detail, "当前版本 1.0。");
    assert_eq!(plain.buttons, ["打开下载页", "稍后"]);
    assert!(matches!(chosen(0, "u", false), OfferAction::Open(page) if page == "u"));
    assert!(
        matches!(chosen(0, "", false), OfferAction::Open(page) if page == "https://github.com/woyin/OrangeBeam/releases")
    );
    assert!(matches!(chosen(1, "u", false), OfferAction::Nothing));
}

#[test]
fn package_version_parses() {
    assert!(v("0.2.0").as_str().starts_with("0.2.0"));
}

#[test]
fn missing_numbers_count_as_zero() {
    assert!(v("1.0") == v("1.0.0"));
    assert!(v("v1") == v("1.0.0"));
    assert!(v("1.0-beta") == v("1.0.0-beta"));
    assert!(v("1.0") != v("1.0.1"));
    assert!(v("1.0-beta") != v("1.0"));
    assert_ne!(v("1.0").as_str(), v("1.0.0").as_str());
}
