//! The course of an update check: when one runs, what its result changes, and what
//! the user is told and offered.
use crate::measure;
use crate::text;
use crate::update::{self, newer_release, Release, UpdateCheck, Version};
use vstd::prelude::*;

verus! {

/// One entry of the release list, with the fields that it has.
#[derive(Debug)]
pub struct ReleaseEntry {
    pub tag: Option<String>,
    pub url: Option<String>,
    pub draft: bool,
    pub prerelease: bool,
}

/// The contents of a release: its tag, whether it is a pre-release, its page.
pub open spec fn release_contents(release: Release) -> (Seq<char>, bool, Seq<char>) {
    (release.tag@, release.prerelease, release.url@)
}

pub open spec fn releases_contents(releases: Seq<Release>) -> Seq<(Seq<char>, bool, Seq<char>)> {
    Seq::new(releases.len(), |i: int| release_contents(releases[i]))
}

/// The published releases of a list; drafts and entries without a tag or a page are
/// skipped.
pub open spec fn published_of(entries: Seq<ReleaseEntry>) -> Seq<(Seq<char>, bool, Seq<char>)>
    decreases entries.len(),
{
    if entries.len() == 0 {
        Seq::empty()
    } else {
        let before = published_of(entries.drop_last());
        let entry = entries.last();
        match (entry.draft, entry.tag, entry.url) {
            (false, Some(tag), Some(url)) => before.push((tag@, entry.prerelease, url@)),
            _ => before,
        }
    }
}

/// Published releases from the GitHub API response; drafts are skipped.
pub fn published(entries: &[ReleaseEntry]) -> (releases: Vec<Release>)
    ensures
        releases_contents(releases@) == published_of(entries@),
{
    let mut releases: Vec<Release> = Vec::new();
    assert(releases_contents(releases@) =~= published_of(entries@.take(0)));
    for i in 0..entries.len()
        invariant
            releases_contents(releases@) == published_of(entries@.take(i as int)),
    {
        proof {
            assert(entries@.take(i as int + 1).drop_last() =~= entries@.take(i as int));
            assert(entries@.take(i as int + 1).last() == entries@[i as int]);
        }
        let entry = &entries[i];
        let ghost before = releases@;
        if !entry.draft {
            if let (Some(tag), Some(url)) = (&entry.tag, &entry.url) {
                let release = Release {
                    tag: tag.as_str().to_owned(),
                    prerelease: entry.prerelease,
                    url: url.as_str().to_owned(),
                };
                releases.push(release);
                assert(releases_contents(releases@) =~= releases_contents(before).push(
                    release_contents(release),
                ));
            }
        }
    }
    assert(entries@.take(entries@.len() as int) =~= entries@);
    releases
}

/// Millionths of a second between two looks at the schedule.
pub const POLL_INTERVAL: i64 = 60_000_000;

/// After a failed automatic check (offline, rate limit), wait before retrying.
pub const AUTO_RETRY: i64 = 3_600_000_000;

/// A release that is newer than the app.
#[derive(Debug)]
pub struct Available {
    pub version: String,
    pub url: String,
}

/// The state of the update checks.
#[derive(Debug)]
pub struct Updates {
    pub mode: UpdateCheck,
    /// When the last check succeeded, in seconds since 1970.
    pub last_check: Option<u64>,
    /// When the schedule is looked at next.
    pub due_at: i64,
    pub checking: bool,
    pub available: Option<Available>,
}

/// What the user is told of a finished check.
#[derive(Debug)]
pub struct Notice {
    /// The line of the panel, where it changes.
    pub message: Option<String>,
    /// Title and text of an alert.
    pub alert: Option<(String, String)>,
    /// The new release is offered at once.
    pub offer: bool,
}

/// The newest release that is offered, as `newer_release` finds it.
pub open spec fn finds(current: Version, releases: Seq<Release>, found: Option<Available>) -> bool {
    match found {
        Some(found) => exists|place: int|
            #![trigger releases[place]]
            update::is_newest(current@, releases, releases.len() as int, place) && (
            update::version_of(releases[place].tag@) matches Some(version) && found.version@
                == version.text) && found.url@ == releases[place].url@,
        None => forall|place: int|
            #![trigger releases[place]]
            0 <= place < releases.len() ==> !update::offered(current@, releases[place]),
    }
}

impl Updates {
    /// The schedule is looked at now.
    pub open spec fn looks(self, now: i64, demo: bool) -> bool {
        now >= self.due_at && !demo
    }

    /// A check is due now.
    pub open spec fn check_due(self, now: i64, unix_now: u64, demo: bool) -> bool {
        self.looks(now, demo) && self.mode.due(self.last_check, unix_now)
    }

    pub open spec fn polled(self, now: i64, demo: bool) -> Self {
        if self.looks(now, demo) {
            Updates { due_at: measure::later(now, POLL_INTERVAL), ..self }
        } else {
            self
        }
    }

    pub fn new(mode: UpdateCheck, last_check: Option<u64>) -> (updates: Self)
        ensures
            updates == (Updates { mode, last_check, due_at: 0, checking: false, available: None }),
    {
        Updates { mode, last_check, due_at: 0, checking: false, available: None }
    }

    /// Scheduled check, evaluated at most once a minute. The answer says whether a
    /// check is due; a demonstration never checks.
    pub fn poll(&mut self, now: i64, unix_now: u64, demo: bool) -> (due: bool)
        ensures
            due == old(self).check_due(now, unix_now, demo),
            *final(self) == old(self).polled(now, demo),
    {
        if now < self.due_at || demo {
            return false;
        }
        self.due_at = measure::moment_after(now, POLL_INTERVAL);
        self.mode.is_due(self.last_check, unix_now)
    }

    /// Begins a check, unless one is running.
    pub fn begin(&mut self) -> (begun: bool)
        ensures
            begun == !old(self).checking,
            *final(self) == (Updates { checking: true, ..*old(self) }),
    {
        let begun = !self.checking;
        self.checking = true;
        begun
    }

    /// The check could not be started after all.
    pub fn abandon(&mut self)
        ensures
            *final(self) == (Updates { checking: false, ..*old(self) }),
    {
        self.checking = false;
    }

    /// Takes the result of a check. `manual` checks report every outcome in an
    /// alert; scheduled ones only announce a new version.
    pub fn finish(
        &mut self,
        result: Result<Vec<Release>, String>,
        manual: bool,
        now: i64,
        unix_now: u64,
        current: &Version,
    ) -> (notice: Notice)
        ensures
            final(self).mode == old(self).mode,
            !final(self).checking,
            match result {
                Err(error) => {
                    &&& *final(self) == (Updates {
                        checking: false,
                        due_at: measure::later(now, AUTO_RETRY),
                        ..*old(self)
                    })
                    &&& notice.message is None
                    &&& !notice.offer
                    &&& match notice.alert {
                        Some((title, detail)) => manual && title@ == "检查更新失败"@ && detail@
                            == error@,
                        None => !manual,
                    }
                },
                Ok(releases) => {
                    &&& final(self).due_at == old(self).due_at
                    &&& final(self).last_check == Some(unix_now)
                    &&& finds(*current, releases@, final(self).available)
                    &&& match final(self).available {
                        Some(found) => {
                            &&& notice.message matches Some(message) && message@ == "发现新版本 "@
                                + found.version@ + "，可在菜单栏中查看。"@
                            &&& notice.alert is None
                            &&& notice.offer == manual
                        },
                        None => {
                            &&& !notice.offer
                            &&& match (notice.message, notice.alert) {
                                (Some(message), Some((title, detail))) => manual && message@
                                    == "已是最新版本。"@ && title@ == "已是最新版本"@ && detail@
                                    == "当前版本 "@ + current@.text + "。"@,
                                (None, None) => !manual,
                                _ => false,
                            }
                        },
                    }
                },
            },
    {
        self.checking = false;
        let releases = match result {
            Err(error) => {
                self.due_at = measure::moment_after(now, AUTO_RETRY);
                return Notice {
                    message: None,
                    alert: if manual {
                        Some(("检查更新失败".to_owned(), error))
                    } else {
                        None
                    },
                    offer: false,
                };
            },
            Ok(releases) => releases,
        };
        self.last_check = Some(unix_now);
        match newer_release(current, releases.as_slice()) {
            Some((version, release)) => {
                let found = Available {
                    version: version.as_str().to_owned(),
                    url: release.url.as_str().to_owned(),
                };
                let mut message = "发现新版本 ".to_owned();
                message.append(found.version.as_str());
                message.append("，可在菜单栏中查看。");
                self.available = Some(found);
                Notice { message: Some(message), alert: None, offer: manual }
            },
            None => {
                self.available = None;
                if manual {
                    Notice {
                        message: Some("已是最新版本。".to_owned()),
                        alert: Some(("已是最新版本".to_owned(), current_detail(current))),
                        offer: false,
                    }
                } else {
                    Notice { message: None, alert: None, offer: false }
                }
            },
        }
    }

    /// Panel line: installed version and when the last check succeeded.
    pub fn status_line(&self, current: &Version, unix_now: u64) -> (line: String)
        ensures
            line@ == "当前 "@ + current@.text + " · "@ + (match self.available {
                Some(found) => "有新版本 "@ + found.version@,
                None => checked_text(self.last_check, unix_now),
            }),
    {
        let mut line = "当前 ".to_owned();
        line.append(current.as_str());
        line.append(" · ");
        match &self.available {
            Some(found) => {
                line.append("有新版本 ");
                line.append(found.version.as_str());
            },
            None => match self.last_check {
                None => line.append("尚未检查"),
                Some(last) => {
                    let days: u64 = if unix_now >= last {
                        (unix_now - last) / 86_400
                    } else {
                        0
                    };
                    if days == 0 {
                        line.append("上次检查：今天");
                    } else {
                        line.append("上次检查：");
                        text::push_decimal(&mut line, days);
                        line.append(" 天前");
                    }
                },
            },
        }
        assert(line@ =~= "当前 "@ + current@.text + " · "@ + (match self.available {
            Some(found) => "有新版本 "@ + found.version@,
            None => checked_text(self.last_check, unix_now),
        }));
        line
    }
}

/// Two looks at the schedule lie at least a minute apart, and after a failed check
/// an hour passes before the next.
pub proof fn scheduled_checks_are_spaced(
    updates: Updates,
    first: i64,
    second: i64,
    unix_now: u64,
    demo: bool,
)
    ensures
        updates.looks(first, demo) && second < measure::later(first, POLL_INTERVAL)
            ==> !updates.polled(first, demo).check_due(second, unix_now, demo),
        second < measure::later(first, AUTO_RETRY) ==> !(Updates {
            due_at: measure::later(first, AUTO_RETRY),
            ..updates
        }).check_due(second, unix_now, demo),
        !updates.check_due(first, unix_now, true),
{
}

/// When the last check was, in words.
pub open spec fn checked_text(last_check: Option<u64>, unix_now: u64) -> Seq<char> {
    match last_check {
        None => "尚未检查"@,
        Some(last) => {
            let days: nat = if unix_now >= last {
                ((unix_now - last) / 86_400) as nat
            } else {
                0
            };
            if days == 0 {
                "上次检查：今天"@
            } else {
                "上次检查："@ + text::decimal(days) + " 天前"@
            }
        },
    }
}

fn current_detail(current: &Version) -> (detail: String)
    ensures
        detail@ == "当前版本 "@ + current@.text + "。"@,
{
    let mut detail = "当前版本 ".to_owned();
    detail.append(current.as_str());
    detail.append("。");
    detail
}

/// The alert that offers a new release.
#[derive(Debug)]
pub struct Offer {
    pub title: String,
    pub detail: String,
    pub buttons: Vec<&'static str>,
}

/// What follows from a choice.
#[derive(Debug)]
pub enum OfferAction {
    /// Put the update command on the pasteboard.
    CopyCommand,
    /// Open a page.
    Open(String),
    Nothing,
}

/// Homebrew installs are pointed at `brew upgrade`, others at the release page.
pub fn offer(version: &str, current: &Version, homebrew: bool) -> (offer: Offer)
    ensures
        offer.title@ == "发现新版本 "@ + version@,
        offer.detail@ == "当前版本 "@ + current@.text + "。"@ + (if homebrew {
            "通过 Homebrew 安装的，请在终端运行：\nbrew upgrade --cask orange-beam"@
        } else {
            ""@
        }),
        text::views(offer.buttons@) == (if homebrew {
            seq!["复制更新命令"@, "查看更新内容"@, "稍后"@]
        } else {
            seq!["打开下载页"@, "稍后"@]
        }),
{
    let mut title = "发现新版本 ".to_owned();
    title.append(version);
    let mut detail = current_detail(current);
    let mut buttons: Vec<&'static str> = Vec::new();
    if homebrew {
        detail.append("通过 Homebrew 安装的，请在终端运行：\nbrew upgrade --cask orange-beam");
        buttons.push("复制更新命令");
        buttons.push("查看更新内容");
        buttons.push("稍后");
        assert(text::views(buttons@) =~= seq!["复制更新命令"@, "查看更新内容"@, "稍后"@]);
    } else {
        detail.append("");
        buttons.push("打开下载页");
        buttons.push("稍后");
        assert(text::views(buttons@) =~= seq!["打开下载页"@, "稍后"@]);
    }
    Offer { title, detail, buttons }
}

/// The action of a choice.
pub fn chosen(choice: usize, url: &str, homebrew: bool) -> (action: OfferAction)
    ensures
        if homebrew {
            if choice == 0 {
                action is CopyCommand
            } else if choice == 1 {
                action matches OfferAction::Open(page) && page@ == url@
            } else {
                action is Nothing
            }
        } else if choice == 0 {
            action matches OfferAction::Open(page) && page@ == (if url@.len() == 0 {
                "https://github.com/woyin/OrangeBeam/releases"@
            } else {
                url@
            })
        } else {
            action is Nothing
        },
{
    if homebrew {
        if choice == 0 {
            OfferAction::CopyCommand
        } else if choice == 1 {
            OfferAction::Open(url.to_owned())
        } else {
            OfferAction::Nothing
        }
    } else if choice == 0 {
        OfferAction::Open(
            if url.unicode_len() == 0 {
                "https://github.com/woyin/OrangeBeam/releases".to_owned()
            } else {
                url.to_owned()
            },
        )
    } else {
        OfferAction::Nothing
    }
}

/// Each entry stands for itself: one that is no draft and has a tag and a page is published
/// as it is, any other is left out, and the order of the list is kept.
pub proof fn entries_are_published_one_by_one(entries: Seq<ReleaseEntry>, entry: ReleaseEntry)
    ensures
        published_of(Seq::empty()).len() == 0,
        !entry.draft && entry.tag is Some && entry.url is Some ==> published_of(entries.push(entry))
            == published_of(entries).push(
            (entry.tag->0@, entry.prerelease, entry.url->0@),
        ),
        entry.draft || entry.tag is None || entry.url is None ==> published_of(entries.push(entry))
            == published_of(entries),
{
    assert(entries.push(entry).drop_last() =~= entries);
}

/// A check is due when a minute has passed since the last look at the schedule, an hour since
/// a failed one, and the time between two checks since the last that succeeded. Looking
/// changes nothing but the time of the next look.
pub proof fn checks_run_on_schedule(updates: Updates, now: i64, unix_now: u64)
    ensures
        updates.check_due(now, unix_now, false) <==> now >= updates.due_at && match (
            updates.mode,
            updates.last_check,
        ) {
            (UpdateCheck::Off, _) => false,
            (_, None) => true,
            (UpdateCheck::Daily, Some(last)) => unix_now < last || unix_now - last >= 86_400,
            (UpdateCheck::Weekly, Some(last)) => unix_now < last || unix_now - last >= 604_800,
            (UpdateCheck::Monthly, Some(last)) => unix_now < last || unix_now - last >= 2_592_000,
        },
        updates.polled(now, true) == updates,
        now < updates.due_at ==> updates.polled(now, false) == updates,
        updates.due_at <= now <= i64::MAX - 60_000_000 ==> updates.polled(now, false) == (Updates {
            due_at: (now + 60_000_000) as i64,
            ..updates
        }),
        now <= i64::MAX - 3_600_000_000 ==> measure::later(now, AUTO_RETRY) == now + 3_600_000_000,
{
}

/// What is found is above the installed version, and nothing that could be offered is above
/// it: a pre-release is offered to a pre-release alone.
pub proof fn the_newest_release_is_found(
    current: Version,
    releases: Seq<Release>,
    found: Option<Available>,
    place: int,
)
    requires
        finds(current, releases, found),
        0 <= place < releases.len(),
    ensures
        update::version_of(releases[place].tag@) matches Some(version) ==> (update::version_sign(
            version,
            current@,
        ) > 0 && (current@.pre.len() > 0 || !releases[place].prerelease) ==> found is Some),
        found matches Some(found) ==> exists|newest: int|
            #![trigger releases[newest]]
            0 <= newest < releases.len() && found.url@ == releases[newest].url@ && (
            update::version_of(releases[newest].tag@) matches Some(best) && found.version@
                == best.text && update::version_sign(best, current@) > 0 && (
            update::version_of(releases[place].tag@) matches Some(version) ==> (
            update::version_sign(version, current@) > 0 && (current@.pre.len() > 0
                || !releases[place].prerelease) ==> update::version_sign(version, best) <= 0)))
                && (current@.pre.len() > 0 || !releases[newest].prerelease),
{
    if let Some(found) = found {
        let newest = choose|place: int|
            #![trigger releases[place]]
            update::is_newest(current@, releases, releases.len() as int, place) && (
            update::version_of(releases[place].tag@) matches Some(version) && found.version@
                == version.text) && found.url@ == releases[place].url@;
        update::no_newer_release_is_missed(current@, releases, Some(newest), place);
        assert(releases[newest].url@ == found.url@);
    } else {
        update::no_newer_release_is_missed(current@, releases, None, place);
    }
}

/// Within a day the last check was today; after that the full days since it are told.
pub proof fn full_days_are_told(last: u64, now: u64, days: nat)
    requires
        days > 0,
        last + 86_400 * days <= now < last + 86_400 * (days + 1),
    ensures
        checked_text(Some(last), now) == "上次检查："@ + text::decimal(days) + " 天前"@,
        forall|soon: u64|
            soon < last + 86_400 ==> #[trigger] checked_text(Some(last), soon)
                == "上次检查：今天"@,
        checked_text(None, now) == "尚未检查"@,
{
    assert((now - last) / 86_400 == days);
}

} // verus!
