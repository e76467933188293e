//! Update checks: version comparison, release selection and scheduling.
//! Platform-independent; the app fetches the GitHub release list itself.
use crate::order;
use crate::text;
use std::cmp::Ordering;
use vstd::prelude::*;

verus! {

/// How often the app looks for a new release. Checks only read the public
/// GitHub release list; nothing is downloaded or installed automatically.
#[derive(Debug, Clone, Copy, PartialEq, Eq, Structural)]
pub enum UpdateCheck {
    Off,
    Daily,
    Weekly,
    Monthly,
}

impl UpdateCheck {
    pub const ALL: [UpdateCheck; 4] = [
        UpdateCheck::Off,
        UpdateCheck::Daily,
        UpdateCheck::Weekly,
        UpdateCheck::Monthly,
    ];

    pub open spec fn spec_label(self) -> Seq<char> {
        match self {
            UpdateCheck::Off => "不自动检查"@,
            UpdateCheck::Daily => "每天"@,
            UpdateCheck::Weekly => "每周"@,
            UpdateCheck::Monthly => "每月"@,
        }
    }

    pub open spec fn spec_key(self) -> Seq<char> {
        match self {
            UpdateCheck::Off => "off"@,
            UpdateCheck::Daily => "daily"@,
            UpdateCheck::Weekly => "weekly"@,
            UpdateCheck::Monthly => "monthly"@,
        }
    }

    pub open spec fn named(key: Seq<char>) -> Option<Self> {
        if key == UpdateCheck::Off.spec_key() {
            Some(UpdateCheck::Off)
        } else if key == UpdateCheck::Daily.spec_key() {
            Some(UpdateCheck::Daily)
        } else if key == UpdateCheck::Weekly.spec_key() {
            Some(UpdateCheck::Weekly)
        } else if key == UpdateCheck::Monthly.spec_key() {
            Some(UpdateCheck::Monthly)
        } else {
            None
        }
    }

    /// Seconds between two scheduled checks.
    pub open spec fn interval(self) -> Option<u64> {
        match self {
            UpdateCheck::Off => None,
            UpdateCheck::Daily => Some(86_400),
            UpdateCheck::Weekly => Some(604_800),
            UpdateCheck::Monthly => Some(2_592_000),
        }
    }

    pub open spec fn due(self, last_check: Option<u64>, now: u64) -> bool {
        match (self.interval(), last_check) {
            (None, _) => false,
            (Some(_), None) => true,
            (Some(interval), Some(last)) => now < last || now - last >= interval,
        }
    }

    pub fn label(self) -> (label: &'static str)
        ensures
            label@ == self.spec_label(),
    {
        match self {
            UpdateCheck::Off => "不自动检查",
            UpdateCheck::Daily => "每天",
            UpdateCheck::Weekly => "每周",
            UpdateCheck::Monthly => "每月",
        }
    }

    pub fn key(self) -> (key: &'static str)
        ensures
            key@ == self.spec_key(),
    {
        match self {
            UpdateCheck::Off => "off",
            UpdateCheck::Daily => "daily",
            UpdateCheck::Weekly => "weekly",
            UpdateCheck::Monthly => "monthly",
        }
    }

    pub fn from_key(key: &str) -> (mode: Option<Self>)
        ensures
            mode == Self::named(key@),
    {
        if text::same(key, UpdateCheck::Off.key()) {
            Some(UpdateCheck::Off)
        } else if text::same(key, UpdateCheck::Daily.key()) {
            Some(UpdateCheck::Daily)
        } else if text::same(key, UpdateCheck::Weekly.key()) {
            Some(UpdateCheck::Weekly)
        } else if text::same(key, UpdateCheck::Monthly.key()) {
            Some(UpdateCheck::Monthly)
        } else {
            None
        }
    }

    fn interval_secs(self) -> (interval: Option<u64>)
        ensures
            interval == self.interval(),
    {
        match self {
            UpdateCheck::Off => None,
            UpdateCheck::Daily => Some(86_400),
            UpdateCheck::Weekly => Some(604_800),
            UpdateCheck::Monthly => Some(2_592_000),
        }
    }

    /// Due when never checked, or when the interval has passed. A clock that
    /// moved backwards past the last check also counts as due.
    pub fn is_due(self, last_check: Option<u64>, now: u64) -> (due: bool)
        ensures
            due == self.due(last_check, now),
    {
        match (self.interval_secs(), last_check) {
            (None, _) => false,
            (Some(_), None) => true,
            (Some(interval), Some(last)) => now < last || now - last >= interval,
        }
    }
}

/// Each mode has a name of its own, by which it is found again.
pub proof fn modes_are_found_by_their_names(mode: UpdateCheck)
    ensures
        UpdateCheck::named(mode.spec_key()) == Some(mode),
{
    reveal_strlit("off");
    reveal_strlit("daily");
    reveal_strlit("weekly");
    reveal_strlit("monthly");
    assert("off"@.len() == 3);
    assert("daily"@.len() == 5);
    assert("weekly"@.len() == 6);
    assert("monthly"@.len() == 7);
}

/// After a check the next one is not due before the interval has passed, and is
/// due from then on; without a schedule none ever is.
pub proof fn checks_keep_their_interval(mode: UpdateCheck, checked: u64, now: u64)
    requires
        checked <= now,
    ensures
        mode.due(Some(checked), now) == (mode.interval() matches Some(interval) && now - checked
            >= interval),
        !UpdateCheck::Off.due(Some(checked), now),
        mode != UpdateCheck::Off ==> mode.due(None, now),
{
}

/// One identifier of a pre-release.
#[verifier::ext_equal]
pub enum Part {
    Number(u64),
    Text(Seq<char>),
}

/// A version: its numbers, its pre-release identifiers and its text.
#[verifier::ext_equal]
pub struct Parsed {
    pub numbers: Seq<u64>,
    pub pre: Seq<Part>,
    pub text: Seq<char>,
}

/// An ASCII letter in lower case; any other character unchanged.
pub open spec fn lower(c: char) -> char {
    if 'A' <= c <= 'Z' {
        (c as u8 + 32) as char
    } else {
        c
    }
}

/// A pre-release identifier: a number, or any other text in lower case.
pub open spec fn part_of(id: Seq<char>) -> Option<Part> {
    match text::int_value(id, 10, u64::MAX as nat) {
        Ok(number) => Some(Part::Number(number as u64)),
        Err(_) => if id.len() > 0 {
            Some(Part::Text(id.map_values(|c: char| lower(c))))
        } else {
            None
        },
    }
}

/// The numbers of the dotted parts; none where a part is no number.
pub open spec fn numbers_of(ids: Seq<Seq<char>>) -> Option<Seq<u64>>
    decreases ids.len(),
{
    if ids.len() == 0 {
        Some(Seq::empty())
    } else {
        match (numbers_of(ids.drop_last()), text::int_value(ids.last(), 10, u64::MAX as nat)) {
            (Some(numbers), Ok(number)) => Some(numbers.push(number as u64)),
            _ => None,
        }
    }
}

/// The identifiers of the dotted parts; none where a part is empty.
pub open spec fn parts_of(ids: Seq<Seq<char>>) -> Option<Seq<Part>>
    decreases ids.len(),
{
    if ids.len() == 0 {
        Some(Seq::empty())
    } else {
        match (parts_of(ids.drop_last()), part_of(ids.last())) {
            (Some(parts), Some(part)) => Some(parts.push(part)),
            _ => None,
        }
    }
}

/// The text of a version without white space round it, a leading `v` and build
/// metadata.
pub open spec fn bare(text: Seq<char>) -> Seq<char> {
    let trimmed = text::trimmed(text);
    let unprefixed = if trimmed.len() > 0 && trimmed[0] == 'v' {
        trimmed.skip(1)
    } else {
        trimmed
    };
    unprefixed.take(text::find(unprefixed, '+') as int)
}

/// The version that a text writes.
pub open spec fn version_of(text: Seq<char>) -> Option<Parsed> {
    let bare = bare(text);
    let dash = text::find(bare, '-');
    let numbers = numbers_of(text::parts(bare.take(dash as int), '.'));
    let pre = if dash < bare.len() {
        parts_of(text::parts(bare.skip(dash as int + 1), '.'))
    } else {
        Some(Seq::empty())
    };
    match (numbers, pre) {
        (Some(numbers), Some(pre)) => Some(Parsed { numbers, pre, text: bare }),
        _ => None,
    }
}

#[derive(Debug, Clone, PartialEq, Eq)]
enum Ident {
    Number(u64),
    Text(Vec<char>),
}

impl View for Ident {
    type V = Part;

    closed spec fn view(&self) -> Part {
        match self {
            Ident::Number(number) => Part::Number(*number),
            Ident::Text(text) => Part::Text(text@),
        }
    }
}

spec fn idents_view(idents: Seq<Ident>) -> Seq<Part> {
    Seq::new(idents.len(), |i: int| idents[i]@)
}

/// A release version such as `1.0`, `1.0.1`, `1.0-beta` or `1.0.0-beta.2`
/// (a leading `v` is ignored). Missing numeric parts count as zero, so
/// `1.0` equals `1.0.0`; any pre-release sorts before its release.
#[derive(Debug, Clone)]
pub struct Version {
    numbers: Vec<u64>,
    pre: Vec<Ident>,
    text: String,
}

impl View for Version {
    type V = Parsed;

    closed spec fn view(&self) -> Parsed {
        Parsed { numbers: self.numbers@, pre: idents_view(self.pre@), text: self.text@ }
    }
}

fn lower_char(c: char) -> (lowered: char)
    ensures
        lowered == lower(c),
{
    if 'A' <= c && c <= 'Z' {
        (c as u8 + 32) as char
    } else {
        c
    }
}

fn parse_ident(id: &str) -> (ident: Option<Ident>)
    ensures
        match ident {
            Some(ident) => part_of(id@) == Some(ident@),
            None => part_of(id@) is None,
        },
{
    match text::parse_int(id, 10, u64::MAX) {
        Ok(number) => Some(Ident::Number(number)),
        Err(_) => {
            let chars = text::chars_of(id);
            if chars.len() == 0 {
                return None;
            }
            let mut lowered: Vec<char> = Vec::new();
            for i in 0..chars.len()
                invariant
                    lowered@.len() == i,
                    forall|j: int| 0 <= j < i ==> lowered@[j] == lower(chars@[j]),
            {
                lowered.push(lower_char(chars[i]));
            }
            assert(lowered@ =~= id@.map_values(|c: char| lower(c)));
            Some(Ident::Text(lowered))
        },
    }
}

fn parse_numbers(core: &str) -> (numbers: Option<Vec<u64>>)
    ensures
        match numbers {
            Some(numbers) => numbers_of(text::parts(core@, '.')) == Some(numbers@),
            None => numbers_of(text::parts(core@, '.')) is None,
        },
{
    let pieces = text::split(core, '.');
    let ghost all = text::views(pieces@);
    let mut numbers: Vec<u64> = Vec::new();
    for i in 0..pieces.len()
        invariant
            all == text::views(pieces@),
            all == text::parts(core@, '.'),
            numbers_of(all.take(i as int)) == Some(numbers@),
    {
        proof {
            assert(all.take(i as int + 1).drop_last() =~= all.take(i as int));
            assert(all.take(i as int + 1).last() == pieces@[i as int]@);
        }
        match text::parse_int(pieces[i], 10, u64::MAX) {
            Ok(number) => numbers.push(number),
            Err(_) => {
                proof {
                    no_numbers_stay_none(all, i as int + 1);
                }
                return None;
            },
        }
    }
    assert(all.take(pieces@.len() as int) =~= all);
    Some(numbers)
}

proof fn no_numbers_stay_none(ids: Seq<Seq<char>>, k: int)
    requires
        0 <= k <= ids.len(),
        numbers_of(ids.take(k)) is None,
    ensures
        numbers_of(ids) is None,
    decreases ids.len(),
{
    if k < ids.len() {
        assert(ids.drop_last().take(k) =~= ids.take(k));
        no_numbers_stay_none(ids.drop_last(), k);
    } else {
        assert(ids.take(k) =~= ids);
    }
}

fn parse_idents(pre: &str) -> (idents: Option<Vec<Ident>>)
    ensures
        match idents {
            Some(idents) => parts_of(text::parts(pre@, '.')) == Some(idents_view(idents@)),
            None => parts_of(text::parts(pre@, '.')) is None,
        },
{
    let pieces = text::split(pre, '.');
    let ghost all = text::views(pieces@);
    let mut idents: Vec<Ident> = Vec::new();
    assert(idents_view(idents@) =~= Seq::empty());
    for i in 0..pieces.len()
        invariant
            all == text::views(pieces@),
            all == text::parts(pre@, '.'),
            parts_of(all.take(i as int)) == Some(idents_view(idents@)),
    {
        proof {
            assert(all.take(i as int + 1).drop_last() =~= all.take(i as int));
            assert(all.take(i as int + 1).last() == pieces@[i as int]@);
        }
        let ghost before = idents@;
        match parse_ident(pieces[i]) {
            Some(ident) => {
                idents.push(ident);
                assert(idents_view(idents@) =~= idents_view(before).push(ident@));
            },
            None => {
                proof {
                    no_parts_stay_none(all, i as int + 1);
                }
                return None;
            },
        }
    }
    assert(all.take(pieces@.len() as int) =~= all);
    Some(idents)
}

proof fn no_parts_stay_none(ids: Seq<Seq<char>>, k: int)
    requires
        0 <= k <= ids.len(),
        parts_of(ids.take(k)) is None,
    ensures
        parts_of(ids) is None,
    decreases ids.len(),
{
    if k < ids.len() {
        assert(ids.drop_last().take(k) =~= ids.take(k));
        no_parts_stay_none(ids.drop_last(), k);
    } else {
        assert(ids.take(k) =~= ids);
    }
}

/// The text before the first `c`, and what follows it.
fn cut<'a>(text: &'a str, c: char) -> (pieces: (&'a str, Option<&'a str>))
    ensures
        ({
            let k = text::find(text@, c);
            &&& pieces.0@ == text@.take(k as int)
            &&& match pieces.1 {
                Some(after) => k < text@.len() && after@ == text@.skip(k as int + 1),
                None => k >= text@.len(),
            }
        }),
{
    match text::split_once(text, c) {
        Some((before, after)) => (before, Some(after)),
        None => {
            proof {
                text::find_is_in_range(text@, c);
                assert(text@.take(text@.len() as int) =~= text@);
            }
            (text, None)
        },
    }
}

impl Version {
    pub fn parse(text: &str) -> (version: Option<Self>)
        ensures
            match version {
                Some(version) => version_of(text@) == Some(version@),
                None => version_of(text@) is None,
            },
    {
        let trimmed = text::trim(text);
        let len = trimmed.unicode_len();
        let unprefixed = if len > 0 && trimmed.get_char(0) == 'v' {
            trimmed.substring_char(1, len)
        } else {
            trimmed
        };
        proof {
            let t = text::trimmed(text@);
            if t.len() > 0 && t[0] == 'v' {
                assert(unprefixed@ =~= t.skip(1));
            }
        }
        let bare = cut(unprefixed, '+').0;
        assert(bare@ == self::bare(text@));
        let (core, pre) = cut(bare, '-');
        let numbers = match parse_numbers(core) {
            Some(numbers) => numbers,
            None => {
                return None;
            },
        };
        let pre = match pre {
            None => {
                let none: Vec<Ident> = Vec::new();
                assert(idents_view(none@) =~= Seq::empty());
                none
            },
            Some(pre) => match parse_idents(pre) {
                Some(pre) => pre,
                None => {
                    return None;
                },
            },
        };
        Some(Self { numbers, pre, text: bare.to_owned() })
    }

    pub fn is_prerelease(&self) -> (prerelease: bool)
        ensures
            prerelease == (self@.pre.len() > 0),
    {
        self.pre.len() > 0
    }

    /// As written, without a leading `v`.
    pub fn as_str(&self) -> (text: &str)
        ensures
            text@ == self@.text,
    {
        self.text.as_str()
    }
}

/// The number at a place of a version; zero beyond its end.
pub open spec fn number_at(numbers: Seq<u64>, place: int) -> int {
    if 0 <= place < numbers.len() {
        numbers[place] as int
    } else {
        0
    }
}

/// How two lists of numbers compare from a place on, up to the place `width`.
pub open spec fn numbers_sign(a: Seq<u64>, b: Seq<u64>, place: int, width: int) -> int
    decreases width - place,
{
    if place >= width {
        0
    } else if number_at(a, place) != number_at(b, place) {
        order::sign(number_at(a, place), number_at(b, place))
    } else {
        numbers_sign(a, b, place + 1, width)
    }
}

/// How two identifiers compare: numbers before texts.
pub open spec fn part_sign(a: Part, b: Part) -> int {
    match (a, b) {
        (Part::Number(a), Part::Number(b)) => order::sign(a as int, b as int),
        (Part::Number(_), Part::Text(_)) => -1,
        (Part::Text(_), Part::Number(_)) => 1,
        (Part::Text(a), Part::Text(b)) => order::list_sign(order::codes(a), order::codes(b), 0),
    }
}

/// How two lists of identifiers compare from a place on; a list that ends first
/// comes first.
pub open spec fn pre_sign(a: Seq<Part>, b: Seq<Part>, place: int) -> int
    decreases a.len() - place,
{
    if place >= a.len() || place >= b.len() {
        order::sign(a.len() as int, b.len() as int)
    } else if part_sign(a[place], b[place]) != 0 {
        part_sign(a[place], b[place])
    } else {
        pre_sign(a, b, place + 1)
    }
}

/// The length of the longer of two lists.
pub open spec fn widest(a: Seq<u64>, b: Seq<u64>) -> int {
    if a.len() >= b.len() {
        a.len() as int
    } else {
        b.len() as int
    }
}

/// How two versions compare: by their numbers, then a pre-release before its
/// release, then by the pre-release identifiers.
pub open spec fn version_sign(a: Parsed, b: Parsed) -> int {
    let numbers = numbers_sign(a.numbers, b.numbers, 0, widest(a.numbers, b.numbers));
    if numbers != 0 {
        numbers
    } else if a.pre.len() == 0 || b.pre.len() == 0 {
        order::sign(b.pre.len() as int, a.pre.len() as int)
    } else {
        pre_sign(a.pre, b.pre, 0)
    }
}

/// The standard library's word for a sign.
pub open spec fn ordering(sign: int) -> Ordering {
    if sign < 0 {
        Ordering::Less
    } else if sign > 0 {
        Ordering::Greater
    } else {
        Ordering::Equal
    }
}

fn compare_idents(a: &Vec<Ident>, b: &Vec<Ident>) -> (order: i8)
    ensures
        order == pre_sign(idents_view(a@), idents_view(b@), 0),
{
    let mut place: usize = 0;
    let ghost (x, y) = (idents_view(a@), idents_view(b@));
    while place < a.len() && place < b.len()
        invariant
            x == idents_view(a@),
            y == idents_view(b@),
            place <= a@.len(),
            place <= b@.len(),
            pre_sign(x, y, place as int) == pre_sign(x, y, 0),
        decreases a.len() - place,
    {
        let order: i8 = match (&a[place], &b[place]) {
            (Ident::Number(a), Ident::Number(b)) => order::compare_numbers(*a, *b),
            (Ident::Number(_), Ident::Text(_)) => -1,
            (Ident::Text(_), Ident::Number(_)) => 1,
            (Ident::Text(a), Ident::Text(b)) => order::compare_texts(a, b),
        };
        assert(order == part_sign(x[place as int], y[place as int]));
        if order != 0 {
            return order;
        }
        place = place + 1;
    }
    order::compare_numbers(a.len() as u64, b.len() as u64)
}

fn compare_numbers(a: &Vec<u64>, b: &Vec<u64>) -> (order: i8)
    ensures
        order == numbers_sign(a@, b@, 0, widest(a@, b@)),
{
    let width: usize = if a.len() >= b.len() {
        a.len()
    } else {
        b.len()
    };
    for place in 0..width
        invariant
            width == widest(a@, b@),
            numbers_sign(a@, b@, place as int, width as int) == numbers_sign(
                a@,
                b@,
                0,
                width as int,
            ),
    {
        let x: u64 = if place < a.len() {
            a[place]
        } else {
            0
        };
        let y: u64 = if place < b.len() {
            b[place]
        } else {
            0
        };
        if x != y {
            return order::compare_numbers(x, y);
        }
    }
    0
}

impl Version {
    /// How this version compares with another.
    fn compare(&self, other: &Self) -> (order: i8)
        ensures
            order == version_sign(self@, other@),
    {
        let numbers = compare_numbers(&self.numbers, &other.numbers);
        if numbers != 0 {
            return numbers;
        }
        if self.pre.len() == 0 || other.pre.len() == 0 {
            return order::compare_numbers(other.pre.len() as u64, self.pre.len() as u64);
        }
        compare_idents(&self.pre, &other.pre)
    }

    /// The order of two versions.
    pub fn cmp(&self, other: &Self) -> (order: Ordering)
        ensures
            order == ordering(version_sign(self@, other@)),
    {
        let order = self.compare(other);
        if order < 0 {
            Ordering::Less
        } else if order > 0 {
            Ordering::Greater
        } else {
            Ordering::Equal
        }
    }
}

impl PartialEq for Version {
    fn eq(&self, other: &Self) -> (same: bool) {
        self.compare(other) == 0
    }
}

impl vstd::std_specs::cmp::PartialEqSpecImpl for Version {
    open spec fn obeys_eq_spec() -> bool {
        true
    }

    open spec fn eq_spec(&self, other: &Self) -> bool {
        version_sign(self@, other@) == 0
    }
}

impl Eq for Version {

}

impl PartialOrd for Version {
    fn partial_cmp(&self, other: &Self) -> (order: Option<Ordering>) {
        Some(self.cmp(other))
    }
}

impl vstd::std_specs::cmp::PartialOrdSpecImpl for Version {
    open spec fn obeys_partial_cmp_spec() -> bool {
        true
    }

    open spec fn partial_cmp_spec(&self, other: &Self) -> Option<Ordering> {
        Some(ordering(version_sign(self@, other@)))
    }
}

/// A published (non-draft) release from the GitHub API.
#[derive(Debug, Clone, PartialEq, Eq)]
pub struct Release {
    pub tag: String,
    pub prerelease: bool,
    pub url: String,
}

/// A release that a version may be told of: a stable one, or any for a pre-release;
/// with a tag that is a version above it.
pub open spec fn offered(current: Parsed, release: Release) -> bool {
    &&& current.pre.len() > 0 || !release.prerelease
    &&& version_of(release.tag@) matches Some(version) && version_sign(version, current) > 0
}

/// The release at `place` is the newest of the first `count` that are offered; the
/// last of several equally new ones.
pub open spec fn is_newest(
    current: Parsed,
    releases: Seq<Release>,
    count: int,
    place: int,
) -> bool {
    &&& 0 <= place < count
    &&& offered(current, releases[place])
    &&& forall|other: int|
        #![trigger releases[other]]
        0 <= other < count && offered(current, releases[other]) ==> {
            let order = version_sign(
                version_of(releases[other].tag@)->Some_0,
                version_of(releases[place].tag@)->Some_0,
            );
            order <= 0 && (other > place ==> order < 0)
        }
}

/// The newest release above `current`, if any. Stable installs are offered
/// stable releases only; a pre-release install is also offered newer betas.
pub fn newer_release<'a>(current: &Version, releases: &'a [Release]) -> (newest: Option<
    (Version, &'a Release),
>)
    ensures
        match newest {
            Some((version, release)) => exists|place: int|
                #![trigger releases@[place]]
                is_newest(current@, releases@, releases@.len() as int, place) && *release
                    == releases@[place] && version_of(release.tag@) == Some(version@),
            None => forall|place: int|
                #![trigger releases@[place]]
                0 <= place < releases@.len() ==> !offered(current@, releases@[place]),
        },
        forall|place: int|
            #![trigger releases@[place]]
            0 <= place < releases@.len() ==> (version_of(releases@[place].tag@) matches Some(version)
                ==> (version_sign(version, current@) > 0 && (current@.pre.len() > 0
                || !releases@[place].prerelease) ==> newest is Some && version_sign(
                version,
                newest->Some_0.0@,
            ) <= 0)),
{
    let mut newest: Option<(Version, usize)> = None;
    for i in 0..releases.len()
        invariant
            match newest {
                Some((version, place)) => is_newest(current@, releases@, i as int, place as int)
                    && version_of(releases@[place as int].tag@) == Some(version@),
                None => forall|place: int|
                    #![trigger releases@[place]]
                    0 <= place < i ==> !offered(current@, releases@[place]),
            },
    {
        let release = &releases[i];
        if current.is_prerelease() || !release.prerelease {
            if let Some(version) = Version::parse(release.tag.as_str()) {
                if version.compare(current) > 0 {
                    let better = match &newest {
                        Some((best, _)) => {
                            proof {
                                versions_are_totally_ordered(best@, version@, version@);
                                assert forall|other: int|
                                    #![trigger releases@[other]]
                                    0 <= other < i && offered(current@, releases@[other])
                                        && version_sign(best@, version@)
                                        <= 0 implies version_sign(
                                    version_of(releases@[other].tag@)->Some_0,
                                    version@,
                                ) <= 0 by {
                                    versions_are_totally_ordered(
                                        version_of(releases@[other].tag@)->Some_0,
                                        best@,
                                        version@,
                                    );
                                }
                            }
                            best.compare(&version) <= 0
                        },
                        None => true,
                    };
                    proof {
                        versions_are_totally_ordered(version@, version@, version@);
                    }
                    if better {
                        newest = Some((version, i));
                    }
                }
            }
        }
    }
    match newest {
        Some((version, place)) => Some((version, &releases[place])),
        None => None,
    }
}

proof fn part_order_is_antisymmetric(a: Part, b: Part)
    ensures
        -1 <= part_sign(a, b) <= 1,
        part_sign(b, a) == -part_sign(a, b),
        part_sign(a, a) == 0,
        part_sign(a, b) == 0 ==> a == b,
{
    if let Part::Text(x) = a {
        order::list_order_is_antisymmetric(order::codes(x), order::codes(x), 0);
        if let Part::Text(y) = b {
            order::list_order_is_antisymmetric(order::codes(x), order::codes(y), 0);
            if part_sign(a, b) == 0 {
                order::equal_lists_are_the_same(order::codes(x), order::codes(y), 0);
                assert(x =~= y) by {
                    assert forall|i: int| 0 <= i < x.len() implies x[i] == y[i] by {
                        assert(order::codes(x)[i] == order::codes(y)[i]);
                    }
                }
            }
        }
    }
}

proof fn part_order_is_transitive(a: Part, b: Part, c: Part)
    requires
        part_sign(a, b) <= 0,
        part_sign(b, c) <= 0,
    ensures
        part_sign(a, c) <= 0,
        part_sign(a, c) == 0 ==> part_sign(a, b) == 0 && part_sign(b, c) == 0,
{
    if a is Text && b is Text && c is Text {
        order::list_order_is_transitive(
            order::codes(a->Text_0),
            order::codes(b->Text_0),
            order::codes(c->Text_0),
            0,
        );
    }
}

proof fn pre_order_is_antisymmetric(a: Seq<Part>, b: Seq<Part>, place: int)
    requires
        0 <= place,
    ensures
        -1 <= pre_sign(a, b, place) <= 1,
        pre_sign(b, a, place) == -pre_sign(a, b, place),
        pre_sign(a, a, place) == 0,
    decreases a.len() + b.len() - place,
{
    if place < a.len() {
        part_order_is_antisymmetric(a[place], a[place]);
        if place < b.len() {
            part_order_is_antisymmetric(a[place], b[place]);
        }
    }
    if place < a.len() || place < b.len() {
        pre_order_is_antisymmetric(a, b, place + 1);
    }
}

proof fn equal_pre_releases_are_the_same(a: Seq<Part>, b: Seq<Part>, place: int)
    requires
        0 <= place,
        pre_sign(a, b, place) == 0,
        forall|i: int| 0 <= i < place ==> i < a.len() && i < b.len() && #[trigger] a[i] == b[i],
    ensures
        a == b,
    decreases a.len() - place,
{
    if place < a.len() && place < b.len() {
        part_order_is_antisymmetric(a[place], b[place]);
        equal_pre_releases_are_the_same(a, b, place + 1);
    } else {
        assert(a =~= b);
    }
}

proof fn pre_order_is_transitive(a: Seq<Part>, b: Seq<Part>, c: Seq<Part>, place: int)
    requires
        0 <= place <= a.len(),
        place <= b.len(),
        place <= c.len(),
        pre_sign(a, b, place) <= 0,
        pre_sign(b, c, place) <= 0,
    ensures
        pre_sign(a, c, place) <= 0,
        pre_sign(a, c, place) == 0 ==> pre_sign(a, b, place) == 0 && pre_sign(b, c, place) == 0,
    decreases a.len() - place,
{
    if place < a.len() && place < b.len() && place < c.len() {
        part_order_is_transitive(a[place], b[place], c[place]);
        if part_sign(a[place], b[place]) == 0 && part_sign(b[place], c[place]) == 0 {
            part_order_is_antisymmetric(a[place], b[place]);
            pre_order_is_transitive(a, b, c, place + 1);
        } else {
            part_order_is_antisymmetric(a[place], b[place]);
            part_order_is_antisymmetric(b[place], c[place]);
            part_order_is_antisymmetric(a[place], c[place]);
        }
    }
}

/// Places beyond both ends make no difference.
proof fn numbers_end_in_zeros(a: Seq<u64>, b: Seq<u64>, place: int, width: int)
    requires
        0 <= place,
        widest(a, b) <= width,
    ensures
        numbers_sign(a, b, place, width) == numbers_sign(a, b, place, widest(a, b)),
    decreases width - place,
{
    if place < width {
        numbers_end_in_zeros(a, b, place + 1, width);
    }
}

proof fn number_order_is_antisymmetric(a: Seq<u64>, b: Seq<u64>, place: int, width: int)
    ensures
        -1 <= numbers_sign(a, b, place, width) <= 1,
        numbers_sign(b, a, place, width) == -numbers_sign(a, b, place, width),
        numbers_sign(a, a, place, width) == 0,
        numbers_sign(a, b, place, width) == 0 ==> forall|i: int|
            place <= i < width ==> number_at(a, i) == number_at(b, i),
    decreases width - place,
{
    if place < width {
        number_order_is_antisymmetric(a, b, place + 1, width);
    }
}

proof fn number_order_is_transitive(
    a: Seq<u64>,
    b: Seq<u64>,
    c: Seq<u64>,
    place: int,
    width: int,
)
    requires
        numbers_sign(a, b, place, width) <= 0,
        numbers_sign(b, c, place, width) <= 0,
    ensures
        numbers_sign(a, c, place, width) <= 0,
        numbers_sign(a, c, place, width) == 0 ==> numbers_sign(a, b, place, width) == 0
            && numbers_sign(b, c, place, width) == 0,
    decreases width - place,
{
    if place < width {
        if number_at(a, place) == number_at(b, place) && number_at(b, place) == number_at(
            c,
            place,
        ) {
            number_order_is_transitive(a, b, c, place + 1, width);
        }
    }
}

/// Versions are totally ordered: every two compare one way or the other, equal ones
/// have the same numbers, apart from closing zeros, and the same pre-release, and
/// the order is transitive.
pub proof fn versions_are_totally_ordered(a: Parsed, b: Parsed, c: Parsed)
    ensures
        -1 <= version_sign(a, b) <= 1,
        version_sign(a, a) == 0,
        version_sign(b, a) == -version_sign(a, b),
        version_sign(a, b) == 0 ==> a.pre == b.pre && forall|place: int|
            0 <= place ==> number_at(a.numbers, place) == number_at(b.numbers, place),
        version_sign(a, b) <= 0 && version_sign(b, c) <= 0 ==> version_sign(a, c) <= 0,
        version_sign(a, b) <= 0 && version_sign(b, c) < 0 ==> version_sign(a, c) < 0,
        version_sign(a, b) < 0 && version_sign(b, c) <= 0 ==> version_sign(a, c) < 0,
{
    let width = a.numbers.len() + b.numbers.len() + c.numbers.len();
    numbers_end_in_zeros(a.numbers, b.numbers, 0, width as int);
    numbers_end_in_zeros(b.numbers, a.numbers, 0, width as int);
    numbers_end_in_zeros(b.numbers, c.numbers, 0, width as int);
    numbers_end_in_zeros(a.numbers, c.numbers, 0, width as int);
    numbers_end_in_zeros(a.numbers, a.numbers, 0, width as int);
    number_order_is_antisymmetric(a.numbers, b.numbers, 0, width as int);
    pre_order_is_antisymmetric(a.pre, b.pre, 0);
    if numbers_sign(a.numbers, b.numbers, 0, width as int) <= 0 && numbers_sign(
        b.numbers,
        c.numbers,
        0,
        width as int,
    ) <= 0 {
        number_order_is_transitive(a.numbers, b.numbers, c.numbers, 0, width as int);
    }
    if pre_sign(a.pre, b.pre, 0) <= 0 && pre_sign(b.pre, c.pre, 0) <= 0 {
        pre_order_is_transitive(a.pre, b.pre, c.pre, 0);
    }
    if version_sign(a, b) == 0 {
        if a.pre.len() > 0 && b.pre.len() > 0 {
            equal_pre_releases_are_the_same(a.pre, b.pre, 0);
        } else {
            assert(a.pre =~= b.pre);
        }
        assert forall|place: int| 0 <= place implies number_at(a.numbers, place) == number_at(
            b.numbers,
            place,
        ) by {}
    }
}

/// A pre-release comes before its release, and missing numbers count as zero: versions
/// that differ in closing zeros alone are equal.
pub proof fn releases_follow_their_pre_releases(a: Parsed, b: Parsed)
    requires
        forall|place: int|
            0 <= place ==> number_at(a.numbers, place) == number_at(b.numbers, place),
    ensures
        a.pre.len() > 0 && b.pre.len() == 0 ==> version_sign(a, b) < 0,
        a.pre == b.pre ==> version_sign(a, b) == 0,
{
    pre_order_is_antisymmetric(a.pre, a.pre, 0);
    same_numbers_compare_equal(a.numbers, b.numbers, 0, widest(a.numbers, b.numbers));
}

proof fn same_numbers_compare_equal(a: Seq<u64>, b: Seq<u64>, place: int, width: int)
    requires
        0 <= place,
        forall|place: int| 0 <= place ==> number_at(a, place) == number_at(b, place),
    ensures
        numbers_sign(a, b, place, width) == 0,
    decreases width - place,
{
    if place < width {
        same_numbers_compare_equal(a, b, place + 1, width);
    }
}

/// A stable version is never offered a pre-release, and nothing is offered a
/// version that is not newer.
pub proof fn stable_versions_are_offered_stable_releases(current: Parsed, release: Release)
    ensures
        current.pre.len() == 0 && release.prerelease ==> !offered(current, release),
        version_of(release.tag@) == Some(current) ==> !offered(current, release),
{
    versions_are_totally_ordered(current, current, current);
}

/// Every newer release is offered: where a tag writes a version above the current one, and
/// the release is no pre-release or the current version is one, a release is found, and
/// none of those is above the one that is found. What is found is such a release itself.
pub proof fn no_newer_release_is_missed(
    current: Parsed,
    releases: Seq<Release>,
    found: Option<int>,
    place: int,
)
    requires
        match found {
            Some(newest) => is_newest(current, releases, releases.len() as int, newest),
            None => forall|other: int|
                #![trigger releases[other]]
                0 <= other < releases.len() ==> !offered(current, releases[other]),
        },
        0 <= place < releases.len(),
    ensures
        version_of(releases[place].tag@) matches Some(version) ==> (version_sign(version, current)
            > 0 && (current.pre.len() > 0 || !releases[place].prerelease) ==> {
            &&& found is Some
            &&& version_of(releases[found->0].tag@) matches Some(newest) && version_sign(
                version,
                newest,
            ) <= 0
        }),
        found matches Some(newest) ==> {
            &&& 0 <= newest < releases.len()
            &&& current.pre.len() > 0 || !releases[newest].prerelease
            &&& version_of(releases[newest].tag@) matches Some(version) && version_sign(
                version,
                current,
            ) > 0
        },
{
}

/// Versions are compared number by number: the first place where they differ decides,
/// missing numbers counting as zero.
pub proof fn the_first_different_number_decides(a: Parsed, b: Parsed, place: int)
    requires
        0 <= place,
        forall|i: int|
            #![trigger number_at(a.numbers, i)]
            0 <= i < place ==> (if i < a.numbers.len() {
                a.numbers[i] as int
            } else {
                0
            }) == (if i < b.numbers.len() {
                b.numbers[i] as int
            } else {
                0
            }),
    ensures
        ({
            let x = if place < a.numbers.len() {
                a.numbers[place] as int
            } else {
                0
            };
            let y = if place < b.numbers.len() {
                b.numbers[place] as int
            } else {
                0
            };
            &&& x < y ==> version_sign(a, b) < 0
            &&& x > y ==> version_sign(a, b) > 0
        }),
{
    if place < a.numbers.len() || place < b.numbers.len() {
        numbers_decide_at(a.numbers, b.numbers, 0, place, widest(a.numbers, b.numbers));
    }
}

proof fn numbers_decide_at(a: Seq<u64>, b: Seq<u64>, from: int, place: int, width: int)
    requires
        0 <= from <= place < width,
        forall|i: int|
            #![trigger number_at(a, i)]
            from <= i < place ==> number_at(a, i) == number_at(b, i),
    ensures
        number_at(a, place) < number_at(b, place) ==> numbers_sign(a, b, from, width) == -1,
        number_at(a, place) > number_at(b, place) ==> numbers_sign(a, b, from, width) == 1,
    decreases place - from,
{
    if from < place {
        assert(number_at(a, from) == number_at(b, from));
        numbers_decide_at(a, b, from + 1, place, width);
    }
}

/// Pre-releases of the same numbers are compared identifier by identifier: the first that
/// differs decides, numbers by their size and before texts, texts by the codes of their
/// characters; where none differs, the one with fewer identifiers comes first.
pub proof fn the_first_different_identifier_decides(
    numbers: Seq<u64>,
    a: Parsed,
    b: Parsed,
    place: int,
)
    requires
        a.numbers == numbers,
        b.numbers == numbers,
        a.pre.len() > 0,
        b.pre.len() > 0,
        0 <= place <= a.pre.len(),
        place <= b.pre.len(),
        forall|i: int| 0 <= i < place ==> #[trigger] a.pre[i] == b.pre[i],
    ensures
        place < a.pre.len() && place < b.pre.len() ==> match (a.pre[place], b.pre[place]) {
            (Part::Number(x), Part::Number(y)) => (x < y ==> version_sign(a, b) < 0) && (x > y
                ==> version_sign(a, b) > 0),
            (Part::Number(_), Part::Text(_)) => version_sign(a, b) < 0,
            (Part::Text(_), Part::Number(_)) => version_sign(a, b) > 0,
            (Part::Text(x), Part::Text(y)) => forall|at: int|
                #![trigger x[at]]
                0 <= at < x.len() && at < y.len() && (forall|i: int|
                    0 <= i < at ==> #[trigger] x[i] == y[i]) && (x[at] as int) < y[at] as int
                    ==> version_sign(a, b) < 0,
        },
        place == a.pre.len() && a.pre.len() < b.pre.len() ==> version_sign(a, b) < 0,
        place == b.pre.len() && b.pre.len() < a.pre.len() ==> version_sign(a, b) > 0,
{
    same_numbers_compare_equal(numbers, numbers, 0, widest(numbers, numbers));
    identifiers_decide_at(a.pre, b.pre, 0, place);
    if place < a.pre.len() && place < b.pre.len() {
        if let (Part::Text(x), Part::Text(y)) = (a.pre[place], b.pre[place]) {
            assert forall|at: int|
                #![trigger x[at]]
                0 <= at < x.len() && at < y.len() && (forall|i: int|
                    0 <= i < at ==> #[trigger] x[i] == y[i]) && (x[at] as int) < y[at] as int
                implies version_sign(a, b) < 0 by {
                let (p, q) = (order::codes(x), order::codes(y));
                assert forall|i: int| 0 <= i < at implies #[trigger] p[i] == q[i] by {
                    assert(x[i] == y[i]);
                }
                order::the_first_difference_decides(p, q, at, 0);
            }
        }
    }
}

proof fn identifiers_decide_at(a: Seq<Part>, b: Seq<Part>, from: int, place: int)
    requires
        0 <= from <= place <= a.len(),
        place <= b.len(),
        forall|i: int| from <= i < place ==> #[trigger] a[i] == b[i],
    ensures
        place < a.len() && place < b.len() && part_sign(a[place], b[place]) != 0 ==> pre_sign(
            a,
            b,
            from,
        ) == part_sign(a[place], b[place]),
        place == a.len() && a.len() < b.len() ==> pre_sign(a, b, from) == -1,
        place == b.len() && b.len() < a.len() ==> pre_sign(a, b, from) == 1,
    decreases place - from,
{
    if from < place {
        assert(a[from] == b[from]);
        part_order_is_antisymmetric(a[from], b[from]);
        identifiers_decide_at(a, b, from + 1, place);
    }
}

/// A version reads as it is written: decimal numbers with a point between each two, and
/// behind a hyphen the identifiers of a pre-release.
pub proof fn versions_read_as_written(numbers: Seq<u64>, ids: Seq<Seq<char>>, i: int)
    requires
        numbers.len() > 0,
        forall|k: int|
            0 <= k < ids.len() ==> (#[trigger] ids[k]).len() > 0 && !ids[k].contains('.')
                && !ids[k].contains('+') && !text::is_space(ids[k].last()) && text::int_value(
                ids[k],
                10,
                u64::MAX as nat,
            ) is Err,
        0 <= i < ids.len(),
    ensures
        ({
            let core = text::joined(decimals(numbers), seq!['.']);
            let pre = text::joined(ids, seq!['.']);
            &&& version_of(core) matches Some(version) && version.numbers == numbers
                && version.pre.len() == 0 && version.text == core
            &&& version_of(core + seq!['-'] + pre) matches Some(version) && version.numbers
                == numbers && version.pre.len() == ids.len() && version.text == core + seq!['-']
                + pre && version.pre[i] is Text && version.pre[i]->Text_0.len() == ids[i].len()
        }),
{
    let core = text::joined(decimals(numbers), seq!['.']);
    let pre = text::joined(ids, seq!['.']);
    let all = decimals(numbers);
    decimals_are_plain(numbers);
    joined_keeps_out(all, seq!['.'], '+');
    joined_keeps_out(all, seq!['.'], '-');
    joined_ends(all, seq!['.']);
    joined_ends(ids, seq!['.']);
    assert forall|k: int| 0 <= k < ids.len() implies !(#[trigger] ids[k]).contains('+') by {}
    joined_keeps_out(ids, seq!['.'], '+');
    assert(all[0].contains(all[0][0]));
    let d = choose|d: nat| d < 10 && all[0][0] == text::digit_char(d);
    text::decimal_has_digits(numbers[0] as nat);
    text::digit_chars_are_digits(d);
    digits_are_not_letters(d);
    let last = all[all.len() - 1];
    text::decimal_has_digits(numbers[numbers.len() - 1] as nat);
    let e = choose|e: nat| e < 10 && last[last.len() - 1] == text::digit_char(e);
    text::digit_chars_are_digits(e);
    text::trimmed_stays(core);
    nothing_is_cut(core, '+');
    assert(bare(core) == core);
    nothing_is_cut(core, '-');
    text::joined_texts_split_again(all, '.');
    numbers_read_back(numbers);
    let whole = core + seq!['-'] + pre;
    assert(whole[0] == core[0]);
    assert(whole.last() == pre.last());
    text::trimmed_stays(whole);
    assert(!whole.contains('+')) by {
        if whole.contains('+') {
            let k = choose|k: int| 0 <= k < whole.len() && whole[k] == '+';
            if k < core.len() {
                assert(core[k] == '+');
            } else if k > core.len() {
                assert(pre[k - core.len() - 1] == '+');
            }
        }
    }
    nothing_is_cut(whole, '+');
    assert(bare(whole) == whole);
    text::parts_begin(core, '-', pre);
    text::joined_texts_split_again(ids, '.');
    identifiers_read_back(ids, i);
}

/// The decimal texts of some numbers.
pub open spec fn decimals(numbers: Seq<u64>) -> Seq<Seq<char>> {
    Seq::new(numbers.len(), |i: int| text::decimal(numbers[i] as nat))
}

proof fn digits_are_not_letters(d: nat)
    requires
        d < 10,
    ensures
        text::digit_char(d) != 'v',
{
    reveal_strlit("0123456789abcdef");
}

proof fn nothing_is_cut(s: Seq<char>, c: char)
    requires
        !s.contains(c),
    ensures
        text::find(s, c) == s.len(),
        s.take(s.len() as int) == s,
{
    assert forall|i: int| 0 <= i < s.len() implies #[trigger] s[i] != c by {
        assert(s.contains(s[i]));
    }
    text::find_is_the_first(s, c, s.len());
    assert(s.take(s.len() as int) =~= s);
}

proof fn decimals_are_plain(numbers: Seq<u64>)
    ensures
        forall|k: int|
            0 <= k < numbers.len() ==> (#[trigger] decimals(numbers)[k]).len() > 0
                && !decimals(numbers)[k].contains('.') && !decimals(numbers)[k].contains('+')
                && !decimals(numbers)[k].contains('-') && !text::is_space(
                decimals(numbers)[k].last(),
            ),
{
    assert forall|k: int| 0 <= k < numbers.len() implies (#[trigger] decimals(numbers)[k]).len() > 0
        && !decimals(numbers)[k].contains('.') && !decimals(numbers)[k].contains('+')
        && !decimals(numbers)[k].contains('-') && !text::is_space(decimals(numbers)[k].last()) by {
        let s = text::decimal(numbers[k] as nat);
        text::decimal_has_digits(numbers[k] as nat);
        assert forall|i: int| 0 <= i < s.len() implies #[trigger] s[i] != '.' && s[i] != '+' && s[i]
            != '-' && !text::is_space(s[i]) by {
            let d = choose|d: nat| d < 10 && s[i] == text::digit_char(d);
            text::digit_chars_are_digits(d);
        }
        assert(!text::is_space(s[s.len() - 1]));
    }
}

proof fn joined_keeps_out(texts: Seq<Seq<char>>, separator: Seq<char>, c: char)
    requires
        forall|i: int| 0 <= i < texts.len() ==> !(#[trigger] texts[i]).contains(c),
        !separator.contains(c),
    ensures
        !text::joined(texts, separator).contains(c),
    decreases texts.len(),
{
    let whole = text::joined(texts, separator);
    if texts.len() > 1 {
        let rest = texts.skip(1);
        assert forall|i: int| 0 <= i < rest.len() implies !(#[trigger] rest[i]).contains(c) by {
            assert(rest[i] == texts[i + 1]);
        }
        joined_keeps_out(rest, separator, c);
        let tail = text::joined(rest, separator);
        if whole.contains(c) {
            let k = choose|k: int| 0 <= k < whole.len() && whole[k] == c;
            if k < texts[0].len() {
                assert(texts[0][k] == c);
            } else if k < texts[0].len() + separator.len() {
                assert(separator[k - texts[0].len()] == c);
            } else {
                assert(tail[k - texts[0].len() - separator.len()] == c);
            }
        }
    }
}

proof fn joined_ends(texts: Seq<Seq<char>>, separator: Seq<char>)
    requires
        texts.len() > 0,
        forall|i: int| 0 <= i < texts.len() ==> (#[trigger] texts[i]).len() > 0,
    ensures
        text::joined(texts, separator).len() > 0,
        text::joined(texts, separator)[0] == texts[0][0],
        text::joined(texts, separator).last() == texts.last().last(),
    decreases texts.len(),
{
    if texts.len() > 1 {
        let rest = texts.skip(1);
        assert forall|i: int| 0 <= i < rest.len() implies (#[trigger] rest[i]).len() > 0 by {
            assert(rest[i] == texts[i + 1]);
        }
        joined_ends(rest, separator);
        assert(rest.last() == texts.last());
        assert(texts[0].len() > 0);
    }
}

proof fn numbers_read_back(numbers: Seq<u64>)
    ensures
        numbers_of(decimals(numbers)) == Some(numbers),
    decreases numbers.len(),
{
    let all = decimals(numbers);
    if numbers.len() > 0 {
        let front = numbers.drop_last();
        numbers_read_back(front);
        assert(all.drop_last() =~= decimals(front));
        text::decimal_reads_back(numbers.last() as nat, u64::MAX as nat);
        assert(front.push(numbers.last()) =~= numbers);
    } else {
        assert(numbers =~= Seq::empty());
    }
}

proof fn identifiers_read_back(ids: Seq<Seq<char>>, i: int)
    requires
        forall|k: int|
            0 <= k < ids.len() ==> (#[trigger] ids[k]).len() > 0 && text::int_value(
                ids[k],
                10,
                u64::MAX as nat,
            ) is Err,
        0 <= i < ids.len(),
    ensures
        parts_of(ids) matches Some(parts) && parts.len() == ids.len() && parts[i] == Part::Text(
            ids[i].map_values(|c: char| lower(c)),
        ),
    decreases ids.len(),
{
    let front = ids.drop_last();
    assert forall|k: int| 0 <= k < front.len() implies (#[trigger] front[k]).len() > 0
        && text::int_value(front[k], 10, u64::MAX as nat) is Err by {
        assert(front[k] == ids[k]);
    }
    assert(ids[ids.len() - 1].len() > 0);
    if front.len() > 0 {
        identifiers_read_back(front, 0);
        if i < front.len() {
            identifiers_read_back(front, i);
        }
    }
}

/// Letters are compared without regard to case, and numbers by their value.
pub proof fn identifiers_disregard_case(id: Seq<char>, other: Seq<char>, number: nat)
    requires
        id.len() == other.len(),
        forall|i: int|
            0 <= i < id.len() ==> #[trigger] other[i] == id[i] || ('A' <= id[i] <= 'Z' && other[i] as u32
                == id[i] as u32 + 32),
        text::int_value(id, 10, u64::MAX as nat) is Err,
        text::int_value(other, 10, u64::MAX as nat) is Err,
        number <= u64::MAX,
    ensures
        part_of(id) == part_of(other),
        id.len() > 0 ==> part_of(id) is Some && part_of(id)->0 is Text
            && part_of(id)->0->Text_0.len() == id.len(),
        forall|i: int|
            0 <= i < id.len() ==> #[trigger] part_of(id)->0->Text_0[i] as u32 == (if 'A' <= id[i]
                && id[i] <= 'Z' {
                id[i] as u32 + 32
            } else {
                id[i] as int
            }),
        part_of(text::decimal(number)) == Some(Part::Number(number as u64)),
        part_of(Seq::empty()) is None,
{
    text::decimal_reads_back(number, u64::MAX as nat);
    assert(id.map_values(|c: char| lower(c)) =~= other.map_values(|c: char| lower(c)));
}

/// White space round a version, a `v` before it and what follows a plus sign do not count.
pub proof fn prefixes_and_build_data_do_not_count(
    version: Seq<char>,
    build: Seq<char>,
    padded: Seq<char>,
)
    requires
        version.len() > 0,
        !text::is_space(version[0]),
        !text::is_space(version.last()),
        version[0] != 'v',
        !version.contains('+'),
        build.len() > 0 ==> !text::is_space(build.last()),
        text::trimmed(padded) == version,
    ensures
        version_of(seq!['v'] + version) == version_of(version),
        version_of(version + seq!['+'] + build) == version_of(version),
        version_of(padded) == version_of(version),
        bare(version) == version,
{
    text::trimmed_stays(version);
    nothing_is_cut(version, '+');
    let prefixed = seq!['v'] + version;
    assert(prefixed[0] == 'v');
    assert(prefixed.last() == version.last());
    text::trimmed_stays(prefixed);
    assert(prefixed.skip(1) =~= version);
    assert(bare(prefixed) == version);
    let built = version + seq!['+'] + build;
    assert(built[0] == version[0]);
    if build.len() > 0 {
        assert(built.last() == build.last());
    } else {
        assert(built.last() == '+');
    }
    text::trimmed_stays(built);
    text::parts_begin(version, '+', build);
    assert(bare(built) == version);
    assert(bare(padded) == version);
}

/// A day, a week and a month of thirty days lie between two scheduled checks: one that never
/// was is due, one is due again when that time has passed or the clock went back, and
/// without a schedule none is.
pub proof fn checks_are_due_after_these_times(last: u64, now: u64)
    ensures
        UpdateCheck::Daily.due(Some(last), now) <==> now < last || now - last >= 86_400,
        UpdateCheck::Weekly.due(Some(last), now) <==> now < last || now - last >= 7 * 86_400,
        UpdateCheck::Monthly.due(Some(last), now) <==> now < last || now - last >= 30 * 86_400,
        !UpdateCheck::Off.due(Some(last), now) && !UpdateCheck::Off.due(None, now),
        UpdateCheck::Daily.due(None, now) && UpdateCheck::Weekly.due(None, now)
            && UpdateCheck::Monthly.due(None, now),
{
}

/// The schedules have these names.
pub proof fn schedules_have_these_names(key: Seq<char>)
    ensures
        UpdateCheck::named(key) == Some(UpdateCheck::Off) <==> key == "off"@,
        UpdateCheck::named(key) == Some(UpdateCheck::Daily) <==> key == "daily"@,
        UpdateCheck::named(key) == Some(UpdateCheck::Weekly) <==> key == "weekly"@,
        UpdateCheck::named(key) == Some(UpdateCheck::Monthly) <==> key == "monthly"@,
{
    modes_are_found_by_their_names(UpdateCheck::Off);
    modes_are_found_by_their_names(UpdateCheck::Daily);
    modes_are_found_by_their_names(UpdateCheck::Weekly);
    modes_are_found_by_their_names(UpdateCheck::Monthly);
}

} // verus!
