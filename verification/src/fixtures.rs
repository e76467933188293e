//! What the rendered fixtures must look like. Transparencies count millionths.
use crate::presentation::Effect;
use vstd::prelude::*;

verus! {

/// Rows and columns of the synthetic picture.
pub const ROWS: u32 = 5;

pub const COLUMNS: u32 = 9;

/// A tile of the synthetic picture: its corner in points, and which of the two colors
/// it has.
#[derive(Debug, Clone, Copy, PartialEq, Eq, Structural)]
pub struct Tile {
    pub x: u32,
    pub y: u32,
    pub blue: bool,
}

/// The tile at a place of the picture; the colors alternate.
pub fn tile(row: u32, column: u32) -> (tile: Tile)
    requires
        row < ROWS,
        column < COLUMNS,
    ensures
        tile == (Tile {
            x: (40 + 80 * column) as u32,
            y: (30 + 80 * row) as u32,
            blue: (row + column) % 2 == 0,
        }),
{
    Tile { x: 40 + 80 * column, y: 30 + 80 * row, blue: (row + column) % 2 == 0 }
}

/// The name of the fixture of an effect.
pub open spec fn spec_fixture_name(effect: Effect) -> Seq<char> {
    match effect {
        Effect::Spotlight => "spotlight"@,
        Effect::Laser => "laser"@,
        Effect::Magnify => "magnify"@,
        Effect::Box => "box"@,
    }
}

pub fn fixture_name(effect: Effect) -> (name: &'static str)
    ensures
        name@ == spec_fixture_name(effect),
{
    match effect {
        Effect::Spotlight => "spotlight",
        Effect::Laser => "laser",
        Effect::Magnify => "magnify",
        Effect::Box => "box",
    }
}

/// A dimmed corner round a clear center.
pub open spec fn dims(corner: i64, center: i64) -> bool {
    580_000 <= corner <= 620_000 && center <= 10_000
}

/// The transparencies that an effect must show in a corner and at the center.
pub open spec fn looks_right(effect: Effect, corner: i64, center: i64) -> bool {
    match effect {
        Effect::Spotlight => dims(corner, center),
        Effect::Laser => corner <= 10_000 && center >= 990_000,
        Effect::Magnify => center >= 990_000,
        Effect::Box => dims(corner, center),
    }
}

pub open spec fn spec_failure(effect: Effect) -> Seq<char> {
    match effect {
        Effect::Spotlight => "Spotlight transparency check failed"@,
        Effect::Laser => "Laser transparency check failed"@,
        Effect::Magnify => "Magnifier image check failed"@,
        Effect::Box => "Box transparency check failed"@,
    }
}

/// Checks the transparencies of a rendered effect.
pub fn check_effect(effect: Effect, corner: i64, center: i64) -> (checked: Result<(), &'static str>)
    ensures
        match checked {
            Ok(()) => looks_right(effect, corner, center),
            Err(message) => !looks_right(effect, corner, center) && message@ == spec_failure(
                effect,
            ),
        },
{
    let dims = 580_000 <= corner && corner <= 620_000 && center <= 10_000;
    match effect {
        Effect::Spotlight => if dims {
            Ok(())
        } else {
            Err("Spotlight transparency check failed")
        },
        Effect::Laser => if corner <= 10_000 && center >= 990_000 {
            Ok(())
        } else {
            Err("Laser transparency check failed")
        },
        Effect::Magnify => if center >= 990_000 {
            Ok(())
        } else {
            Err("Magnifier image check failed")
        },
        Effect::Box => if dims {
            Ok(())
        } else {
            Err("Box transparency check failed")
        },
    }
}

/// Checks the transparencies of the menu bar glyph: solid pool and lamp, translucent
/// cone, nothing outside.
pub fn glyph_looks_right(pool: i64, cone: i64, lamp: i64, outside: i64) -> (right: bool)
    ensures
        right == (pool >= 990_000 && lamp >= 990_000 && 300_000 <= cone < 600_000 && outside
            <= 10_000),
{
    pool >= 990_000 && lamp >= 990_000 && 300_000 <= cone && cone < 600_000 && outside <= 10_000
}

/// How many of the first `count` bytes of two pictures differ.
pub open spec fn differing_bytes(a: Seq<u8>, b: Seq<u8>, count: nat) -> nat
    decreases count,
{
    if count == 0 {
        0
    } else {
        differing_bytes(a, b, (count - 1) as nat) + if a[count - 1] != b[count - 1] {
            1nat
        } else {
            0nat
        }
    }
}

/// The length that two pictures have in common.
pub open spec fn common(a: Seq<u8>, b: Seq<u8>) -> nat {
    if a.len() <= b.len() {
        a.len()
    } else {
        b.len()
    }
}

/// Counts the bytes in which two pictures differ, as far as both reach.
pub fn differing(a: &[u8], b: &[u8]) -> (count: usize)
    ensures
        count == differing_bytes(a@, b@, common(a@, b@)),
{
    let end: usize = if a.len() <= b.len() {
        a.len()
    } else {
        b.len()
    };
    let mut count: usize = 0;
    for i in 0..end
        invariant
            end <= a@.len(),
            end <= b@.len(),
            count <= i,
            count == differing_bytes(a@, b@, i as nat),
    {
        if a[i] != b[i] {
            count = count + 1;
        }
    }
    count
}

/// No byte differs exactly when two pictures of one size are the same.
pub proof fn equal_pictures_do_not_differ(a: Seq<u8>, b: Seq<u8>)
    requires
        a.len() == b.len(),
    ensures
        differing_bytes(a, b, common(a, b)) == 0 <==> a == b,
{
    counted_differences(a, b, a.len());
    if differing_bytes(a, b, a.len()) == 0 {
        assert(a =~= b);
    }
}

proof fn counted_differences(a: Seq<u8>, b: Seq<u8>, count: nat)
    requires
        count <= a.len(),
        count <= b.len(),
    ensures
        differing_bytes(a, b, count) == 0 <==> forall|i: int| 0 <= i < count ==> a[i] == b[i],
    decreases count,
{
    if count > 0 {
        counted_differences(a, b, (count - 1) as nat);
        if forall|i: int| 0 <= i < count ==> a[i] == b[i] {
            assert(a[count - 1] == b[count - 1]);
        }
    }
}

/// A spotlight and a box dim a corner by six tenths, to within two hundredths, round a clear
/// center; a laser leaves the corner clear and covers the center; a magnifier covers the
/// center.
pub proof fn fixtures_look_like_this(corner: i64, center: i64)
    ensures
        looks_right(Effect::Spotlight, corner, center) <==> -20_000 <= corner - 600_000 <= 20_000
            && center <= 10_000,
        looks_right(Effect::Box, corner, center) <==> -20_000 <= corner - 600_000 <= 20_000
            && center <= 10_000,
        looks_right(Effect::Laser, corner, center) <==> corner <= 10_000 && center >= 990_000,
        looks_right(Effect::Magnify, corner, center) <==> center >= 990_000,
        ROWS == 5,
        COLUMNS == 9,
{
}

/// Each fixture has its name and its message.
pub proof fn fixtures_have_these_names()
    ensures
        spec_fixture_name(Effect::Spotlight) == "spotlight"@,
        spec_fixture_name(Effect::Laser) == "laser"@,
        spec_fixture_name(Effect::Magnify) == "magnify"@,
        spec_fixture_name(Effect::Box) == "box"@,
        spec_failure(Effect::Spotlight) == "Spotlight transparency check failed"@,
        spec_failure(Effect::Laser) == "Laser transparency check failed"@,
        spec_failure(Effect::Magnify) == "Magnifier image check failed"@,
        spec_failure(Effect::Box) == "Box transparency check failed"@,
{
}

/// Every byte that differs counts once, as far as both pictures reach.
pub proof fn each_differing_byte_counts_once(a: Seq<u8>, b: Seq<u8>, x: u8, y: u8)
    requires
        a.len() == b.len(),
    ensures
        common(a, b) == a.len(),
        common(a.push(x), b) == a.len() && common(a, b.push(y)) == a.len(),
        x != y ==> differing_bytes(a.push(x), b.push(y), a.len() + 1) == differing_bytes(
            a,
            b,
            a.len(),
        ) + 1,
        x == y ==> differing_bytes(a.push(x), b.push(y), a.len() + 1) == differing_bytes(
            a,
            b,
            a.len(),
        ),
        differing_bytes(a, b, 0) == 0,
{
    same_prefixes_differ_alike(a, b, a.push(x), b.push(y), a.len());
}

proof fn same_prefixes_differ_alike(
    a: Seq<u8>,
    b: Seq<u8>,
    c: Seq<u8>,
    d: Seq<u8>,
    count: nat,
)
    requires
        forall|i: int| 0 <= i < count ==> a[i] == #[trigger] c[i],
        forall|i: int| 0 <= i < count ==> b[i] == #[trigger] d[i],
    ensures
        differing_bytes(a, b, count) == differing_bytes(c, d, count),
    decreases count,
{
    if count > 0 {
        same_prefixes_differ_alike(a, b, c, d, (count - 1) as nat);
        assert(c[count - 1] == a[count - 1] && d[count - 1] == b[count - 1]);
    }
}

} // verus!
