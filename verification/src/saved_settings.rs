//! Saved settings read back: parsing undoes serializing.
use crate::measure::Number;
use crate::presentation;
use crate::settings::{self, HoldAction, ScreenReminder, Values};
use crate::text::{self, IntError};
use vstd::prelude::*;

verus! {

/// Settings as the panel sets them: usable, with the radius in whole points and the
/// shade in hundredths.
pub open spec fn storable(values: Values) -> bool {
    &&& settings::usable(values)
    &&& values.radius % 1_000_000 == 0
    &&& values.shade % 10_000 == 0
}

/// Text without white space.
spec fn plain(s: Seq<char>) -> bool {
    forall|i: int| 0 <= i < s.len() ==> !text::is_space(#[trigger] s[i])
}

proof fn plain_parts_make_a_plain_whole(a: Seq<char>, b: Seq<char>)
    requires
        plain(a),
        plain(b),
    ensures
        plain(a + b),
{
    let s = a + b;
    assert forall|i: int| 0 <= i < s.len() implies !text::is_space(#[trigger] s[i]) by {
        if i < a.len() {
            assert(s[i] == a[i]);
        } else {
            assert(s[i] == b[i - a.len()]);
        }
    }
}

proof fn plain_text_is_trimmed(s: Seq<char>)
    requires
        plain(s),
    ensures
        text::trimmed(s) == s,
        !s.contains('\n'),
        s.len() > 0 ==> s.last() != '\r',
{
    if s.len() > 0 {
        assert(!text::is_space(s[0]));
        assert(!text::is_space(s[s.len() - 1]));
    }
    text::trimmed_stays(s);
}

proof fn decimals_are_plain(value: nat)
    ensures
        plain(text::decimal(value)),
        !text::decimal(value).contains(','),
        text::decimal(value).len() > 0,
{
    let s = text::decimal(value);
    text::decimal_has_digits(value);
    assert forall|i: int| 0 <= i < s.len() implies !text::is_space(#[trigger] s[i]) && s[i]
        != ',' by {
        let d = choose|d: nat| d < 10 && s[i] == text::digit_char(d);
        text::digit_chars_are_digits(d);
    }
}

proof fn joined_plain_texts_are_plain(texts: Seq<Seq<char>>)
    requires
        forall|i: int| 0 <= i < texts.len() ==> plain(#[trigger] texts[i]),
    ensures
        plain(text::joined(texts, ","@)),
    decreases texts.len(),
{
    reveal_strlit(",");
    if texts.len() > 1 {
        let rest = texts.skip(1);
        assert forall|i: int| 0 <= i < rest.len() implies plain(#[trigger] rest[i]) by {
            assert(rest[i] == texts[i + 1]);
        }
        joined_plain_texts_are_plain(rest);
        plain_parts_make_a_plain_whole(texts[0], ","@);
        plain_parts_make_a_plain_whole(texts[0] + ","@, text::joined(rest, ","@));
    }
}

proof fn names_are_plain(slot: int, action: HoldAction, mode: ScreenReminder)
    ensures
        plain(settings::effect_key(slot)),
        !settings::effect_key(slot).contains(','),
        settings::effect_key(slot).len() > 0,
        plain(action.spec_key()),
        plain(mode.spec_key()),
{
    reveal_strlit("spotlight");
    reveal_strlit("laser");
    reveal_strlit("magnify");
    reveal_strlit("box");
    reveal_strlit("none");
    reveal_strlit("play-from-current");
    reveal_strlit("black-screen");
    reveal_strlit("end-show");
    reveal_strlit("off");
    reveal_strlit("on-vibration-failure");
    reveal_strlit("always");
}

/// The names of two effects differ.
proof fn effects_have_their_own_names(a: int, b: int)
    requires
        0 <= a < 4,
        0 <= b < 4,
        settings::effect_key(a) == settings::effect_key(b),
    ensures
        a == b,
{
    reveal_strlit("spotlight");
    reveal_strlit("laser");
    reveal_strlit("magnify");
    reveal_strlit("box");
    assert("spotlight"@.len() == 9);
    assert("laser"@.len() == 5);
    assert("magnify"@.len() == 7);
    assert("box"@.len() == 3);
}

proof fn selection_lists_the_selected(cycle: Seq<bool>, from: int, slot: int)
    requires
        cycle.len() == 4,
        0 <= from <= 4,
        0 <= slot < 4,
    ensures
        settings::selected_from(cycle, from).contains(settings::effect_key(slot)) == (from <= slot
            && cycle[slot]),
        forall|i: int|
            0 <= i < settings::selected_from(cycle, from).len() ==> plain(
                #[trigger] settings::selected_from(cycle, from)[i],
            ) && !settings::selected_from(cycle, from)[i].contains(','),
    decreases 4 - from,
{
    let all = settings::selected_from(cycle, from);
    if from < 4 {
        let rest = settings::selected_from(cycle, from + 1);
        selection_lists_the_selected(cycle, from + 1, slot);
        names_are_plain(from, HoldAction::Nothing, ScreenReminder::Off);
        if cycle[from] {
            assert(all[0] == settings::effect_key(from));
            assert forall|i: int| 0 <= i < all.len() implies plain(#[trigger] all[i])
                && !all[i].contains(',') by {
                if i > 0 {
                    assert(all[i] == rest[i - 1]);
                }
            }
            if from == slot {
                assert(all.contains(settings::effect_key(slot)));
            } else if rest.contains(settings::effect_key(slot)) {
                let i = choose|i: int|
                    0 <= i < rest.len() && rest[i] == settings::effect_key(slot);
                assert(all[i + 1] == rest[i]);
            } else {
                assert forall|i: int| 0 <= i < all.len() implies #[trigger] all[i]
                    != settings::effect_key(slot) by {
                    if i == 0 {
                        if all[0] == settings::effect_key(slot) {
                            effects_have_their_own_names(from, slot);
                        }
                    } else {
                        assert(all[i] == rest[i - 1]);
                    }
                }
            }
        }
    } else {
        assert(all =~= Seq::empty());
    }
}

/// The cycle reads back.
proof fn the_cycle_reads_back(cycle: Seq<bool>)
    requires
        cycle.len() == 4,
    ensures
        settings::cycle_of(text::joined(settings::selected_from(cycle, 0), ","@)) == cycle,
        plain(text::joined(settings::selected_from(cycle, 0), ","@)),
        !settings::names_nothing(text::joined(settings::selected_from(cycle, 0), ","@)),
{
    let names = settings::selected_from(cycle, 0);
    let value = text::joined(names, ","@);
    reveal_strlit(",");
    assert(","@ =~= seq![',']);
    selection_lists_the_selected(cycle, 0, 0);
    joined_plain_texts_are_plain(names);
    assert forall|slot: int| 0 <= slot < 4 implies settings::lists(value, slot) == cycle[slot] by {
        let key = settings::effect_key(slot);
        let found = text::parts(value, ',');
        selection_lists_the_selected(cycle, 0, slot);
        names_are_plain(slot, HoldAction::Nothing, ScreenReminder::Off);
        if names.len() == 0 {
            assert(value =~= Seq::empty());
            text::parts_of_one(value, ',');
            plain_text_is_trimmed(value);
            assert(found[0] == value);
        } else {
            text::joined_texts_split_again(names, ',');
            assert forall|i: int| 0 <= i < found.len() implies text::trimmed(#[trigger] found[i])
                == names[i] by {
                plain_text_is_trimmed(names[i]);
            }
            if cycle[slot] {
                let i = choose|i: int| 0 <= i < names.len() && names[i] == key;
                assert(text::trimmed(found[i]) == key);
            }
        }
    }
    assert(settings::cycle_of(value) =~= cycle);
    if settings::names_nothing(value) {
        assert(forall|slot: int| 0 <= slot < 4 ==> settings::lists(value, slot) == cycle[slot]);
        assert(!cycle[0] && !cycle[1] && !cycle[2] && !cycle[3]);
        reveal_with_fuel(settings::selected_from, 5);
        assert(names =~= Seq::empty());
    }
}

/// The timers read back.
proof fn the_timers_read_back(timers: Seq<Option<u32>>)
    requires
        timers.len() == 3,
        forall|slot: int|
            0 <= slot < 3 ==> (#[trigger] timers[slot] matches Some(minutes) ==> 1 <= minutes
                <= settings::MAX_TIMER_MINUTES),
    ensures
        settings::timers_of(text::joined(settings::timer_texts(timers), ","@)) == timers,
        plain(text::joined(settings::timer_texts(timers), ","@)),
{
    let texts = settings::timer_texts(timers);
    let value = text::joined(texts, ","@);
    reveal_strlit(",");
    assert(","@ =~= seq![',']);
    assert forall|i: int| 0 <= i < texts.len() implies plain(#[trigger] texts[i])
        && !texts[i].contains(',') && settings::minutes_of(texts[i]) == Ok::<
        Option<u32>,
        Seq<char>,
    >(timers[i]) by {
        if let Some(minutes) = timers[i] {
            decimals_are_plain(minutes as nat);
            plain_text_is_trimmed(texts[i]);
            text::decimal_reads_back(minutes as nat, u32::MAX as nat);
        } else {
            assert(texts[i] =~= Seq::empty());
            plain_text_is_trimmed(texts[i]);
        }
    }
    joined_plain_texts_are_plain(texts);
    text::joined_texts_split_again(texts, ',');
    assert(settings::timers_of(value) =~= timers);
}

/// The two decimal places of the shade are plain text.
proof fn two_places_are_plain(hundredths: nat)
    ensures
        plain(settings::two_places(hundredths)),
{
    decimals_are_plain(hundredths / 100);
    text::digit_chars_are_digits(hundredths / 10 % 10);
    text::digit_chars_are_digits(hundredths % 10);
    let tail = seq![
        '.',
        text::digit_char(hundredths / 10 % 10),
        text::digit_char(hundredths % 10),
    ];
    assert(plain(tail));
    plain_parts_make_a_plain_whole(text::decimal(hundredths / 100), tail);
}

/// A zoom level is plain text.
proof fn levels_are_plain(zoom: u64)
    requires
        settings::is_zoom_level(zoom),
    ensures
        plain(settings::shortest(zoom)),
{
    let whole = text::decimal((zoom / 1_000_000) as nat);
    decimals_are_plain((zoom / 1_000_000) as nat);
    if zoom == 1_500_000 {
        let tail = settings::places(500_000, 1_000_000);
        assert(settings::places(0, 100_000) =~= Seq::empty());
        text::digit_chars_are_digits(5);
        assert(tail =~= seq![text::digit_char(5)]);
        plain_parts_make_a_plain_whole(whole, seq!['.']);
        plain_parts_make_a_plain_whole(whole + seq!['.'], tail);
    }
}

/// Whole numbers read back.
proof fn whole_numbers_read_back(whole: nat)
    requires
        whole <= 999_999_999,
    ensures
        settings::plain_number(text::decimal(whole)) == Some(
            Number::Finite((whole * 1_000_000) as i64),
        ),
{
    let s = text::decimal(whole);
    no_point(whole);
    text::find_is_the_first(s, '.', s.len());
    assert(s.take(s.len() as int) =~= s);
    text::decimal_reads_back(whole, 999_999_999);
}

/// The decimal text of a whole number has no point.
proof fn no_point(whole: nat)
    ensures
        forall|i: int|
            0 <= i < text::decimal(whole).len() ==> #[trigger] text::decimal(whole)[i] != '.',
{
    let s = text::decimal(whole);
    text::decimal_has_digits(whole);
    assert forall|i: int| 0 <= i < s.len() implies #[trigger] s[i] != '.' by {
        let d = choose|d: nat| d < 10 && s[i] == text::digit_char(d);
        text::digit_chars_are_digits(d);
    }
}

/// The parts of a decimal text around its point.
proof fn a_point_divides(whole: nat, places: Seq<char>)
    requires
        whole <= 999_999_999,
    ensures
        ({
            let s = text::decimal(whole) + seq!['.'] + places;
            let k = text::find(s, '.');
            &&& k < s.len()
            &&& text::int_value(s.take(k as int), 10, 999_999_999) == Ok::<nat, IntError>(whole)
            &&& s.skip(k as int + 1) == places
        }),
{
    let first = text::decimal(whole);
    let s = first + seq!['.'] + places;
    no_point(whole);
    assert forall|i: int| 0 <= i < first.len() implies #[trigger] s[i] != '.' by {
        assert(s[i] == first[i]);
    }
    text::find_is_the_first(s, '.', first.len());
    assert(s.take(first.len() as int) =~= first);
    assert(s.skip(first.len() as int + 1) =~= places);
    text::decimal_reads_back(whole, 999_999_999);
}

/// Hundredths read back.
proof fn two_places_read_back(hundredths: nat)
    requires
        hundredths <= 100,
    ensures
        settings::plain_number(settings::two_places(hundredths)) == Some(
            Number::Finite((hundredths * 10_000) as i64),
        ),
{
    let (tens, ones) = (hundredths / 10 % 10, hundredths % 10);
    let places = seq![text::digit_char(tens), text::digit_char(ones)];
    let whole = hundredths / 100;
    a_point_divides(whole, places);
    assert(settings::two_places(hundredths) =~= text::decimal(whole) + seq!['.'] + places);
    text::digit_chars_are_digits(tens);
    text::digit_chars_are_digits(ones);
    assert(places.drop_last() =~= seq![text::digit_char(tens)]);
    assert(seq![text::digit_char(tens)].drop_last() =~= Seq::<char>::empty());
    assert(text::digits_value(Seq::<char>::empty(), 10, 999_999) == Ok::<nat, IntError>(0));
    assert(text::digits_value(seq![text::digit_char(tens)], 10, 999_999) == Ok::<nat, IntError>(
        tens,
    ));
    assert(text::digits_value(places, 10, 999_999) == Ok::<nat, IntError>(tens * 10 + ones));
    assert(text::int_value(places, 10, 999_999) == Ok::<nat, IntError>(tens * 10 + ones));
    assert(whole * 100 + tens * 10 + ones == hundredths);
}

/// Zoom levels read back.
proof fn levels_read_back(zoom: u64)
    requires
        settings::is_zoom_level(zoom),
    ensures
        settings::plain_number(settings::shortest(zoom)) == Some(Number::Finite(zoom as i64)),
{
    let whole = (zoom / 1_000_000) as nat;
    if zoom == 1_500_000 {
        let places = settings::places(500_000, 1_000_000);
        assert(settings::places(0, 100_000) =~= Seq::empty());
        assert(places =~= seq![text::digit_char(5)]);
        text::digit_chars_are_digits(5);
        a_point_divides(1, places);
        assert(places.drop_last() =~= Seq::<char>::empty());
        assert(text::digits_value(Seq::<char>::empty(), 10, 999_999) == Ok::<nat, IntError>(0));
        assert(text::digits_value(places, 10, 999_999) == Ok::<nat, IntError>(5));
        assert(places[0] == text::digit_char(5));
        assert(text::int_value(places, 10, 999_999) == Ok::<nat, IntError>(5));
        assert(whole == 1 && zoom % 1_000_000 == 500_000);
        let s = settings::shortest(zoom);
        assert(s == text::decimal(1) + seq!['.'] + places);
        assert(s.skip(text::find(s, '.') as int + 1) == places);
        assert(settings::place_unit(1) == 100_000);
        assert(settings::plain_number(s) == Some(Number::Finite(1_500_000)));
    } else {
        assert(zoom == whole * 1_000_000 && zoom % 1_000_000 == 0);
        assert(settings::shortest(zoom) == text::decimal(whole));
        whole_numbers_read_back(whole);
    }
}

/// A line of the file is one entry.
proof fn an_entry_is_read(before: Values, key: Seq<char>, value: Seq<char>, answer: Option<Number>)
    requires
        plain(key),
        plain(value),
        !key.contains('='),
    ensures
        plain(settings::entry(key, value)),
        settings::with_line(before, settings::entry(key, value), answer) == settings::with_entry(
            before,
            key,
            value,
            answer,
        ),
{
    text::parts_begin(key, '=', value);
    plain_text_is_trimmed(key);
    plain_text_is_trimmed(value);
    plain_parts_make_a_plain_whole(key, seq!['=']);
    plain_parts_make_a_plain_whole(key + seq!['='], value);
}

/// The keys of the file are plain and differ.
proof fn keys_are_distinct()
    ensures
        forall|key: Seq<char>|
            key == "cycle"@ || key == "next-hold"@ || key == "back-hold"@ || key == "timers"@ || key
                == "radius"@ || key == "shade"@ || key == "zoom"@ || key == "screen-reminder"@
                ==> #[trigger] plain(key) && !key.contains('='),
        "next-hold"@ != "cycle"@,
        "back-hold"@ != "cycle"@,
        "back-hold"@ != "next-hold"@,
        "timers"@.len() == 6,
        "radius"@.len() == 6,
        "radius"@ != "timers"@,
        "shade"@.len() == 5,
        "shade"@ != "cycle"@,
        "cycle"@.len() == 5,
        "next-hold"@.len() == 9,
        "back-hold"@.len() == 9,
        "zoom"@.len() == 4,
        "screen-reminder"@.len() == 15,
{
    reveal_strlit("cycle");
    reveal_strlit("next-hold");
    reveal_strlit("back-hold");
    reveal_strlit("timers");
    reveal_strlit("radius");
    reveal_strlit("shade");
    reveal_strlit("zoom");
    reveal_strlit("screen-reminder");
    assert("next-hold"@[0] == 'n');
    assert("back-hold"@[0] == 'b');
    assert("timers"@[0] == 't');
    assert("radius"@[0] == 'r');
    assert("shade"@[0] == 's');
    assert("cycle"@[0] == 'c');
}

/// Invalid values keep the defaults: a list that names no effect, an unknown name and
/// a text that is no number change nothing, what is not finite gives the default size,
/// and a list without a valid timer sets none, as by default.
pub proof fn invalid_values_keep_the_defaults(
    before: Values,
    value: Seq<char>,
    answer: Option<Number>,
)
    ensures
        settings::names_nothing(value) ==> settings::with_entry(before, "cycle"@, value, answer)
            == before,
        HoldAction::named(value) is None ==> settings::with_entry(
            before,
            "next-hold"@,
            value,
            answer,
        ) == before && settings::with_entry(before, "back-hold"@, value, answer) == before,
        ScreenReminder::named(value) is None ==> settings::with_entry(
            before,
            "screen-reminder"@,
            value,
            answer,
        ) == before,
        settings::number_of(value, answer) is None ==> settings::with_entry(
            before,
            "shade"@,
            value,
            answer,
        ) == before && settings::with_entry(before, "zoom"@, value, answer) == before
            && settings::with_entry(before, "radius"@, value, answer) == before,
        settings::number_of(value, answer) == Some(Number::NotFinite) ==> {
            &&& settings::with_entry(before, "shade"@, value, answer).shade
                == settings::default_values().shade
            &&& settings::with_entry(before, "zoom"@, value, answer) == before
            &&& settings::with_entry(before, "radius"@, value, answer).radius
                == settings::default_values().radius
        },
        (forall|slot: int| 0 <= slot < 3 ==> #[trigger] settings::timer_of(value, slot) is None)
            ==> settings::with_entry(before, "timers"@, value, answer).timers
            == settings::default_values().timers,
{
    keys_are_distinct();
    if forall|slot: int| 0 <= slot < 3 ==> #[trigger] settings::timer_of(value, slot) is None {
        assert(settings::timers_of(value) =~= settings::default_values().timers);
    }
}

/// The lists that are written are taken over.
proof fn lists_are_taken_over(before: Values, values: Values, answer: Option<Number>)
    requires
        storable(values),
    ensures
        plain(settings::entries(values)[0]),
        settings::with_line(before, settings::entries(values)[0], answer) == (Values {
            cycle: values.cycle,
            ..before
        }),
        plain(settings::entries(values)[3]),
        settings::with_line(before, settings::entries(values)[3], answer) == (Values {
            timers: values.timers,
            ..before
        }),
{
    let cycle = text::joined(settings::selected_from(values.cycle, 0), ","@);
    let timers = text::joined(settings::timer_texts(values.timers), ","@);
    the_cycle_reads_back(values.cycle);
    the_timers_read_back(values.timers);
    keys_are_distinct();
    assert(plain("cycle"@));
    an_entry_is_read(before, "cycle"@, cycle, answer);
    assert(plain("timers"@));
    an_entry_is_read(before, "timers"@, timers, answer);
}

/// The names that are written are taken over.
proof fn names_are_taken_over(before: Values, values: Values, answer: Option<Number>)
    requires
        storable(values),
    ensures
        plain(settings::entries(values)[1]),
        settings::with_line(before, settings::entries(values)[1], answer) == (Values {
            next_hold: values.next_hold,
            ..before
        }),
        plain(settings::entries(values)[2]),
        settings::with_line(before, settings::entries(values)[2], answer) == (Values {
            back_hold: values.back_hold,
            ..before
        }),
        plain(settings::entries(values)[7]),
        settings::with_line(before, settings::entries(values)[7], answer) == (Values {
            screen_reminder: values.screen_reminder,
            ..before
        }),
{
    names_are_plain(0, values.next_hold, values.screen_reminder);
    names_are_plain(0, values.back_hold, values.screen_reminder);
    settings::keys_name_their_values(values.next_hold, values.screen_reminder);
    settings::keys_name_their_values(values.back_hold, values.screen_reminder);
    keys_are_distinct();
    assert(plain("next-hold"@));
    an_entry_is_read(before, "next-hold"@, values.next_hold.spec_key(), answer);
    assert(plain("back-hold"@));
    an_entry_is_read(before, "back-hold"@, values.back_hold.spec_key(), answer);
    assert(plain("screen-reminder"@));
    an_entry_is_read(before, "screen-reminder"@, values.screen_reminder.spec_key(), answer);
}

/// The numbers that are written are taken over.
proof fn numbers_are_taken_over(before: Values, values: Values, answer: Option<Number>)
    requires
        storable(values),
    ensures
        plain(settings::entries(values)[4]),
        settings::with_line(before, settings::entries(values)[4], answer) == (Values {
            radius: values.radius,
            ..before
        }),
        plain(settings::entries(values)[5]),
        settings::with_line(before, settings::entries(values)[5], answer) == (Values {
            shade: values.shade,
            ..before
        }),
        plain(settings::entries(values)[6]),
        settings::with_line(before, settings::entries(values)[6], answer) == (Values {
            zoom: values.zoom,
            ..before
        }),
{
    let radius = text::decimal(settings::rounded(values.radius));
    let hundredths = settings::hundredths(values.shade);
    let shade = settings::two_places(hundredths);
    let zoom = settings::shortest(values.zoom);
    decimals_are_plain(settings::rounded(values.radius));
    two_places_are_plain(hundredths);
    levels_are_plain(values.zoom);
    whole_numbers_read_back(settings::rounded(values.radius));
    two_places_read_back(hundredths);
    levels_read_back(values.zoom);
    assert(settings::plain_number(radius) == Some(Number::Finite(values.radius as i64)));
    assert(settings::plain_number(shade) == Some(Number::Finite(values.shade as i64)));
    keys_are_distinct();
    assert(plain("radius"@));
    an_entry_is_read(before, "radius"@, radius, answer);
    assert(plain("shade"@));
    an_entry_is_read(before, "shade"@, shade, answer);
    assert(plain("zoom"@));
    an_entry_is_read(before, "zoom"@, zoom, answer);
}

/// The entries are the lines of the file.
proof fn entries_are_lines(values: Values)
    requires
        storable(values),
    ensures
        text::lines_of(text::terminated(settings::entries(values))) == settings::entries(values),
{
    let lines = settings::entries(values);
    let v0 = settings::default_values();
    assert(plain(lines[0]) && plain(lines[3])) by {
        lists_are_taken_over(v0, values, None);
    }
    assert(plain(lines[1]) && plain(lines[2]) && plain(lines[7])) by {
        names_are_taken_over(v0, values, None);
    }
    assert(plain(lines[4]) && plain(lines[5]) && plain(lines[6])) by {
        numbers_are_taken_over(v0, values, None);
    }
    assert forall|i: int| 0 <= i < lines.len() implies !(#[trigger] lines[i]).contains('\n') && (
    lines[i].len() > 0 ==> lines[i].last() != '\r') by {
        assert(plain(lines[i]));
        plain_text_is_trimmed(lines[i]);
    }
    text::terminated_lines_read_back(lines);
}

/// Lines that lead from one state to the next lead to the last one.
proof fn lines_lead_on(
    lines: Seq<Seq<char>>,
    answers: Seq<Option<Number>>,
    states: Seq<Values>,
)
    requires
        answers.len() == lines.len(),
        states.len() == lines.len() + 1,
        states[0] == settings::default_values(),
        forall|k: int|
            0 <= k < lines.len() ==> states[k + 1] == #[trigger] settings::with_line(
                states[k],
                lines[k],
                answers[k],
            ),
    ensures
        settings::with_lines(lines, answers) == states.last(),
    decreases lines.len(),
{
    if lines.len() > 0 {
        let (front, given, earlier) = (lines.drop_last(), answers.drop_last(), states.drop_last());
        assert forall|k: int| 0 <= k < front.len() implies earlier[k + 1]
            == #[trigger] settings::with_line(earlier[k], front[k], given[k]) by {
            assert(states[k + 1] == settings::with_line(states[k], lines[k], answers[k]));
        }
        lines_lead_on(front, given, earlier);
        let k = lines.len() - 1;
        assert(states[k + 1] == settings::with_line(states[k], lines[k], answers[k]));
    }
}

/// Saving and loading keeps the settings: `parse` of what `serialize` wrote gives the
/// same values, whatever reads other numbers.
pub proof fn saved_settings_read_back(values: Values, answers: Seq<Option<Number>>)
    requires
        storable(values),
        answers.len() == text::lines_of(text::terminated(settings::entries(values))).len(),
    ensures
        settings::with_lines(
            text::lines_of(text::terminated(settings::entries(values))),
            answers,
        ) == values,
{
    let lines = settings::entries(values);
    entries_are_lines(values);
    let v0 = settings::default_values();
    let v1 = Values { cycle: values.cycle, ..v0 };
    let v2 = Values { next_hold: values.next_hold, ..v1 };
    let v3 = Values { back_hold: values.back_hold, ..v2 };
    let v4 = Values { timers: values.timers, ..v3 };
    let v5 = Values { radius: values.radius, ..v4 };
    let v6 = Values { shade: values.shade, ..v5 };
    let v7 = Values { zoom: values.zoom, ..v6 };
    let v8 = Values { screen_reminder: values.screen_reminder, ..v7 };
    assert(settings::with_line(v0, lines[0], answers[0]) == v1) by {
        lists_are_taken_over(v0, values, answers[0]);
    }
    assert(settings::with_line(v1, lines[1], answers[1]) == v2) by {
        names_are_taken_over(v1, values, answers[1]);
    }
    assert(settings::with_line(v2, lines[2], answers[2]) == v3) by {
        names_are_taken_over(v2, values, answers[2]);
    }
    assert(settings::with_line(v3, lines[3], answers[3]) == v4) by {
        lists_are_taken_over(v3, values, answers[3]);
    }
    assert(settings::with_line(v4, lines[4], answers[4]) == v5) by {
        numbers_are_taken_over(v4, values, answers[4]);
    }
    assert(settings::with_line(v5, lines[5], answers[5]) == v6) by {
        numbers_are_taken_over(v5, values, answers[5]);
    }
    assert(settings::with_line(v6, lines[6], answers[6]) == v7) by {
        numbers_are_taken_over(v6, values, answers[6]);
    }
    assert(settings::with_line(v7, lines[7], answers[7]) == v8) by {
        names_are_taken_over(v7, values, answers[7]);
    }
    lines_lead_on(lines, answers, seq![v0, v1, v2, v3, v4, v5, v6, v7, v8]);
    assert(v8 =~= values);
}

/// A line is a key and a value with the first equals sign between them and white space
/// round them left out; a line without that sign changes nothing.
pub proof fn a_line_is_a_key_and_a_value(
    before: Values,
    key: Seq<char>,
    value: Seq<char>,
    answer: Option<Number>,
)
    requires
        !key.contains('='),
    ensures
        settings::with_line(before, key + seq!['='] + value, answer) == settings::with_entry(
            before,
            text::trimmed(key),
            text::trimmed(value),
            answer,
        ),
        settings::with_line(before, key, answer) == before,
{
    text::parts_begin(key, '=', value);
    assert forall|i: int| 0 <= i < key.len() implies #[trigger] key[i] != '=' by {
        assert(key.contains(key[i]));
    }
    text::find_is_the_first(key, '=', key.len());
}

/// Later lines stand over earlier ones, and a file without lines gives the settings of a
/// fresh installation.
pub proof fn later_lines_stand_over_earlier_ones(
    lines: Seq<Seq<char>>,
    answers: Seq<Option<Number>>,
    line: Seq<char>,
    answer: Option<Number>,
)
    requires
        answers.len() == lines.len(),
    ensures
        settings::with_lines(Seq::empty(), Seq::empty()) == settings::default_values(),
        settings::with_lines(lines.push(line), answers.push(answer)) == settings::with_line(
            settings::with_lines(lines, answers),
            line,
            answer,
        ),
{
    assert(lines.push(line).drop_last() =~= lines);
    assert(answers.push(answer).drop_last() =~= answers);
}

/// A finite number sets its own measure and no other: a radius from 40 to 500 points, a
/// shade from two to nine tenths, and one of the four zoom levels that none is nearer to
/// than it; what lies beyond a range is brought to its end.
pub proof fn numbers_set_their_own_measure(
    before: Values,
    value: Seq<char>,
    answer: Option<Number>,
    number: i64,
)
    requires
        settings::number_of(value, answer) == Some(Number::Finite(number)),
    ensures
        ({
            let after = settings::with_entry(before, "radius"@, value, answer);
            &&& after == (Values { radius: after.radius, ..before })
            &&& number <= 40_000_000 ==> after.radius == 40_000_000
            &&& 40_000_000 <= number <= 500_000_000 ==> after.radius == number
            &&& number >= 500_000_000 ==> after.radius == 500_000_000
        }),
        ({
            let after = settings::with_entry(before, "shade"@, value, answer);
            &&& after == (Values { shade: after.shade, ..before })
            &&& number <= 200_000 ==> after.shade == 200_000
            &&& 200_000 <= number <= 900_000 ==> after.shade == number
            &&& number >= 900_000 ==> after.shade == 900_000
        }),
        ({
            let after = settings::with_entry(before, "zoom"@, value, answer);
            &&& after == (Values { zoom: after.zoom, ..before })
            &&& number <= 1_750_000 ==> after.zoom == 1_500_000
            &&& 1_750_000 < number <= 2_500_000 ==> after.zoom == 2_000_000
            &&& 2_500_000 < number <= 3_500_000 ==> after.zoom == 3_000_000
            &&& 3_500_000 < number ==> after.zoom == 4_000_000
        }),
{
    keys_are_distinct();
}

/// A name sets its own choice and no other, and an unknown key sets nothing.
pub proof fn names_set_their_own_choice(
    before: Values,
    key: Seq<char>,
    value: Seq<char>,
    answer: Option<Number>,
)
    ensures
        HoldAction::named(value) matches Some(action) ==> settings::with_entry(
            before,
            "next-hold"@,
            value,
            answer,
        ) == (Values { next_hold: action, ..before }) && settings::with_entry(
            before,
            "back-hold"@,
            value,
            answer,
        ) == (Values { back_hold: action, ..before }),
        ScreenReminder::named(value) matches Some(mode) ==> settings::with_entry(
            before,
            "screen-reminder"@,
            value,
            answer,
        ) == (Values { screen_reminder: mode, ..before }),
        key != "cycle"@ && key != "next-hold"@ && key != "back-hold"@ && key != "timers"@ && key
            != "screen-reminder"@ && key != "shade"@ && key != "zoom"@ && key != "radius"@
            ==> settings::with_entry(before, key, value, answer) == before,
{
    keys_are_distinct();
}

/// A list of effects selects those that one of its items names, and no others; one that
/// names none is passed over, unless it is empty.
pub proof fn listed_effects_are_selected(
    before: Values,
    items: Seq<Seq<char>>,
    answer: Option<Number>,
    at: int,
)
    requires
        items.len() > 0,
        forall|i: int| 0 <= i < items.len() ==> !(#[trigger] items[i]).contains(','),
        0 <= at < items.len(),
    ensures
        ({
            let value = text::joined(items, seq![',']);
            let item = text::trimmed(items[at]);
            let after = settings::with_entry(before, "cycle"@, value, answer);
            &&& after == (Values { cycle: after.cycle, ..before })
            &&& item == "spotlight"@ ==> after.cycle[0]
            &&& item == "laser"@ ==> after.cycle[1]
            &&& item == "magnify"@ ==> after.cycle[2]
            &&& item == "box"@ ==> after.cycle[3]
            &&& item == "spotlight"@ || item == "laser"@ || item == "magnify"@ || item == "box"@
                ==> after.cycle.len() == 4 && {
                &&& (forall|i: int|
                    0 <= i < items.len() ==> text::trimmed(#[trigger] items[i]) != "spotlight"@)
                    ==> !after.cycle[0]
                &&& (forall|i: int|
                    0 <= i < items.len() ==> text::trimmed(#[trigger] items[i]) != "laser"@)
                    ==> !after.cycle[1]
                &&& (forall|i: int|
                    0 <= i < items.len() ==> text::trimmed(#[trigger] items[i]) != "magnify"@)
                    ==> !after.cycle[2]
                &&& (forall|i: int|
                    0 <= i < items.len() ==> text::trimmed(#[trigger] items[i]) != "box"@)
                    ==> !after.cycle[3]
            }
        }),
        settings::with_entry(before, "cycle"@, Seq::empty(), answer).cycle == seq![
            false,
            false,
            false,
            false,
        ],
{
    let value = text::joined(items, seq![',']);
    text::joined_texts_split_again(items, ',');
    let parts = text::parts(value, ',');
    assert(text::trimmed(parts[at]) == text::trimmed(items[at]));
    let item = text::trimmed(items[at]);
    assert(item == "spotlight"@ ==> settings::lists(value, 0));
    assert(item == "laser"@ ==> settings::lists(value, 1));
    assert(item == "magnify"@ ==> settings::lists(value, 2));
    assert(item == "box"@ ==> settings::lists(value, 3));
    if item == "spotlight"@ || item == "laser"@ || item == "magnify"@ || item == "box"@ {
        reveal_strlit("spotlight");
        reveal_strlit("laser");
        reveal_strlit("magnify");
        reveal_strlit("box");
        if value.len() == 0 {
            text::trimming_takes_white_space_alone(items[at]);
            assert(parts =~= seq![Seq::<char>::empty()]);
            assert(items[at].len() == 0);
        }
        assert(!settings::names_nothing(value));
    }
    no_effect_stands_in_nothing();
}

proof fn no_effect_stands_in_nothing()
    ensures
        settings::cycle_of(Seq::empty()) == seq![false, false, false, false],
{
    let parts = text::parts(Seq::<char>::empty(), ',');
    assert(parts =~= seq![Seq::<char>::empty()]);
    text::trimmed_stays(Seq::empty());
    reveal_strlit("spotlight");
    reveal_strlit("laser");
    reveal_strlit("magnify");
    reveal_strlit("box");
    assert forall|slot: int| 0 <= slot < 4 implies !settings::lists(Seq::empty(), slot) by {
        assert(settings::effect_key(slot).len() > 0);
    }
    assert(settings::cycle_of(Seq::empty()) =~= seq![false, false, false, false]);
}

/// A list of timers sets them by place: a number of 1 to 600 minutes sets that timer, any
/// other item and a missing one leave it unset, and nothing else changes.
pub proof fn listed_timers_are_set_by_place(
    before: Values,
    items: Seq<Seq<char>>,
    answer: Option<Number>,
    slot: int,
    minutes: nat,
)
    requires
        items.len() > 0,
        forall|i: int| 0 <= i < items.len() ==> !(#[trigger] items[i]).contains(','),
        0 <= slot < 3,
    ensures
        ({
            let value = text::joined(items, seq![',']);
            let after = settings::with_entry(before, "timers"@, value, answer);
            &&& after == (Values { timers: after.timers, ..before })
            &&& after.timers.len() == 3
            &&& slot >= items.len() ==> after.timers[slot] is None
            &&& slot < items.len() && items[slot] == text::decimal(minutes) && 1 <= minutes <= 600
                ==> after.timers[slot] == Some(minutes as u32)
            &&& slot < items.len() && items[slot] == text::decimal(minutes) && (minutes == 0
                || minutes > 600) ==> after.timers[slot] is None
            &&& slot < items.len() && text::trimmed(items[slot]).len() == 0 ==> after.timers[slot]
                is None
        }),
{
    keys_are_distinct();
    text::joined_texts_split_again(items, ',');
    settings::minutes_are_one_to_six_hundred(minutes);
}

/// A plain decimal is read exactly: its digits before the point count units, and the first
/// to the sixth behind it tenths to millionths.
pub proof fn plain_decimals_are_read_exactly(whole: nat, places: Seq<char>, part: nat)
    requires
        whole <= 999_999_999,
        1 <= places.len() <= 6,
        places[0] != '+',
        text::int_value(places, 10, 999_999) == Ok::<nat, IntError>(part),
    ensures
        settings::plain_number(text::decimal(whole)) == Some(
            Number::Finite((whole * 1_000_000) as i64),
        ),
        ({
            let read = settings::plain_number(text::decimal(whole) + seq!['.'] + places);
            &&& places.len() == 1 ==> read == Some(
                Number::Finite((whole * 1_000_000 + part * 100_000) as i64),
            )
            &&& places.len() == 2 ==> read == Some(
                Number::Finite((whole * 1_000_000 + part * 10_000) as i64),
            )
            &&& places.len() == 3 ==> read == Some(
                Number::Finite((whole * 1_000_000 + part * 1_000) as i64),
            )
            &&& places.len() == 4 ==> read == Some(
                Number::Finite((whole * 1_000_000 + part * 100) as i64),
            )
            &&& places.len() == 5 ==> read == Some(
                Number::Finite((whole * 1_000_000 + part * 10) as i64),
            )
            &&& places.len() == 6 ==> read == Some(
                Number::Finite((whole * 1_000_000 + part) as i64),
            )
        }),
{
    whole_numbers_read_back(whole);
    a_point_divides(whole, places);
}

/// What is no plain decimal is read by the caller, and only then.
pub proof fn other_numbers_are_read_by_the_caller(
    value: Seq<char>,
    number: Number,
    answer: Option<Number>,
)
    ensures
        settings::plain_number(value) == Some(number) ==> settings::number_of(value, answer) == Some(
            number,
        ) && !settings::needs_answer("radius"@, value) && !settings::needs_answer("shade"@, value)
            && !settings::needs_answer("zoom"@, value),
        settings::plain_number(value) is None ==> settings::number_of(value, answer) == answer
            && settings::needs_answer("radius"@, value) && settings::needs_answer("shade"@, value)
            && settings::needs_answer("zoom"@, value),
{
}

/// Each setting has its line, in this order.
pub proof fn each_setting_has_its_line(values: Values)
    ensures
        settings::entries(values).len() == 8,
        settings::entries(values)[0] == "cycle"@ + seq!['='] + text::joined(
            settings::selected_from(values.cycle, 0),
            ","@,
        ),
        settings::entries(values)[1] == "next-hold"@ + seq!['='] + values.next_hold.spec_key(),
        settings::entries(values)[2] == "back-hold"@ + seq!['='] + values.back_hold.spec_key(),
        settings::entries(values)[3] == "timers"@ + seq!['='] + text::joined(
            settings::timer_texts(values.timers),
            ","@,
        ),
        values.radius % 1_000_000 == 0 ==> settings::entries(values)[4] == "radius"@ + seq!['=']
            + text::decimal((values.radius / 1_000_000) as nat),
        values.shade % 10_000 == 0 && values.shade < 1_000_000 ==> settings::entries(values)[5]
            == "shade"@ + seq!['='] + (text::decimal(0) + seq![
            '.',
            text::digit_char((values.shade / 100_000) as nat),
            text::digit_char((values.shade / 10_000 % 10) as nat),
        ]),
        settings::entries(values)[6] == "zoom"@ + seq!['='] + settings::shortest(values.zoom),
        settings::entries(values)[7] == "screen-reminder"@ + seq!['=']
            + values.screen_reminder.spec_key(),
{
}

/// A list names the selected effects and nothing else, in cycle order.
pub proof fn the_selected_effects_are_listed(cycle: Seq<bool>)
    requires
        cycle.len() == 4,
    ensures
        cycle == seq![true, true, true, true] ==> settings::selected_from(cycle, 0) == seq![
            "spotlight"@,
            "laser"@,
            "magnify"@,
            "box"@,
        ],
        settings::selected_from(cycle, 0).contains("spotlight"@) == cycle[0],
        settings::selected_from(cycle, 0).contains("laser"@) == cycle[1],
        settings::selected_from(cycle, 0).contains("magnify"@) == cycle[2],
        settings::selected_from(cycle, 0).contains("box"@) == cycle[3],
        settings::timer_text(None).len() == 0,
        forall|minutes: u32| #[trigger]
            settings::timer_text(Some(minutes)) == text::decimal(minutes as nat),
{
    selection_lists_the_selected(cycle, 0, 0);
    selection_lists_the_selected(cycle, 0, 1);
    selection_lists_the_selected(cycle, 0, 2);
    selection_lists_the_selected(cycle, 0, 3);
    reveal_with_fuel(settings::selected_from, 5);
    if cycle == seq![true, true, true, true] {
        assert(settings::selected_from(cycle, 0) =~= seq![
            "spotlight"@,
            "laser"@,
            "magnify"@,
            "box"@,
        ]);
    }
}

/// A quantity in decimal reads back exactly.
pub proof fn quantities_read_back(quantity: u64)
    requires
        quantity < 1_000_000_000_000_000,
    ensures
        settings::plain_number(settings::shortest(quantity)) == Some(
            Number::Finite(quantity as i64),
        ),
{
    let whole = (quantity / 1_000_000) as nat;
    let rest = (quantity % 1_000_000) as nat;
    if rest == 0 {
        whole_numbers_read_back(whole);
    } else {
        let digit = rest / 100_000;
        let first = seq![text::digit_char(digit)];
        let all = settings::places(rest, 1_000_000);
        text::digit_chars_are_digits(digit);
        assert(first.drop_last() =~= Seq::<char>::empty());
        assert(text::digits_value(Seq::<char>::empty(), 10, 999_999) == Ok::<nat, IntError>(0));
        assert(text::digits_value(first, 10, 999_999) == Ok::<nat, IntError>(digit));
        assert(all =~= first + settings::places(rest % 100_000, 100_000));
        places_read_back(first, digit, rest % 100_000, 100_000);
        assert(all[0] == first[0]);
        a_point_divides(whole, all);
    }
}

#[verifier::spinoff_prover]
proof fn places_read_back(prefix: Seq<char>, value: nat, rest: nat, unit: nat)
    requires
        1 <= prefix.len() <= 6,
        unit == 100_000 || unit == 10_000 || unit == 1_000 || unit == 100 || unit == 10 || unit
            == 1,
        settings::place_unit(prefix.len()) == unit,
        rest < unit,
        value * unit + rest <= 999_999,
        text::digits_value(prefix, 10, 999_999) == Ok::<nat, IntError>(value),
    ensures
        ({
            let all = prefix + settings::places(rest, unit);
            &&& prefix.len() <= all.len() <= 6
            &&& text::digits_value(all, 10, 999_999) matches Ok(read) && read
                * settings::place_unit(all.len()) == value * unit + rest
        }),
    decreases unit,
{
    let all = prefix + settings::places(rest, unit);
    if rest == 0 || unit < 10 {
        assert(all =~= prefix);
    } else {
        let tenth = unit / 10;
        let digit = rest / tenth;
        let next = prefix.push(text::digit_char(digit));
        assert(unit == 10 * tenth && tenth >= 1);
        assert(digit < 10) by (nonlinear_arith)
            requires
                rest < 10 * tenth,
                tenth >= 1,
                digit == rest / tenth,
        ;
        assert(rest % tenth < tenth) by (nonlinear_arith)
            requires
                tenth >= 1,
        ;
        text::digit_chars_are_digits(digit);
        assert(next.drop_last() =~= prefix);
        assert((value * 10 + digit) * tenth + rest % tenth == value * unit + rest) by {
            assert(rest == digit * tenth + rest % tenth) by (nonlinear_arith)
                requires
                    tenth >= 1,
                    digit == rest / tenth,
            ;
            assert((value * 10 + digit) * tenth == value * (10 * tenth) + digit * tenth)
                by (nonlinear_arith);
            assert(value * unit == value * (10 * tenth));
        }
        assert(value * 10 + digit <= 999_999) by (nonlinear_arith)
            requires
                (value * 10 + digit) * tenth <= 999_999,
                tenth >= 1,
        ;
        assert(next + settings::places(rest % tenth, tenth) =~= all);
        places_read_back(next, value * 10 + digit, rest % tenth, tenth);
    }
}

} // verus!
