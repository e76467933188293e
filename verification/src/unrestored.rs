//! Leftover diversions persisted between app runs: one `cid flags mapping` line
//! of hexadecimal numbers per control. Malformed lines are ignored.
use crate::controls::Reporting;
use crate::text;
use vstd::prelude::*;

verus! {

/// The three numbers of a record as text.
pub open spec fn record_fields(item: (u16, Reporting)) -> Seq<char> {
    text::hex(item.0 as nat, 4) + seq![' '] + (text::hex(item.1.flags as nat, 4) + seq![' ']
        + text::hex(item.1.mapped_to as nat, 4))
}

/// The text of a list of records.
pub open spec fn unrestored_text(items: Seq<(u16, Reporting)>) -> Seq<char>
    decreases items.len(),
{
    if items.len() == 0 {
        Seq::empty()
    } else {
        record_fields(items[0]) + seq!['\n'] + unrestored_text(items.skip(1))
    }
}

/// A 16-bit hexadecimal field.
pub open spec fn hex_field(field: Seq<char>) -> Result<nat, text::IntError> {
    text::int_value(field, 16, 0xffff)
}

/// The record of a line: exactly three hexadecimal fields.
pub open spec fn record_of(line: Seq<char>) -> Option<(u16, Reporting)> {
    let fields = text::words_of(line);
    if fields.len() == 3 && hex_field(fields[0]) is Ok && hex_field(fields[1]) is Ok && hex_field(
        fields[2],
    ) is Ok {
        Some(
            (
                hex_field(fields[0])->Ok_0 as u16,
                Reporting {
                    flags: hex_field(fields[1])->Ok_0 as u16,
                    mapped_to: hex_field(fields[2])->Ok_0 as u16,
                },
            ),
        )
    } else {
        None
    }
}

/// The records of a list of lines, in order.
pub open spec fn records_of(lines: Seq<Seq<char>>) -> Seq<(u16, Reporting)>
    decreases lines.len(),
{
    if lines.len() == 0 {
        Seq::empty()
    } else {
        let before = records_of(lines.drop_last());
        match record_of(lines.last()) {
            Some(record) => before.push(record),
            None => before,
        }
    }
}

/// Writes a list of records.
pub fn format_unrestored(items: &[(u16, Reporting)]) -> (written: String)
    ensures
        written@ == unrestored_text(items@),
{
    let mut written = String::new();
    let mut i: usize = 0;
    assert(items@.skip(0) =~= items@);
    while i < items.len()
        invariant
            i <= items@.len(),
            written@ + unrestored_text(items@.skip(i as int)) == unrestored_text(items@),
        decreases items.len() - i,
    {
        let (cid, reporting) = items[i];
        let ghost before = written@;
        text::push_hex(&mut written, cid as u64, 4);
        written.append(" ");
        text::push_hex(&mut written, reporting.flags as u64, 4);
        written.append(" ");
        text::push_hex(&mut written, reporting.mapped_to as u64, 4);
        written.append("\n");
        proof {
            reveal_strlit(" ");
            reveal_strlit("\n");
            let rest = items@.skip(i as int);
            assert(rest[0] == items@[i as int]);
            assert(rest.skip(1) =~= items@.skip(i as int + 1));
            assert(" "@ =~= seq![' ']);
            assert("\n"@ =~= seq!['\n']);
            assert(written@ =~= before + (record_fields(rest[0]) + seq!['\n']));
            assert(written@ + unrestored_text(items@.skip(i as int + 1)) =~= before
                + unrestored_text(rest));
        }
        i = i + 1;
    }
    assert(written@ =~= unrestored_text(items@));
    written
}

/// Reads the record of a line.
fn parse_record(line: &str) -> (record: Option<(u16, Reporting)>)
    ensures
        record == record_of(line@),
{
    let fields = text::words(line);
    assert(fields@.len() == text::views(fields@).len());
    if fields.len() != 3 {
        return None;
    }
    let cid = text::parse_int(fields[0], 16, 0xffff);
    let flags = text::parse_int(fields[1], 16, 0xffff);
    let mapped_to = text::parse_int(fields[2], 16, 0xffff);
    match (cid, flags, mapped_to) {
        (Ok(cid), Ok(flags), Ok(mapped_to)) => Some(
            (cid as u16, Reporting { flags: flags as u16, mapped_to: mapped_to as u16 }),
        ),
        _ => None,
    }
}

/// Reads what `format_unrestored` writes, ignoring malformed lines.
pub fn parse_unrestored(text: &str) -> (records: Vec<(u16, Reporting)>)
    ensures
        records@ == records_of(text::lines_of(text@)),
{
    let found = text::lines(text);
    let ghost all = text::views(found@);
    let mut records: Vec<(u16, Reporting)> = Vec::new();
    for i in 0..found.len()
        invariant
            all == text::views(found@),
            records@ == records_of(all.take(i as int)),
    {
        proof {
            assert(all.take(i as int + 1).drop_last() =~= all.take(i as int));
            assert(all.take(i as int + 1).last() == found@[i as int]@);
        }
        if let Some(record) = parse_record(found[i]) {
            records.push(record);
        }
    }
    assert(all.take(found@.len() as int) =~= all);
    records
}

/// A written record reads back as itself.
proof fn a_record_reads_back(item: (u16, Reporting))
    ensures
        record_of(record_fields(item)) == Some(item),
        !record_fields(item).contains('\n'),
        record_fields(item).last() != '\r',
        record_fields(item).len() > 0,
{
    let cid = text::hex(item.0 as nat, 4);
    let flags = text::hex(item.1.flags as nat, 4);
    let mapped_to = text::hex(item.1.mapped_to as nat, 4);
    hex_is_one_word(item.0);
    hex_is_one_word(item.1.flags);
    hex_is_one_word(item.1.mapped_to);
    text::words_begin(cid, flags + seq![' '] + mapped_to);
    text::words_begin(flags, mapped_to);
    text::words_of_one(mapped_to);
    let fields = text::words_of(record_fields(item));
    assert(fields =~= seq![cid, flags, mapped_to]);
    let s = record_fields(item);
    assert forall|i: int| 0 <= i < s.len() implies s[i] != '\n' by {
        if i < 4 {
            assert(s[i] == cid[i]);
        } else if 4 < i && i < 9 {
            assert(s[i] == flags[i - 5]);
        } else if i > 9 {
            assert(s[i] == mapped_to[i - 10]);
        }
    }
    assert(s.last() == mapped_to[3]);
}

proof fn hex_is_one_word(value: u16)
    ensures
        text::hex(value as nat, 4).len() == 4,
        hex_field(text::hex(value as nat, 4)) == Ok::<nat, text::IntError>(value as nat),
        forall|i: int|
            #![trigger text::hex(value as nat, 4)[i]]
            0 <= i < 4 ==> !text::is_space(text::hex(value as nat, 4)[i]) && text::hex(
                value as nat,
                4,
            )[i] != '\n' && text::hex(value as nat, 4)[i] != '\r',
{
    let s = text::hex(value as nat, 4);
    text::hex_has_digits(value as nat, 4);
    assert(text::hex_limit(4) == 0x10000) by {
        reveal_with_fuel(text::hex_limit, 5);
    }
    text::hex_reads_back(value as nat, 4, 0xffff);
    assert forall|i: int| #![trigger s[i]] 0 <= i < 4 implies !text::is_space(s[i]) && s[i] != '\n'
        && s[i] != '\r' by {
        let d = choose|d: nat| d < 16 && s[i] == text::digit_char(d);
        text::digit_chars_are_digits(d);
    }
}

/// What was written reads back: every list of records survives
/// `format_unrestored` followed by `parse_unrestored`.
pub proof fn unrestored_records_read_back(items: Seq<(u16, Reporting)>)
    ensures
        records_of(text::lines_of(unrestored_text(items))) == items,
    decreases items.len(),
{
    if items.len() > 0 {
        let rest = unrestored_text(items.skip(1));
        a_record_reads_back(items[0]);
        unrestored_records_read_back(items.skip(1));
        text::lines_begin(record_fields(items[0]), rest);
        records_from_the_front(record_fields(items[0]), text::lines_of(rest));
        assert(items =~= seq![items[0]] + items.skip(1));
    } else {
        assert(records_of(text::lines_of(unrestored_text(items))) =~= items);
    }
}

proof fn records_from_the_front(line: Seq<char>, lines: Seq<Seq<char>>)
    requires
        record_of(line) is Some,
    ensures
        records_of(seq![line] + lines) == seq![record_of(line)->Some_0] + records_of(lines),
    decreases lines.len(),
{
    let all = seq![line] + lines;
    if lines.len() == 0 {
        assert(all.drop_last() =~= Seq::empty());
        assert(records_of(all.drop_last()) =~= Seq::empty());
        assert(all.last() == line);
        assert(records_of(all) =~= seq![record_of(line)->Some_0] + records_of(lines));
    } else {
        records_from_the_front(line, lines.drop_last());
        assert(all.drop_last() =~= seq![line] + lines.drop_last());
        assert(all.last() == lines.last());
        assert(records_of(all) =~= seq![record_of(line)->Some_0] + records_of(lines));
    }
}

/// A line that is not three hexadecimal numbers of sixteen bits is passed over, and the
/// others are read in order.
pub proof fn malformed_lines_are_passed_over(lines: Seq<Seq<char>>, line: Seq<char>)
    ensures
        records_of(Seq::empty()).len() == 0,
        record_of(line) matches Some(record) ==> records_of(lines.push(line)) == records_of(
            lines,
        ).push(record),
        record_of(line) is None ==> records_of(lines.push(line)) == records_of(lines),
        text::words_of(line).len() != 3 ==> record_of(line) is None,
        forall|i: int|
            0 <= i < 3 && text::int_value(#[trigger] text::words_of(line)[i], 16, 0xffff) is Err
                ==> record_of(line) is None,
{
    assert(lines.push(line).drop_last() =~= lines);
}

/// The numbers of a line are the control, its flags and its mapping, in that order.
pub proof fn a_line_holds_control_flags_and_mapping(cid: u16, flags: u16, mapped_to: u16)
    ensures
        record_of(
            text::hex(cid as nat, 4) + seq![' '] + (text::hex(flags as nat, 4) + seq![' ']
                + text::hex(mapped_to as nat, 4)),
        ) == Some((cid, Reporting { flags, mapped_to })),
{
    a_record_reads_back((cid, Reporting { flags, mapped_to }));
}

} // verus!
