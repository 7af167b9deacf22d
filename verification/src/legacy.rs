//! Records in the legacy text format: one file per channel, named after
//! the channel's identifier, with the owner in a line `A:<number>` and the
//! category in a line `C:<number>`.

use crate::channel::ConChannel;
use crate::text::{find_from, first_of, number, read_number};
use vstd::prelude::*;

verus! {

/// What a legacy file says of a channel.
#[derive(Clone, Copy, Debug, PartialEq, Eq, Structural)]
pub struct LegacyFields {
    pub owner: Option<u64>,
    pub category: Option<u64>,
}

/// What a line says of the field `key`: the number behind `key` and a
/// colon, if the line is made of these and nothing else.
pub open spec fn field_of(line: Seq<char>, key: char) -> Option<u64> {
    if line.len() >= 2 && line[0] == key && line[1] == ':' {
        match number(line.skip(2), u64::MAX as nat) {
            Some(n) => Some(n as u64),
            None => None,
        }
    } else {
        None
    }
}

/// The fields after one more line: a line that gives a field replaces what
/// earlier lines gave for it.
pub open spec fn after_line(fields: LegacyFields, line: Seq<char>) -> LegacyFields {
    LegacyFields {
        owner: if field_of(line, 'A') is Some {
            field_of(line, 'A')
        } else {
            fields.owner
        },
        category: if field_of(line, 'C') is Some {
            field_of(line, 'C')
        } else {
            fields.category
        },
    }
}

/// The fields after all lines of `text`, taken in turn.
pub open spec fn after_lines(fields: LegacyFields, text: Seq<char>) -> LegacyFields
    decreases text.len(),
{
    let end = first_of(text, '\n');
    let next = after_line(fields, text.take(end as int));
    if end >= text.len() {
        next
    } else {
        after_lines(next, text.skip(end as int + 1))
    }
}

/// What a legacy file with the content `content` says.
pub open spec fn legacy_fields(content: Seq<char>) -> LegacyFields {
    after_lines(LegacyFields { owner: None, category: None }, content)
}

/// The channel that a legacy file with the name `name` is about: the
/// number before the ending `.txt`.
pub open spec fn legacy_id(name: Seq<char>) -> Option<u64> {
    if name.len() >= 4 && name.skip(name.len() - 4) == ".txt"@ {
        match number(name.take(name.len() - 4), u64::MAX as nat) {
            Some(n) => Some(n as u64),
            None => None,
        }
    } else {
        None
    }
}

/// The record that a legacy file gives: none unless its name gives the
/// channel and its content both the owner and the category.
pub open spec fn spec_legacy_record(name: Seq<char>, content: Seq<char>) -> Option<ConChannel> {
    let fields = legacy_fields(content);
    if legacy_id(name) is Some && fields.owner is Some && fields.category is Some {
        Some(ConChannel { id: legacy_id(name)->0, owner: fields.owner->0, category: fields.category })
    } else {
        None
    }
}

/// What the line of `text` between `from` and `to` says of `key`.
fn read_field(text: &str, from: usize, to: usize, key: char) -> (value: Option<u64>)
    requires
        from <= to <= text@.len(),
    ensures
        value == field_of(text@.subrange(from as int, to as int), key),
{
    let ghost line = text@.subrange(from as int, to as int);
    if to - from < 2 {
        return None;
    }
    assert(line[0] == text@[from as int] && line[1] == text@[from + 1]);
    if text.get_char(from) != key || text.get_char(from + 1) != ':' {
        return None;
    }
    assert(line.skip(2) =~= text@.subrange(from + 2, to as int));
    read_number(text, from + 2, to, u64::MAX)
}

/// Reads the owner and the category out of a legacy file's content. Lines
/// that give neither are passed over; of several lines that give the same
/// field the last counts.
pub fn read_legacy_fields(content: &str) -> (fields: LegacyFields)
    ensures
        fields == legacy_fields(content@),
{
    let n = content.unicode_len();
    let mut fields = LegacyFields { owner: None, category: None };
    let mut pos: usize = 0;
    assert(content@.skip(0) =~= content@);
    loop
        invariant
            pos <= n,
            n == content@.len(),
            legacy_fields(content@) == after_lines(fields, content@.skip(pos as int)),
        decreases n - pos,
    {
        let ghost rest = content@.skip(pos as int);
        let end = find_from(content, pos, '\n');
        proof {
            assert(rest.take(end - pos) =~= content@.subrange(pos as int, end as int));
        }
        if let Some(owner) = read_field(content, pos, end, 'A') {
            fields.owner = Some(owner);
        }
        if let Some(category) = read_field(content, pos, end, 'C') {
            fields.category = Some(category);
        }
        if end >= n {
            return fields;
        }
        assert(rest.skip(end - pos + 1) =~= content@.skip(end + 1));
        pos = end + 1;
    }
}

/// Reads the channel's identifier out of a legacy file's name.
pub fn read_legacy_id(name: &str) -> (id: Option<u64>)
    ensures
        id == legacy_id(name@),
{
    let n = name.unicode_len();
    if n < 4 {
        return None;
    }
    proof {
        reveal_strlit(".txt");
        assert(name@.skip(n - 4).len() == 4);
        if name@.skip(n - 4) == ".txt"@ {
            assert(name@.skip(n - 4)[0] == '.' && name@.skip(n - 4)[1] == 't' && name@.skip(n - 4)[2]
                == 'x' && name@.skip(n - 4)[3] == 't');
        }
    }
    if name.get_char(n - 4) != '.' || name.get_char(n - 3) != 't' || name.get_char(n - 2) != 'x'
        || name.get_char(n - 1) != 't' {
        return None;
    }
    assert(name@.skip(n - 4) =~= ".txt"@);
    assert(name@.take(n - 4) =~= name@.subrange(0, n - 4));
    read_number(name, 0, n - 4, u64::MAX)
}

/// Reads the record that a legacy file gives.
pub fn legacy_record(name: &str, content: &str) -> (record: Option<ConChannel>)
    ensures
        record == spec_legacy_record(name@, content@),
{
    let id = match read_legacy_id(name) {
        Some(id) => id,
        None => { return None; },
    };
    let fields = read_legacy_fields(content);
    match (fields.owner, fields.category) {
        (Some(owner), Some(category)) => Some(ConChannel { id, owner, category: Some(category) }),
        _ => None,
    }
}

} // verus!
