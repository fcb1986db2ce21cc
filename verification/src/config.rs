//! Reading the settings of the crawl and of the consumer from the texts
//! that the surroundings hold.

use crate::block::texts;
use crate::number::{parse_number, parsed};
use crate::text::chars_of;
use vstd::prelude::*;

verus! {

/// The pacing delay where none is set, in milliseconds.
pub const DEFAULT_DELAY_TIME: u64 = 1000;

/// The parts of `text` that its commas part, in order. A text without a
/// comma is one part, the empty text too.
pub open spec fn comma_parts(text: Seq<char>) -> Seq<Seq<char>>
    decreases text.len(),
{
    if text.len() == 0 {
        seq![Seq::empty()]
    } else {
        let before = comma_parts(text.drop_last());
        if text.last() == ',' {
            before.push(Seq::empty())
        } else {
            before.drop_last().push(before.last().push(text.last()))
        }
    }
}

/// There is always at least one part.
pub proof fn lemma_comma_parts_len(text: Seq<char>)
    ensures
        comma_parts(text).len() >= 1,
    decreases text.len(),
{
    if text.len() > 0 {
        lemma_comma_parts_len(text.drop_last());
    }
}

/// `parts` written one after the other with a comma between each two.
pub open spec fn comma_joined(parts: Seq<Seq<char>>) -> Seq<char>
    decreases parts.len(),
{
    if parts.len() == 0 {
        Seq::empty()
    } else if parts.len() == 1 {
        parts[0]
    } else {
        comma_joined(parts.drop_last()) + seq![','] + parts.last()
    }
}

/// No part holds a comma.
pub proof fn lemma_comma_parts_hold_no_comma(text: Seq<char>)
    ensures
        forall|i: int, j: int|
            0 <= i < comma_parts(text).len() && 0 <= j < comma_parts(text)[i].len()
                ==> #[trigger] comma_parts(text)[i][j] != ',',
    decreases text.len(),
{
    if text.len() > 0 {
        lemma_comma_parts_hold_no_comma(text.drop_last());
        lemma_comma_parts_len(text.drop_last());
    }
}

/// The parts, joined with commas, are the text.
pub proof fn lemma_comma_parts_join(text: Seq<char>)
    ensures
        comma_joined(comma_parts(text)) == text,
    decreases text.len(),
{
    if text.len() > 0 {
        let shorter = text.drop_last();
        let before = comma_parts(shorter);
        lemma_comma_parts_join(shorter);
        lemma_comma_parts_len(shorter);
        if text.last() == ',' {
            let after = before.push(Seq::empty());
            assert(after.drop_last() =~= before);
        } else {
            let last = before.last().push(text.last());
            let after = before.drop_last().push(last);
            assert(after.drop_last() =~= before.drop_last());
            if before.len() > 1 {
                assert(comma_joined(before) == comma_joined(before.drop_last()) + seq![',']
                    + before.last());
                assert(comma_joined(after) == comma_joined(before.drop_last()) + seq![',']
                    + last);
                assert(comma_joined(after) =~= comma_joined(before).push(text.last()));
            }
        }
    }
}

/// The pacing delay that a setting asks for: the number that it writes in
/// decimal, and the default where there is no setting or it writes none.
pub open spec fn delay_of(setting: Option<String>) -> u64 {
    match setting {
        Some(text) => match parsed(text@, 10) {
            Some(delay) => delay,
            None => DEFAULT_DELAY_TIME,
        },
        None => DEFAULT_DELAY_TIME,
    }
}

/// The broker hosts that a comma-separated list names.
pub fn broker_hosts(list: &str) -> (hosts: Vec<String>)
    ensures
        texts(hosts@) == comma_parts(list@),
{
    let chars = chars_of(list);
    let mut hosts: Vec<String> = Vec::new();
    let mut start: usize = 0;
    let mut i: usize = 0;
    assert(list@.take(0) =~= Seq::empty());
    while i < chars.len()
        invariant
            start <= i <= chars.len(),
            chars@ == list@,
            comma_parts(list@.take(i as int)) == texts(hosts@).push(
                list@.subrange(start as int, i as int),
            ),
        decreases chars.len() - i,
    {
        assert(list@.take(i + 1).drop_last() =~= list@.take(i as int));
        if chars[i] == ',' {
            hosts.push(list.substring_char(start, i).to_owned());
            start = i + 1;
            assert(list@.subrange(start as int, i + 1) =~= Seq::<char>::empty());
        } else {
            assert(list@.subrange(start as int, i + 1) =~= list@.subrange(
                start as int,
                i as int,
            ).push(chars@[i as int]));
        }
        i = i + 1;
    }
    assert(list@.take(chars.len() as int) =~= list@);
    hosts.push(list.substring_char(start, i).to_owned());
    hosts
}

/// The number of the block to start from that a setting writes in decimal,
/// if it writes one.
pub fn from_block(setting: &str) -> (number: Option<u64>)
    ensures
        number == parsed(setting@, 10),
{
    parse_number(setting, 10)
}

/// The pacing delay, in milliseconds: the one that the setting writes in
/// decimal, and the default where there is no setting or it writes none.
pub fn delay_time(setting: Option<String>) -> (delay: u64)
    ensures
        delay == delay_of(setting),
{
    match setting {
        Some(text) => match from_block(text.as_str()) {
            Some(delay) => delay,
            None => DEFAULT_DELAY_TIME,
        },
        None => DEFAULT_DELAY_TIME,
    }
}

} // verus!
