//! Render options: `key=value` tokens in a free-text string.

use crate::pattern::{captures_iter, regex_captures};
use crate::render::BASE_DELAY;
use vstd::prelude::*;
use vstd::string::StringExecFns;

verus! {

/// The shape of one option: a key and a value of word characters, dots and
/// underscores, joined by `=`.
pub const OPTION_PATTERN: &'static str = r"([\w._]+)=([\w._]+)";

/// The key of the playback speed.
pub const SPEED_KEY: &'static str = "speed";

/// The value of a match of the option pattern, where its key is `key`.
pub open spec fn value_for(found: Seq<Option<Seq<char>>>, key: Seq<char>) -> Option<Seq<char>> {
    if found.len() >= 3 && found[1] == Some(key) {
        found[2]
    } else {
        None
    }
}

/// The values that the matches give to `key`, in the order of the matches.
pub open spec fn values_for(matches: Seq<Seq<Option<Seq<char>>>>, key: Seq<char>) -> Seq<
    Seq<char>,
>
    decreases matches.len(),
{
    if matches.len() == 0 {
        Seq::empty()
    } else {
        let before = values_for(matches.drop_last(), key);
        match value_for(matches.last(), key) {
            Some(value) => before.push(value),
            None => before,
        }
    }
}

/// The values that an option string gives to the speed key, in the order
/// in which they stand in the string. A later value overrides an earlier
/// one; a value need not be a number.
pub open spec fn spec_speed_values(options: Seq<char>) -> Seq<Seq<char>> {
    match regex_captures(OPTION_PATTERN@, options) {
        Some(matches) => values_for(matches, SPEED_KEY@),
        None => Seq::empty(),
    }
}

/// Picks from pattern matches the values given to `key`.
pub fn option_values(matches: &Vec<Vec<Option<String>>>, key: &str) -> (values: Vec<String>)
    ensures
        values.deep_view() == values_for(matches.deep_view(), key@),
{
    let wanted = String::from_str(key);
    let mut values: Vec<String> = Vec::new();
    let mut i: usize = 0;
    while i < matches.len()
        invariant
            i <= matches@.len(),
            wanted@ == key@,
            values.deep_view() == values_for(matches.deep_view().subrange(0, i as int), key@),
        decreases matches@.len() - i,
    {
        let found = &matches[i];
        let ghost before = matches.deep_view().subrange(0, i as int);
        let ghost after = matches.deep_view().subrange(0, i + 1);
        proof {
            assert(after.drop_last() == before);
            assert(after.last() == found.deep_view());
        }
        if found.len() >= 3 {
            match (&found[1], &found[2]) {
                (Some(name), Some(value)) => {
                    if *name == wanted {
                        let ghost old_values = values.deep_view();
                        values.push(value.clone());
                        assert(values.deep_view() == old_values.push(value@));
                    }
                },
                _ => {},
            }
        }
        i += 1;
    }
    assert(matches.deep_view().subrange(0, i as int) == matches.deep_view());
    values
}

/// The values that `options` gives to the speed key.
pub fn speed_values(options: &str) -> (values: Vec<String>)
    ensures
        values.deep_view() == spec_speed_values(options@),
{
    match captures_iter(OPTION_PATTERN, options) {
        Some(matches) => option_values(&matches, SPEED_KEY),
        None => Vec::new(),
    }
}

/// The delay that a run of speed options gives: each option stands for the
/// delay it asks for, or for `None` where its value is no number. The
/// last delay asked for counts, and without one the base delay.
pub open spec fn spec_frame_delay(asked: Seq<Option<u16>>) -> u16
    decreases asked.len(),
{
    if asked.len() == 0 {
        BASE_DELAY
    } else {
        match asked.last() {
            Some(delay) => delay,
            None => spec_frame_delay(asked.drop_last()),
        }
    }
}

/// The delay of a frame, given the delays that the speed options ask for.
pub fn frame_delay(asked: &Vec<Option<u16>>) -> (delay: u16)
    ensures
        delay == spec_frame_delay(asked@),
{
    let mut n: usize = asked.len();
    assert(asked@.subrange(0, n as int) == asked@);
    while n > 0
        invariant
            n <= asked@.len(),
            spec_frame_delay(asked@) == spec_frame_delay(asked@.subrange(0, n as int)),
        decreases n,
    {
        let ghost head = asked@.subrange(0, n as int);
        assert(head.last() == asked@[n - 1]);
        assert(head.drop_last() == asked@.subrange(0, n - 1));
        match asked[n - 1] {
            Some(delay) => {
                return delay;
            },
            None => {},
        }
        n -= 1;
    }
    assert(asked@.subrange(0, 0).len() == 0);
    BASE_DELAY
}

/// An option whose value is no number leaves the delay as it was, and
/// without any option that asks for a delay the base delay stands.
pub proof fn law_unreadable_speed_is_ignored(asked: Seq<Option<u16>>)
    ensures
        spec_frame_delay(asked.push(None)) == spec_frame_delay(asked),
        spec_frame_delay(Seq::empty()) == BASE_DELAY,
        (forall|i: int| 0 <= i < asked.len() ==> asked[i] is None) ==> spec_frame_delay(asked)
            == BASE_DELAY,
    decreases asked.len(),
{
    assert(asked.push(None).drop_last() == asked);
    if asked.len() > 0 {
        law_unreadable_speed_is_ignored(asked.drop_last());
        assert(asked.drop_last().push(asked.last()) == asked);
    }
}

} // verus!
