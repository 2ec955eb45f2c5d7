//! "The Twelve Days of Christmas": a cumulative song of twelve stanzas.
//!
//! Each stanza names its day and then lists the gifts of that day and of
//! all the days before it, the newest first.

use vstd::prelude::*;
use vstd::string::StringExecFns;

verus! {

/// The names of the twelve days, as the song spells them.
pub open spec fn days() -> Seq<Seq<char>> {
    seq![
        "first"@,
        "second"@,
        "third"@,
        "fourth"@,
        "fith"@,
        "sixth"@,
        "seventh"@,
        "eighth"@,
        "nineth"@,
        "tenth"@,
        "eleventh"@,
        "twelth"@,
    ]
}

/// The gifts of the twelve days.
pub open spec fn gifts() -> Seq<Seq<char>> {
    seq![
        "A Partridge in a Pear Tree"@,
        "Two Turtle Doves"@,
        "Three French Hens"@,
        "Four Calling/Collie Birds"@,
        "Five Golden Rings"@,
        "Six Geese-a-Laying"@,
        "Seven Swans-a-Swimming"@,
        "Eight Maids-a-Milking"@,
        "Nine Ladies Dancing"@,
        "Ten Lords-a-Leaping"@,
        "Eleven Pipers Piping"@,
        "Twelve Drummers Drumming"@,
    ]
}

/// The gifts of the first `count` days, the newest first: one line each,
/// closed by a comma, the last one by a full stop.
pub open spec fn gift_lines(count: nat) -> Seq<char>
    recommends
        count <= 12,
    decreases count,
{
    if count == 0 {
        Seq::empty()
    } else {
        gifts()[count - 1] + (if count != 1 {
            ","@
        } else {
            "."@
        }) + "\n"@ + gift_lines((count - 1) as nat)
    }
}

/// The stanza of day `nth`, counted from 0.
pub open spec fn stanza_text(nth: nat) -> Seq<char>
    recommends
        nth < 12,
{
    "On the "@ + days()[nth as int] + " of Christmas my true love sent to me:\n"@ + gift_lines(
        nth + 1,
    )
}

/// The first `count` stanzas, an empty line after each.
pub open spec fn song_text(count: nat) -> Seq<char>
    recommends
        count <= 12,
    decreases count,
{
    if count == 0 {
        Seq::empty()
    } else {
        song_text((count - 1) as nat) + stanza_text((count - 1) as nat) + "\n"@
    }
}

/// The name of day `n`, counted from 0.
fn day(n: usize) -> (name: &'static str)
    requires
        n < 12,
    ensures
        name@ == days()[n as int],
{
    match n {
        0 => "first",
        1 => "second",
        2 => "third",
        3 => "fourth",
        4 => "fith",
        5 => "sixth",
        6 => "seventh",
        7 => "eighth",
        8 => "nineth",
        9 => "tenth",
        10 => "eleventh",
        _ => "twelth",
    }
}

/// The gift of day `n`, counted from 0.
fn gift(n: usize) -> (name: &'static str)
    requires
        n < 12,
    ensures
        name@ == gifts()[n as int],
{
    match n {
        0 => "A Partridge in a Pear Tree",
        1 => "Two Turtle Doves",
        2 => "Three French Hens",
        3 => "Four Calling/Collie Birds",
        4 => "Five Golden Rings",
        5 => "Six Geese-a-Laying",
        6 => "Seven Swans-a-Swimming",
        7 => "Eight Maids-a-Milking",
        8 => "Nine Ladies Dancing",
        9 => "Ten Lords-a-Leaping",
        10 => "Eleven Pipers Piping",
        _ => "Twelve Drummers Drumming",
    }
}

/// The whole song: twelve stanzas, an empty line after each.
pub fn sing() -> (song: String)
    ensures
        song@ == song_text(12),
{
    let mut song = String::new();
    let mut n: i32 = 0;
    while n < 12
        invariant
            0 <= n <= 12,
            song@ == song_text(n as nat),
        decreases 12 - n,
    {
        let next = stanza(n);
        song.append(next.as_str());
        song.append("\n");
        n += 1;
    }
    song
}

/// The stanza of day `nth`, counted from 0.
pub fn stanza(nth: i32) -> (text: String)
    requires
        0 <= nth < 12,
    ensures
        text@ == stanza_text(nth as nat),
{
    let mut text = String::new();
    text.append("On the ");
    text.append(day(nth as usize));
    text.append(" of Christmas my true love sent to me:\n");
    let ghost head = text@;
    let mut n: i32 = nth;
    while n >= 0
        invariant
            -1 <= n <= nth < 12,
            text@ + gift_lines((n + 1) as nat) == head + gift_lines((nth + 1) as nat),
        decreases n + 1,
    {
        text.append(gift(n as usize));
        if n != 0 {
            text.append(",");
        } else {
            text.append(".");
        }
        text.append("\n");
        n -= 1;
    }
    assert(head =~= "On the "@ + days()[nth as int]
        + " of Christmas my true love sent to me:\n"@);
    text
}

} // verus!
