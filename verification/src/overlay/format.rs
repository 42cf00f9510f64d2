//! Texts of the overlay: temperatures, shares, durations, weights and times.
use crate::text;
use crate::time::{read_rfc3339, Instant};
use vstd::prelude::*;

verus! {

/// A temperature in whole degrees, such as `210C`.
pub fn format_temperature(degrees: i64) -> (r: String)
    ensures
        r@ == text::signed_decimal(degrees as int) + "C"@,
{
    text::signed_text(degrees as i128).concat("C")
}

/// A share in percent, such as `35%`, of the number that `amount` writes.
pub fn format_percent(amount: &str) -> (r: String)
    ensures
        r@ == amount@ + "%"@,
{
    amount.to_owned().concat("%")
}

/// The seconds past the last full minute; of a negative duration, negative or zero.
pub open spec fn second_hand(seconds: int) -> int {
    if seconds >= 0 {
        seconds % 60
    } else {
        -((-seconds) % 60)
    }
}

/// The hours and minutes of a duration, each where there is one.
pub open spec fn hours_and_minutes(seconds: int) -> Seq<Seq<char>> {
    let hours = if seconds >= 3600 {
        seq![text::decimal((seconds / 3600) as nat) + "h"@]
    } else {
        Seq::empty()
    };
    let minutes = if seconds >= 0 && (seconds % 3600) / 60 > 0 {
        seq![text::decimal(((seconds % 3600) / 60) as nat) + "m"@]
    } else {
        Seq::empty()
    };
    hours + minutes
}

/// A duration in hours, minutes and seconds. What is zero is left out; where nothing would
/// remain, the seconds stay.
pub open spec fn duration_parts(seconds: int) -> Seq<Seq<char>> {
    if second_hand(seconds) > 0 || hours_and_minutes(seconds).len() == 0 {
        hours_and_minutes(seconds) + seq![text::signed_decimal(second_hand(seconds)) + "s"@]
    } else {
        hours_and_minutes(seconds)
    }
}

/// A duration in hours, minutes and seconds, such as `1h 5s`.
pub open spec fn duration_text(seconds: int) -> Seq<char> {
    text::joined(duration_parts(seconds), " "@)
}

/// A duration in hours, minutes and seconds, such as `1h 5s`.
pub fn format_seconds(total_seconds: i64) -> (r: String)
    ensures
        r@ == duration_text(total_seconds as int),
{
    let mut parts: Vec<String> = Vec::new();
    let ghost total = total_seconds as int;
    let rest: i128 = if total_seconds >= 0 {
        let hours: u64 = total_seconds as u64 / 3600;
        let minutes: u64 = (total_seconds as u64 % 3600) / 60;
        if hours > 0 {
            parts.push(text::decimal_text(hours as u128).concat("h"));
        }
        if minutes > 0 {
            parts.push(text::decimal_text(minutes as u128).concat("m"));
        }
        (total_seconds as u64 % 60) as i128
    } else {
        -(((-(total_seconds as i128)) as u128 % 60) as i128)
    };
    assert(rest == second_hand(total));
    assert(text::string_views(parts@) =~= hours_and_minutes(total));
    if rest > 0 || parts.is_empty() {
        parts.push(text::signed_text(rest).concat("s"));
    }
    assert(text::string_views(parts@) =~= duration_parts(total));
    text::join(&parts, " ")
}

/// The text of a weight: `amount` kilograms, or `amount` grams without a fraction of zero.
pub open spec fn weight_text(kilograms: bool, amount: Seq<char>) -> Seq<char> {
    if kilograms {
        amount + "kg"@
    } else if amount.len() >= 2 && amount.skip(amount.len() - 2) == ".0"@ {
        amount.take(amount.len() - 2) + "g"@
    } else {
        amount + "g"@
    }
}

/// The text of a weight, such as `12.5g` or `1.2kg`, of the number that `amount` writes with one
/// digit after the point.
pub fn format_weight(kilograms: bool, amount: &str) -> (r: String)
    ensures
        r@ == weight_text(kilograms, amount@),
{
    if kilograms {
        return amount.to_owned().concat("kg");
    }
    let len = amount.unicode_len();
    if len >= 2 {
        let ending = amount.substring_char(len - 2, len);
        assert(ending@ =~= amount@.skip(amount@.len() - 2));
        if text::same(ending, ".0") {
            return amount.substring_char(0, len - 2).to_owned().concat("g");
        }
    }
    amount.to_owned().concat("g")
}

/// What stands in for an instant whose two readings are `plain` and `rewritten`.
pub open spec fn first_reading(
    plain: Option<(i64, u32)>,
    rewritten: Option<(i64, u32)>,
) -> Option<Instant> {
    match (plain, rewritten) {
        (Some(at), _) => Some(Instant { secs: at.0, nanos: at.1 }),
        (None, Some(at)) => Some(Instant { secs: at.0, nanos: at.1 }),
        (None, None) => None,
    }
}

/// The instant that `text` names: as it stands, or with `+00:00` in the place of each `Z`.
pub open spec fn bambu_datetime(text: Seq<char>) -> Option<Instant> {
    first_reading(
        crate::time::rfc3339_instant(text),
        crate::time::rfc3339_instant(text::replaced(text, 'Z', "+00:00"@)),
    )
}

/// The instant that `text` names in RFC 3339 form, if it names one.
pub fn parse_bambu_datetime(text: &str) -> (r: Option<Instant>)
    ensures
        r == bambu_datetime(text@),
        r matches Some(at) ==> at.valid(),
{
    let reading = match read_rfc3339(text) {
        Some(at) => Some(at),
        None => read_rfc3339(text::replace_char(text, 'Z', "+00:00").as_str()),
    };
    match reading {
        Some(at) => Some(Instant { secs: at.0, nanos: at.1 }),
        None => None,
    }
}

/// A duration of so many hours, minutes and seconds is told by the ones that are not zero, in that
/// order, with spaces between them; one of nothing is `0s`.
pub proof fn law_duration_is_told_in_parts(hours: nat, minutes: nat, seconds: nat)
    requires
        minutes < 60,
        seconds < 60,
    ensures
        ({
            let told = duration_text((3600 * hours + 60 * minutes + seconds) as int);
            let h = text::decimal(hours).push('h');
            let m = text::decimal(minutes).push('m');
            let s = text::decimal(seconds).push('s');
            if hours > 0 && minutes > 0 && seconds > 0 {
                told == h + seq![' '] + m + seq![' '] + s
            } else if hours > 0 && minutes > 0 {
                told == h + seq![' '] + m
            } else if hours > 0 && seconds > 0 {
                told == h + seq![' '] + s
            } else if minutes > 0 && seconds > 0 {
                told == m + seq![' '] + s
            } else if hours > 0 {
                told == h
            } else if minutes > 0 {
                told == m
            } else {
                told == s
            }
        }),
{
    reveal_strlit("h");
    reveal_strlit("m");
    reveal_strlit("s");
    reveal_strlit(" ");
    assert(" "@ =~= seq![' ']);
    let total = (3600 * hours + 60 * minutes + seconds) as int;
    assert(total / 3600 == hours);
    assert(total % 3600 == 60 * minutes + seconds);
    assert((total % 3600) / 60 == minutes);
    assert(total % 60 == seconds);
    let h = text::decimal(hours).push('h');
    let m = text::decimal(minutes).push('m');
    let s = text::decimal(seconds).push('s');
    assert(text::decimal(hours) + "h"@ =~= h);
    assert(text::decimal(minutes) + "m"@ =~= m);
    assert(text::decimal(seconds) + "s"@ =~= s);
    let parts = duration_parts(total);
    let hm = hours_and_minutes(total);
    if hours > 0 && minutes > 0 {
        assert(hm =~= seq![h, m]);
    } else if hours > 0 {
        assert(hm =~= seq![h]);
    } else if minutes > 0 {
        assert(hm =~= seq![m]);
    } else {
        assert(hm =~= Seq::<Seq<char>>::empty());
    }
    text::law_separators_stand_between(seq![h, m], s, " "@);
    text::law_separators_stand_between(seq![h], m, " "@);
    text::law_separators_stand_between(seq![h], s, " "@);
    text::law_separators_stand_between(seq![m], s, " "@);
    text::law_separators_stand_between(seq![], h, " "@);
    text::law_separators_stand_between(seq![], m, " "@);
    text::law_separators_stand_between(seq![], s, " "@);
    assert(seq![h].push(m) =~= seq![h, m]);
    assert(seq![h].push(s) =~= seq![h, s]);
    assert(seq![m].push(s) =~= seq![m, s]);
    assert(seq![h, m].push(s) =~= seq![h, m, s]);
    if hours > 0 && minutes > 0 && seconds > 0 {
        assert(parts =~= seq![h, m, s]);
    } else if hours > 0 && minutes > 0 {
        assert(parts =~= seq![h, m]);
    } else if hours > 0 && seconds > 0 {
        assert(parts =~= seq![h, s]);
    } else if minutes > 0 && seconds > 0 {
        assert(parts =~= seq![m, s]);
    } else if hours > 0 {
        assert(parts =~= seq![h]);
    } else if minutes > 0 {
        assert(parts =~= seq![m]);
    } else {
        assert(parts =~= seq![s]);
    }
}

/// Of a negative duration, the seconds past the full minutes are told, and nothing else.
pub proof fn law_negative_duration_is_told_in_seconds(minutes: nat, seconds: nat)
    requires
        seconds < 60,
        minutes + seconds > 0,
    ensures
        duration_text(-(60 * minutes + seconds)) == (if seconds > 0 {
            seq!['-'] + text::decimal(seconds).push('s')
        } else {
            seq!['0', 's']
        }),
{
    reveal_strlit("s");
    let total = -(60 * minutes + seconds);
    assert((-total) % 60 == seconds);
    assert(hours_and_minutes(total) =~= Seq::<Seq<char>>::empty());
    let told = text::signed_decimal(-(seconds as int)) + "s"@;
    assert(duration_parts(total) =~= seq![told]);
    text::law_separators_stand_between(seq![], told, " "@);
    text::law_numbers_are_written_in_tens(seconds, 0);
    if seconds > 0 {
        assert(told =~= seq!['-'] + text::decimal(seconds).push('s'));
    } else {
        assert(told =~= seq!['0', 's']);
    }
}

/// Each kind of quantity is told by its number and its unit.
pub proof fn law_quantities_have_units(
    degrees: i64,
    temperature: String,
    amount: &str,
    percent: String,
    seconds: i64,
    duration: String,
)
    requires
        call_ensures(format_temperature, (degrees,), temperature),
        call_ensures(format_percent, (amount,), percent),
        call_ensures(format_seconds, (seconds,), duration),
    ensures
        temperature@ == text::signed_decimal(degrees as int).push('C'),
        percent@ == amount@.push('%'),
        duration@ == duration_text(seconds as int),
{
    reveal_strlit("C");
    reveal_strlit("%");
    assert(text::signed_decimal(degrees as int) + "C"@ =~= text::signed_decimal(
        degrees as int,
    ).push('C'));
    assert(amount@ + "%"@ =~= amount@.push('%'));
}

/// A weight in kilograms is told as it is written; one in grams too, but for a fraction of zero.
pub proof fn law_weights_have_units(
    number: Seq<char>,
    amount: &str,
    kilograms: String,
    grams: String,
)
    requires
        call_ensures(format_weight, (true, amount), kilograms),
        call_ensures(format_weight, (false, amount), grams),
    ensures
        kilograms@ == amount@ + seq!['k', 'g'],
        amount@ == number + seq!['.', '0'] ==> grams@ == number.push('g'),
        amount@.len() < 2 || amount@.last() != '0' || amount@[amount@.len() - 2] != '.' ==> grams@
            == amount@.push('g'),
{
    reveal_strlit("kg");
    reveal_strlit("g");
    reveal_strlit(".0");
    assert("kg"@ =~= seq!['k', 'g']);
    assert(amount@ + "g"@ =~= amount@.push('g'));
    assert(number + "g"@ =~= number.push('g'));
    if amount@ == number + seq!['.', '0'] {
        assert(amount@.skip(amount@.len() - 2) =~= ".0"@);
        assert(amount@.take(amount@.len() - 2) =~= number);
    }
    if amount@.len() >= 2 && amount@.skip(amount@.len() - 2) == ".0"@ {
        let ending = amount@.skip(amount@.len() - 2);
        assert(ending[0] == amount@[amount@.len() - 2] && ending[1] == amount@.last());
    }
}

/// An instant is read as it is written. Where that cannot be read and ends in a `Z`, an offset of
/// zero is read in its place.
pub proof fn law_instants_may_end_in_a_letter(text: &str, front: Seq<char>, r: Option<Instant>)
    requires
        call_ensures(parse_bambu_datetime, (text,), r),
        forall|i: int| 0 <= i < front.len() ==> front[i] != 'Z',
    ensures
        crate::time::rfc3339_instant(text@) matches Some(at) ==> r is Some && r->0.secs == at.0
            && r->0.nanos == at.1,
        crate::time::rfc3339_instant(text@) is None && text@ == front.push('Z') ==> {
            let read = crate::time::rfc3339_instant(front + seq!['+', '0', '0', ':', '0', '0']);
            &&& r is Some <==> read is Some
            &&& read matches Some(at) ==> r->0.secs == at.0 && r->0.nanos == at.1
        },
        crate::time::rfc3339_instant(text@) is None && text@ == front ==> r is None,
{
    reveal_strlit("+00:00");
    assert("+00:00"@ =~= seq!['+', '0', '0', ':', '0', '0']);
    lemma_nothing_to_replace(front);
    text::law_replacing_goes_by_characters(front, 'Z', "+00:00"@, 'Z');
}

proof fn lemma_nothing_to_replace(front: Seq<char>)
    requires
        forall|i: int| 0 <= i < front.len() ==> front[i] != 'Z',
    ensures
        text::replaced(front, 'Z', "+00:00"@) == front,
    decreases front.len(),
{
    if front.len() > 0 {
        lemma_nothing_to_replace(front.drop_last());
        assert(front.drop_last().push(front.last()) =~= front);
        text::law_replacing_goes_by_characters(
            front.drop_last(),
            'Z',
            "+00:00"@,
            front.last(),
        );
    }
}

} // verus!
