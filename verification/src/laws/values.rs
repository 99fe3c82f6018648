//! What identifiers, times and names stand for.

use crate::ids::{base32, base32_digit, ulid_text, Timestamp, Ulid};
use crate::rows::{Level, State};
use crate::sql::{Param, ParamView, Statement};
use vstd::arithmetic::div_mod::lemma_div_denominator;
use vstd::arithmetic::power::{lemma_pow0, lemma_pow1, lemma_pow_adds, lemma_pow_positive, pow};
use vstd::prelude::*;

verus! {

/// A point in time is before another where its seconds are fewer, or as many and its nanoseconds
/// are fewer.
pub proof fn law_times_go_by_seconds_and_nanoseconds(a: Timestamp, b: Timestamp)
    ensures
        a.secs < b.secs ==> a.is_before(b),
        a.secs > b.secs ==> !a.is_before(b),
        a.secs == b.secs ==> (a.is_before(b) <==> a.nanos < b.nanos),
{
}

/// The states that end with the process that worked on them are those up to the start.
pub proof fn law_unfinished_states(state: State)
    ensures
        state.is_unfinished() == match state {
            State::Queued => true,
            State::Building => true,
            State::Built => true,
            State::Loading => true,
            State::Running => false,
            State::Completed => false,
            State::Stopped => false,
            State::Crashed => false,
        },
{
}

/// A deployment can be started where it is running, was stopped or is completed.
pub proof fn law_runnable_states(state: State)
    ensures
        state.is_runnable() == match state {
            State::Queued => false,
            State::Building => false,
            State::Built => false,
            State::Loading => false,
            State::Running => true,
            State::Completed => true,
            State::Stopped => true,
            State::Crashed => false,
        },
{
}

/// States and levels are stored under their own names.
pub proof fn law_stored_names()
    ensures
        State::Queued.stored_name() == "Queued"@,
        State::Building.stored_name() == "Building"@,
        State::Built.stored_name() == "Built"@,
        State::Loading.stored_name() == "Loading"@,
        State::Running.stored_name() == "Running"@,
        State::Completed.stored_name() == "Completed"@,
        State::Stopped.stored_name() == "Stopped"@,
        State::Crashed.stored_name() == "Crashed"@,
        Level::Trace.stored_name() == "Trace"@,
        Level::Debug.stored_name() == "Debug"@,
        Level::Info.stored_name() == "Info"@,
        Level::Warn.stored_name() == "Warn"@,
        Level::Error.stored_name() == "Error"@,
{
}

/// A statement consists of its text and of its bound values, and those of what they were made
/// from: nothing is cut, and null stands for nothing else than a value that is missing.
pub proof fn law_statements_hold_what_was_put_in(statement: Statement, value: Param)
    ensures
        statement@.sql == statement.sql@,
        statement@.values.len() == statement.values@.len(),
        forall|i: int|
            0 <= i < statement.values@.len() ==> #[trigger] statement@.values[i]
                == statement.values@[i]@,
        match value {
            Param::Null => value@ is Null,
            Param::Flag(flag) => value@ == ParamView::Flag(flag),
            Param::Number(number) => value@ == ParamView::Number(number),
            Param::Text(text) => value@ == ParamView::Text(text@),
            Param::Uuid(id) => value@ == ParamView::Uuid(id),
            Param::Time(time) => value@ == ParamView::Time(time),
            Param::Json(json) => value@ == ParamView::Json(json),
        },
{
}

/// Optional values are bound as they are, or as null where they are missing.
pub proof fn law_missing_values_are_null(text: String, flag: bool, number: u32)
    ensures
        ParamView::of_text(None) is Null,
        ParamView::of_text(Some(text)) == ParamView::Text(text@),
        ParamView::of_flag(None) is Null,
        ParamView::of_flag(Some(flag)) == ParamView::Flag(flag),
        ParamView::of_number(None) is Null,
        ParamView::of_number(Some(number)) == ParamView::Number(number),
{
}

proof fn lemma_base32_at(value: nat, digits: nat, i: int)
    requires
        0 <= i < digits,
    ensures
        base32(value, digits).len() == digits,
        base32(value, digits)[i] == base32_digit(
            (value as int / pow(32, (digits - 1 - i) as nat)) % 32,
        ),
    decreases digits,
{
    let rest = (digits - 1) as nat;
    lemma_base32_len(value / 32, rest);
    if i == rest {
        lemma_pow0(32);
    } else {
        let below = (digits - 2 - i) as nat;
        lemma_base32_at(value / 32, rest, i);
        lemma_pow_positive(32, below);
        lemma_pow1(32);
        lemma_pow_adds(32, 1, below);
        lemma_div_denominator(value as int, 32, pow(32, below));
    }
}

proof fn lemma_base32_len(value: nat, digits: nat)
    ensures
        base32(value, digits).len() == digits,
    decreases digits,
{
    if digits > 0 {
        lemma_base32_len(value / 32, (digits - 1) as nat);
    }
}

proof fn lemma_base32_alphabet(digit: int)
    requires
        0 <= digit < 32,
    ensures
        "0123456789ABCDEFGHJKMNPQRSTVWXYZ"@.len() == 32,
        base32_digit(digit) == "0123456789ABCDEFGHJKMNPQRSTVWXYZ"@[digit],
{
    reveal_strlit("0123456789ABCDEFGHJKMNPQRSTVWXYZ");
    if digit < 8 {
        assert(digit == 0 || digit == 1 || digit == 2 || digit == 3 || digit == 4 || digit == 5
            || digit == 6 || digit == 7);
    } else if digit < 16 {
        assert(digit == 8 || digit == 9 || digit == 10 || digit == 11 || digit == 12 || digit == 13
            || digit == 14 || digit == 15);
    } else if digit < 24 {
        assert(digit == 16 || digit == 17 || digit == 18 || digit == 19 || digit == 20 || digit
            == 21 || digit == 22 || digit == 23);
    } else {
        assert(digit == 24 || digit == 25 || digit == 26 || digit == 27 || digit == 28 || digit
            == 29 || digit == 30 || digit == 31);
    }
}

/// The text of a ULID has one digit of the alphabet for each five bits, the most significant
/// first.
pub proof fn law_ulid_text_is_its_digits(id: Ulid, i: int)
    requires
        0 <= i < 26,
    ensures
        ulid_text(id.value).len() == 26,
        ulid_text(id.value)[i]
            == "0123456789ABCDEFGHJKMNPQRSTVWXYZ"@[(id.value as int / pow(32, (25 - i) as nat))
            % 32],
{
    lemma_base32_at(id.value as nat, 26, i);
    lemma_base32_alphabet((id.value as int / pow(32, (25 - i) as nat)) % 32);
}

} // verus!
