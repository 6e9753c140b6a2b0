//! The two requests of the service: looking up the greeting of a user, and
//! writing a user's date of birth.
//!
//! Each request is decided by a function of plain values, so that any table
//! of birthdays can stand behind it: [`lookup_reply`] answers a lookup from
//! what the table returned, [`birthday_from_request`] checks a write before
//! it reaches the table, and [`upsert_reply`] answers the write from what the
//! table said. [`get_birthday`] and [`set_birthday`] put them together over
//! the table that [`AppState`] holds.

use crate::calendar::{parsed_date, Date, MAX_YEAR};
use crate::countdown::{
    checked_days_until_next_anniversary, days_to_next_anniversary,
    law_leap_day_makes_the_longer_year, law_year_less_a_day, law_zero_on_the_day,
    leap_day_between, next_anniversary,
};
use crate::greeting::{greeting, greeting_text};
use crate::reply::{message_body, Reply, ReplyView, ServiceError, StoreError, NO_CONTENT, OK};
use crate::store::{BirthdayRecord, RecordStore};
use crate::username::{is_valid_username, valid_username};
use vstd::prelude::*;
use vstd::string::StringExecFns;

verus! {

/// What the handlers share: the table of birthdays.
#[derive(Clone, Debug)]
pub struct AppState {
    pub db: RecordStore,
}

/// The body of a write: the date of birth as the request spells it, a year,
/// a month and a day separated by `-`.
#[allow(non_snake_case)]
#[derive(Clone, Debug)]
pub struct RequestBody {
    pub dateOfBirth: String,
}

/// The answer to a lookup of `name` on the day `today`, where the table
/// returned `found`.
///
/// A failure of the table is reported as such, and a name without a birthday
/// as not found. A user with a birthday is greeted with the number of days to
/// its next anniversary. Where that anniversary lies after the last year of
/// the calendar it cannot be counted to, and the lookup fails on the clock.
pub open spec fn lookup_outcome(
    name: Seq<char>,
    found: Result<Option<Date>, StoreError>,
    today: Date,
) -> ReplyView {
    match found {
        Err(_) => ServiceError::Store.reply(),
        Ok(None) => ServiceError::NotFound.reply(),
        Ok(Some(birthday)) => if next_anniversary(birthday.month, birthday.day, today).year
            <= MAX_YEAR {
            ReplyView {
                status: OK,
                body: message_body(
                    greeting(
                        name,
                        days_to_next_anniversary(birthday.month, birthday.day, today) as nat,
                    ),
                ),
            }
        } else {
            ServiceError::Clock.reply()
        },
    }
}

/// The date of birth that a write of `date_text` under `name` stores, or
/// `None` where the write is refused: the username must be valid and the
/// text must hold a date.
pub open spec fn accepted_birthday(name: Seq<char>, date_text: Seq<char>) -> Option<Date> {
    if is_valid_username(name) {
        match parsed_date(date_text) {
            Some((year, month, day)) => Some(
                Date { year: year as i32, month: month as u32, day: day as u32 },
            ),
            None => None,
        }
    } else {
        None
    }
}

/// The answer to a write, where `written` tells how the table took it.
pub open spec fn upsert_outcome(written: Result<(), StoreError>) -> ReplyView {
    match written {
        Ok(_) => ReplyView { status: NO_CONTENT, body: Seq::empty() },
        Err(_) => ServiceError::Store.reply(),
    }
}

/// The table after a write of `date_text` under `name`: a write that is
/// accepted sets the birthday of `name` and leaves every other name as it
/// was, and a write that is refused changes nothing.
pub open spec fn table_after_write(
    table: Map<Seq<char>, Date>,
    name: Seq<char>,
    date_text: Seq<char>,
) -> Map<Seq<char>, Date> {
    match accepted_birthday(name, date_text) {
        Some(birthday) => table.insert(name, birthday),
        None => table,
    }
}

/// The answer to a write of `date_text` under `name` into a table that does
/// not fail.
pub open spec fn write_outcome(name: Seq<char>, date_text: Seq<char>) -> ReplyView {
    match accepted_birthday(name, date_text) {
        Some(_) => upsert_outcome(Ok(())),
        None => ServiceError::Validation.reply(),
    }
}

/// Answers a lookup of `name` on the day `today`, where the table returned
/// `found`.
pub fn lookup_reply(
    name: &str,
    found: Result<Option<Date>, StoreError>,
    today: Date,
) -> (reply: Reply)
    requires
        today.wf(),
        found matches Ok(Some(birthday)) ==> birthday.wf(),
    ensures
        reply@ == lookup_outcome(name@, found, today),
{
    match found {
        Err(_) => ServiceError::Store.to_reply(),
        Ok(None) => ServiceError::NotFound.to_reply(),
        Ok(Some(birthday)) => {
            match checked_days_until_next_anniversary(birthday.month, birthday.day, today) {
                Some(days) => {
                    let message = greeting_text(name, days);
                    Reply::message(OK, message.as_str())
                },
                None => ServiceError::Clock.to_reply(),
            }
        },
    }
}

/// Whether `reply` answers a lookup of `name`, for which the table returned
/// `found`, by some date that a clock may show: it is the answer on one day
/// of the calendar.
pub open spec fn answers_on_some_day(
    reply: ReplyView,
    name: Seq<char>,
    found: Result<Option<Date>, StoreError>,
) -> bool {
    exists|today: Date| today.wf() && reply == #[trigger] lookup_outcome(name, found, today)
}

/// Answers a lookup of `name` on the day that the clock shows, where the
/// table returned `found`. The clock is read only for a user with a birthday.
pub fn lookup_reply_now(name: &str, found: Result<Option<Date>, StoreError>) -> (reply: Reply)
    requires
        found matches Ok(Some(birthday)) ==> birthday.wf(),
    ensures
        found is Err ==> reply@ == ServiceError::Store.reply(),
        found == Ok::<Option<Date>, StoreError>(None) ==> reply@ == ServiceError::NotFound.reply(),
        found matches Ok(Some(_)) ==> answers_on_some_day(reply@, name@, found),
{
    match found {
        Err(_) => ServiceError::Store.to_reply(),
        Ok(None) => ServiceError::NotFound.to_reply(),
        Ok(Some(_)) => lookup_reply(name, found, Date::today()),
    }
}

/// Makes the record of a write under `name`, where `username_valid` tells
/// whether `name` is a valid username and `birthday` is the date that was
/// read from the body, if it held one. A write with a username that is not
/// valid, or without a date, fails validation.
pub fn checked_record(
    name: &str,
    username_valid: bool,
    birthday: Option<Date>,
) -> (checked: Result<BirthdayRecord, ServiceError>)
    ensures
        checked is Ok <==> username_valid && birthday is Some,
        checked matches Ok(record) ==> record.username@ == name@
            && Some(record.birthday) == birthday,
        checked matches Err(error) ==> error == ServiceError::Validation,
{
    match birthday {
        Some(birthday) if username_valid => Ok(
            BirthdayRecord { username: String::from_str(name), birthday },
        ),
        _ => Err(ServiceError::Validation),
    }
}

/// Checks a write of `payload` under `name`, and makes the record to store.
pub fn birthday_from_request(
    name: &str,
    payload: &RequestBody,
) -> (checked: Result<BirthdayRecord, ServiceError>)
    ensures
        checked is Ok <==> accepted_birthday(name@, payload.dateOfBirth@) is Some,
        checked matches Ok(record) ==> record.wf() && record.username@ == name@
            && Some(record.birthday) == accepted_birthday(name@, payload.dateOfBirth@),
        checked matches Err(error) ==> error == ServiceError::Validation,
{
    let username_valid = valid_username(name);
    let birthday = Date::parse(payload.dateOfBirth.as_str());
    checked_record(name, username_valid, birthday)
}

/// Answers a write, where `written` tells how the table took it.
pub fn upsert_reply(written: Result<(), StoreError>) -> (reply: Reply)
    ensures
        reply@ == upsert_outcome(written),
{
    match written {
        Ok(_) => Reply::empty(NO_CONTENT),
        Err(_) => ServiceError::Store.to_reply(),
    }
}

/// Looks up the greeting of `name` on the day `today`.
pub fn get_birthday_on(name: &str, state: &AppState, today: Date) -> (reply: Reply)
    requires
        state.db.wf(),
        today.wf(),
    ensures
        reply@ == lookup_outcome(name@, Ok(state.db@.get(name@)), today),
{
    let found = match state.db.find_by_username(name) {
        Some(record) => Some(record.birthday),
        None => None,
    };
    lookup_reply(name, Ok(found), today)
}

/// Looks up the greeting of `name` on the day that the clock shows.
///
/// A name without a birthday is not found, whatever the clock shows. A user
/// with a birthday gets the answer of [`get_birthday_on`] for the date of the
/// clock.
pub fn get_birthday(name: &str, state: &AppState) -> (reply: Reply)
    requires
        state.db.wf(),
    ensures
        !state.db@.contains_key(name@) ==> reply@ == ServiceError::NotFound.reply(),
        state.db@.contains_key(name@)
            ==> answers_on_some_day(reply@, name@, Ok(state.db@.get(name@))),
{
    let found = match state.db.find_by_username(name) {
        Some(record) => Some(record.birthday),
        None => None,
    };
    lookup_reply_now(name, Ok(found))
}

/// Writes the date of birth of `payload` under `name`.
///
/// A username that is not valid, or a date of birth that is no date, is
/// refused and leaves the table as it was. Otherwise the table holds the date
/// under `name`, in place of any date that it held there before.
pub fn set_birthday(name: &str, state: &mut AppState, payload: &RequestBody) -> (reply: Reply)
    requires
        old(state).db.wf(),
    ensures
        final(state).db.wf(),
        final(state).db@ == table_after_write(old(state).db@, name@, payload.dateOfBirth@),
        reply@ == write_outcome(name@, payload.dateOfBirth@),
{
    match birthday_from_request(name, payload) {
        Ok(record) => {
            state.db.insert(record);
            upsert_reply(Ok(()))
        },
        Err(error) => error.to_reply(),
    }
}

/// A lookup of a name that the table does not hold is answered with the
/// status 404 and the message "User not found", on every day.
pub proof fn law_unregistered_is_not_found(
    table: Map<Seq<char>, Date>,
    name: Seq<char>,
    today: Date,
)
    requires
        !table.contains_key(name),
    ensures
        lookup_outcome(name, Ok(table.get(name)), today) == (ReplyView {
            status: 404,
            body: message_body("User not found"@),
        }),
{
}

/// A write under a username that is not valid is answered with the status
/// 400 and no body, and leaves the table as it was.
pub proof fn law_invalid_username_is_refused(
    table: Map<Seq<char>, Date>,
    name: Seq<char>,
    date_text: Seq<char>,
)
    requires
        !is_valid_username(name),
    ensures
        write_outcome(name, date_text) == (ReplyView { status: 400, body: Seq::empty() }),
        table_after_write(table, name, date_text) == table,
{
}

/// A write that is accepted is answered with the status 204 and no body, and
/// a lookup of the same name afterwards is answered with the status 200 and
/// the greeting that counts the days to the date written; on a day with the
/// month and day of that date it counts 0 days.
pub proof fn law_write_then_lookup(
    table: Map<Seq<char>, Date>,
    name: Seq<char>,
    date_text: Seq<char>,
    today: Date,
)
    requires
        accepted_birthday(name, date_text) is Some,
        today.wf(),
        ({
            let birthday = accepted_birthday(name, date_text).unwrap();
            next_anniversary(birthday.month, birthday.day, today).year <= MAX_YEAR
        }),
    ensures
        write_outcome(name, date_text) == (ReplyView { status: 204, body: Seq::empty() }),
        ({
            let birthday = accepted_birthday(name, date_text).unwrap();
            let after = table_after_write(table, name, date_text);
            let days = days_to_next_anniversary(birthday.month, birthday.day, today);
            &&& lookup_outcome(name, Ok(after.get(name)), today) == (ReplyView {
                status: 200,
                body: message_body(greeting(name, days as nat)),
            })
            &&& today.month == birthday.month && today.day == birthday.day ==> days == 0
        }),
{
    let birthday = accepted_birthday(name, date_text).unwrap();
    if today.month == birthday.month && today.day == birthday.day {
        law_zero_on_the_day(birthday.month, birthday.day, today);
    }
}

/// A lookup on the day after the birthday greets with a count of 364 or 365
/// days: where `yesterday` had the month and day of the stored birthday and
/// `today` is the day after it. The count is 365 exactly when a 29 February
/// lies between `yesterday` and the next birthday, unless the birthday is
/// 29 February itself, for which it is 365.
pub proof fn law_lookup_on_the_day_after(
    name: Seq<char>,
    birthday: Date,
    yesterday: Date,
    today: Date,
)
    requires
        yesterday.wf(),
        today.wf(),
        today.day_number() == yesterday.day_number() + 1,
        yesterday.month == birthday.month,
        yesterday.day == birthday.day,
        next_anniversary(birthday.month, birthday.day, today).year <= MAX_YEAR,
    ensures
        ({
            let days = days_to_next_anniversary(birthday.month, birthday.day, today);
            let next = next_anniversary(birthday.month, birthday.day, today);
            &&& days == 364 || days == 365
            &&& lookup_outcome(name, Ok(Some(birthday)), today) == (ReplyView {
                status: 200,
                body: message_body(greeting(name, days as nat)),
            })
            &&& if birthday.month == 2 && birthday.day == 29 {
                days == 365
            } else {
                days == 365 <==> leap_day_between(yesterday.day_number(), next.day_number())
            }
        }),
{
    law_year_less_a_day(yesterday, today);
    law_leap_day_makes_the_longer_year(yesterday, today);
}

/// After two accepted writes under one username a lookup of it counts to the
/// date written last, on every day from which that count can be made, and
/// whatever else the table holds.
pub proof fn law_lookup_after_two_writes(
    table: Map<Seq<char>, Date>,
    name: Seq<char>,
    first_text: Seq<char>,
    second_text: Seq<char>,
    today: Date,
)
    requires
        accepted_birthday(name, first_text) is Some,
        accepted_birthday(name, second_text) is Some,
        today.wf(),
        ({
            let second = accepted_birthday(name, second_text).unwrap();
            next_anniversary(second.month, second.day, today).year <= MAX_YEAR
        }),
    ensures
        write_outcome(name, first_text).status == 204,
        write_outcome(name, second_text).status == 204,
        ({
            let second = accepted_birthday(name, second_text).unwrap();
            let after = table_after_write(
                table_after_write(table, name, first_text),
                name,
                second_text,
            );
            lookup_outcome(name, Ok(after.get(name)), today) == (ReplyView {
                status: 200,
                body: message_body(
                    greeting(
                        name,
                        days_to_next_anniversary(second.month, second.day, today) as nat,
                    ),
                ),
            })
        }),
{
}

/// Of two accepted writes under one username the second wins: the table is
/// then as if the first had never been made, so a lookup answers with the
/// date written last, and every other name keeps its date.
pub proof fn law_last_write_wins(
    table: Map<Seq<char>, Date>,
    name: Seq<char>,
    first_text: Seq<char>,
    second_text: Seq<char>,
)
    requires
        accepted_birthday(name, first_text) is Some,
        accepted_birthday(name, second_text) is Some,
    ensures
        table_after_write(table_after_write(table, name, first_text), name, second_text)
            == table_after_write(table, name, second_text),
        table_after_write(table, name, second_text).get(name)
            == accepted_birthday(name, second_text),
        forall|other: Seq<char>|
            other != name ==> #[trigger] table_after_write(
                table_after_write(table, name, first_text),
                name,
                second_text,
            ).get(other) == table.get(other),
{
    let first = accepted_birthday(name, first_text).unwrap();
    let second = accepted_birthday(name, second_text).unwrap();
    assert(table.insert(name, first).insert(name, second) =~= table.insert(name, second));
}

} // verus!
