//! The durable playtime table (`{ name: { playtime: seconds } }` in TOML)
//! and the append-only session log line.
use vstd::prelude::*;

use crate::duration::{duration_text, format_duration};

verus! {

#[verifier::external_type_specification]
#[verifier::external_body]
#[verifier::reject_recursive_types(K)]
#[verifier::reject_recursive_types(V)]
pub struct ExTomlMap<K, V>(toml::map::Map<K, V>);

#[verifier::external_type_specification]
#[verifier::external_body]
pub struct ExTomlValue(toml::Value);

/// A TOML value as the ledger reads it: an integer, a table, or anything else
/// (carried unchanged).
pub enum Field {
    Integer(i64),
    Table(toml::map::Map<String, toml::Value>),
    Other(toml::Value),
}

/// The fields that a TOML table holds, by key.
pub uninterp spec fn fields(t: toml::map::Map<String, toml::Value>) -> Map<Seq<char>, Field>;

/// The table that TOML text parses to, if it parses.
pub uninterp spec fn parsed(text: Seq<char>) -> Option<toml::map::Map<String, toml::Value>>;

/// The TOML text that a table serialises to, if it can be serialised.
pub uninterp spec fn rendered(t: toml::map::Map<String, toml::Value>) -> Option<Seq<char>>;

/// Relies on `toml::map::Map::new`: a table with no keys.
#[verifier::external_body]
fn new_table() -> (r: toml::map::Map<String, toml::Value>)
    ensures
        fields(r).dom() == Set::<Seq<char>>::empty(),
{
    toml::map::Map::new()
}

/// Relies on `toml::map::Map::remove`: hands out the value under `key`, if
/// any, and leaves the other keys as they were.
#[verifier::external_body]
fn take_field(t: &mut toml::map::Map<String, toml::Value>, key: &str) -> (r: Option<Field>)
    ensures
        r == (if fields(*old(t)).contains_key(key@) {
            Some(fields(*old(t))[key@])
        } else {
            None
        }),
        fields(*final(t)) == fields(*old(t)).remove(key@),
{
    match t.remove(key) {
        Some(toml::Value::Integer(i)) => Some(Field::Integer(i)),
        Some(toml::Value::Table(inner)) => Some(Field::Table(inner)),
        Some(other) => Some(Field::Other(other)),
        None => None,
    }
}

/// Relies on `toml::map::Map::insert`: `key` then holds `f`, replacing what
/// it held, and the other keys are unchanged.
#[verifier::external_body]
fn put_field(t: &mut toml::map::Map<String, toml::Value>, key: String, f: Field)
    requires
        !(f is Other),
    ensures
        fields(*final(t)) == fields(*old(t)).insert(key@, f),
{
    let v = match f {
        Field::Integer(i) => toml::Value::Integer(i),
        Field::Table(inner) => toml::Value::Table(inner),
        Field::Other(other) => other,
    };
    t.insert(key, v);
}

/// Relies on `toml::Table`'s `FromStr` (`toml::from_str`): the table that
/// the text holds, or nothing where it is not valid TOML.
#[verifier::external_body]
fn parse_table(text: &str) -> (r: Option<toml::map::Map<String, toml::Value>>)
    ensures
        r == parsed(text@),
{
    text.parse::<toml::Table>().ok()
}

/// Relies on `toml::to_string`: the TOML text of the table, or nothing where
/// the serialiser reports an error.
#[verifier::external_body]
fn table_text(t: &toml::map::Map<String, toml::Value>) -> (r: Option<String>)
    ensures
        match r {
            Some(s) => rendered(*t) == Some(s@),
            None => rendered(*t) is None,
        },
{
    toml::to_string(t).ok()
}

/// Why a commit to the playtime table did not happen.
#[derive(Debug, PartialEq, Eq, Structural, Clone, Copy)]
pub enum LedgerError {
    /// The table's text is not valid TOML.
    Malformed,
    /// The entry for the name is not a table.
    NotATable,
    /// The entry's `playtime` is not an integer.
    NotAnInteger,
    /// The new total does not fit in a TOML integer.
    Overflow,
    /// The updated table could not be serialised.
    Unwritable,
}

/// The key under which an entry keeps its accumulated seconds.
pub open spec fn playtime_key() -> Seq<char> {
    seq!['p', 'l', 'a', 'y', 't', 'i', 'm', 'e']
}

/// The fields of the entry for `name`, empty where there is no such entry.
pub open spec fn entry_fields(t: toml::map::Map<String, toml::Value>, name: Seq<char>) -> Map<
    Seq<char>,
    Field,
> {
    if fields(t).contains_key(name) {
        match fields(t)[name] {
            Field::Table(inner) => fields(inner),
            _ => Map::empty(),
        }
    } else {
        Map::empty()
    }
}

/// The seconds recorded for `name`: zero for a missing entry or a missing
/// `playtime`, an error where the entry or its `playtime` has the wrong shape.
pub open spec fn recorded(t: toml::map::Map<String, toml::Value>, name: Seq<char>) -> Result<
    i64,
    LedgerError,
> {
    if !fields(t).contains_key(name) {
        Ok(0)
    } else {
        match fields(t)[name] {
            Field::Table(inner) => if !fields(inner).contains_key(playtime_key()) {
                Ok(0)
            } else {
                match fields(inner)[playtime_key()] {
                    Field::Integer(i) => Ok(i),
                    _ => Err(LedgerError::NotAnInteger),
                }
            },
            _ => Err(LedgerError::NotATable),
        }
    }
}

/// The total that committing `seconds` for `name` stores, or why it cannot.
pub open spec fn commit_total(t: toml::map::Map<String, toml::Value>, name: Seq<char>, seconds: nat) -> Result<
    i64,
    LedgerError,
> {
    match recorded(t, name) {
        Err(e) => Err(e),
        Ok(prev) => if prev + seconds > i64::MAX {
            Err(LedgerError::Overflow)
        } else {
            Ok((prev + seconds) as i64)
        },
    }
}

/// `after` is `before` with the entry for `name` a table whose `playtime` is
/// `total`; every other key, and the entry's other keys, are kept.
pub open spec fn committed(
    before: toml::map::Map<String, toml::Value>,
    after: toml::map::Map<String, toml::Value>,
    name: Seq<char>,
    total: i64,
) -> bool {
    &&& fields(after).remove(name) == fields(before).remove(name)
    &&& fields(after).contains_key(name)
    &&& fields(after)[name] is Table
    &&& entry_fields(after, name) == entry_fields(before, name).insert(
        playtime_key(),
        Field::Integer(total),
    )
}

/// Adds `seconds` to the `playtime` of the entry for `name`, creating the
/// entry or the key at zero where absent.
pub fn commit(table: toml::map::Map<String, toml::Value>, name: &str, seconds: u64) -> (r: Result<
    toml::map::Map<String, toml::Value>,
    LedgerError,
>)
    ensures
        match commit_total(table, name@, seconds as nat) {
            Ok(total) => r matches Ok(after) && committed(table, after, name@, total),
            Err(e) => r == Err::<toml::map::Map<String, toml::Value>, LedgerError>(e),
        },
{
    let mut t = table;
    let key = "playtime";
    proof {
        reveal_strlit("playtime");
    }
    assert(key@ =~= playtime_key());
    let (mut inner, prev): (toml::map::Map<String, toml::Value>, i64) = match take_field(&mut t, name) {
        None => (new_table(), 0),
        Some(Field::Table(entry)) => {
            let mut entry = entry;
            match take_field(&mut entry, key) {
                None => (entry, 0),
                Some(Field::Integer(i)) => (entry, i),
                Some(_) => {
                    return Err(LedgerError::NotAnInteger);
                },
            }
        },
        Some(_) => {
            return Err(LedgerError::NotATable);
        },
    };
    assert(prev as int == recorded(table, name@)->Ok_0);
    assert(fields(inner) == entry_fields(table, name@).remove(playtime_key()));
    let sum: i128 = prev as i128 + seconds as i128;
    if sum > i64::MAX as i128 {
        return Err(LedgerError::Overflow);
    }
    let total = sum as i64;
    put_field(&mut inner, String::from_str(key), Field::Integer(total));
    proof {
        assert(fields(inner) =~= entry_fields(table, name@).insert(
            playtime_key(),
            Field::Integer(total),
        ));
    }
    put_field(&mut t, String::from_str(name), Field::Table(inner));
    proof {
        assert(fields(t).remove(name@) =~= fields(table).remove(name@));
    }
    Ok(t)
}

/// Commits `seconds` for `name` to a playtime table given as TOML text and
/// returns the updated text.
pub fn commit_text(text: &str, name: &str, seconds: u64) -> (r: Result<String, LedgerError>)
    ensures
        match parsed(text@) {
            None => r == Err::<String, LedgerError>(LedgerError::Malformed),
            Some(before) => match commit_total(before, name@, seconds as nat) {
                Err(e) => r == Err::<String, LedgerError>(e),
                Ok(total) => exists|after: toml::map::Map<String, toml::Value>|
                    #![trigger committed(before, after, name@, total)]
                    committed(before, after, name@, total) && match rendered(after) {
                        Some(out) => r matches Ok(s) && s@ == out,
                        None => r == Err::<String, LedgerError>(LedgerError::Unwritable),
                    },
            },
        },
{
    let table = match parse_table(text) {
        Some(t) => t,
        None => {
            return Err(LedgerError::Malformed);
        },
    };
    let ghost before = table;
    let after = match commit(table, name, seconds) {
        Ok(t) => t,
        Err(e) => {
            return Err(e);
        },
    };
    let r = match table_text(&after) {
        Some(s) => Ok(s),
        None => Err(LedgerError::Unwritable),
    };
    assert(committed(before, after, name@, commit_total(before, name@, seconds as nat)->Ok_0));
    r
}

/// Commits add up: after `a` seconds are committed for a name, committing
/// `b` more stores the same total as committing `a + b` at once, which is
/// also the total of committing `b` first and then `a`.
pub proof fn lemma_commit_additive(
    before: toml::map::Map<String, toml::Value>,
    mid: toml::map::Map<String, toml::Value>,
    name: Seq<char>,
    a: nat,
    b: nat,
    total: i64,
)
    requires
        commit_total(before, name, a) == Ok::<i64, LedgerError>(total),
        committed(before, mid, name, total),
    ensures
        recorded(mid, name) == Ok::<i64, LedgerError>(total),
        total == recorded(before, name)->Ok_0 + a,
        commit_total(mid, name, b) == commit_total(before, name, a + b),
        commit_total(mid, name, b) == commit_total(before, name, b + a),
{
    assert(entry_fields(mid, name).contains_key(playtime_key()));
}

/// The log line for a session of `seconds` that began at `stamp`.
pub open spec fn log_text(stamp: Seq<char>, name: Seq<char>, seconds: nat) -> Seq<char> {
    stamp + seq![' ', 'P', 'l', 'a', 'y', 'e', 'd', ' '] + name + seq![' ', 'f', 'o', 'r', ' ']
        + duration_text(seconds)
}

/// Formats one session log line: `<stamp> Played <name> for <duration>`.
pub fn log_line(stamp: &str, name: &str, seconds: u64) -> (r: String)
    ensures
        r@ == log_text(stamp@, name@, seconds as nat),
{
    let line = String::from_str(stamp);
    let line = line.concat(" Played ");
    let line = line.concat(name);
    let line = line.concat(" for ");
    let duration = format_duration(seconds);
    let line = line.concat(duration.as_str());
    proof {
        reveal_strlit(" Played ");
        reveal_strlit(" for ");
    }
    assert(line@ =~= log_text(stamp@, name@, seconds as nat));
    line
}

/// The instant `seconds` before `now`, both in seconds since the Unix epoch,
/// where it can be represented.
pub fn start_timestamp(now: i64, seconds: u64) -> (r: Option<i64>)
    ensures
        now - seconds >= i64::MIN ==> r == Some((now - seconds) as i64),
        now - seconds < i64::MIN ==> r is None,
{
    let start: i128 = now as i128 - seconds as i128;
    if start < i64::MIN as i128 {
        None
    } else {
        Some(start as i64)
    }
}

/// The first whole second that chrono can represent, in seconds since the
/// Unix epoch (the start of year -262143).
pub const MIN_TIMESTAMP: i64 = -8334601228800;

/// The last whole second that chrono can represent, in seconds since the
/// Unix epoch (the end of year 262142).
pub const MAX_TIMESTAMP: i64 = 8210266876799;

/// The instant lies in chrono's range.
pub open spec fn representable(ts: int) -> bool {
    MIN_TIMESTAMP <= ts <= MAX_TIMESTAMP
}

/// The RFC 3339 text, in whole seconds, of the instant `ts` shown at a
/// fixed `offset` east of UTC (`Z` where the offset is zero).
pub uninterp spec fn rfc3339_text(ts: i64, offset: i32) -> Seq<char>;

/// Relies on `From<SystemTime> for DateTime<Utc>` and `DateTime::timestamp`:
/// the current time in whole seconds since the Unix epoch, before the epoch
/// too, and always within chrono's range.
#[verifier::external_body]
fn unix_now() -> (r: i64)
    ensures
        representable(r as int),
{
    chrono::DateTime::<chrono::Utc>::from(std::time::SystemTime::now()).timestamp()
}

/// Relies on `DateTime::from_timestamp`, `DateTime::with_timezone(&Local)`
/// and `FixedOffset::local_minus_utc`: the machine's offset from UTC at the
/// instant `ts`, in seconds, nothing where `ts` is out of chrono's range.
/// The value depends on the machine's time zone; a `FixedOffset` is always
/// less than a day. (chrono panics where the machine's time zone data cannot
/// be read at all, which no argument decides.)
#[verifier::external_body]
fn local_offset_at(ts: i64) -> (r: Option<i32>)
    ensures
        r is Some <==> representable(ts as int),
        r matches Some(o) ==> -86400 < o < 86400,
{
    match chrono::DateTime::from_timestamp(ts, 0) {
        Some(utc) => Some(utc.with_timezone(&chrono::Local).offset().local_minus_utc()),
        None => None,
    }
}

/// Relies on `FixedOffset::east_opt`, `DateTime::from_timestamp`,
/// `NaiveDateTime::checked_add_offset` and `DateTime::to_rfc3339_opts`: the
/// RFC 3339 text of `ts` at `offset`, nothing where the offset is a day or
/// more, or the instant or its time at that offset is out of chrono's range (where `to_rfc3339_opts` would
/// panic).
#[verifier::external_body]
fn rfc3339_at(ts: i64, offset: i32) -> (r: Option<String>)
    ensures
        r is Some <==> (-86400 < offset < 86400 && representable(ts as int) && representable(
            ts + offset,
        )),
        r matches Some(s) ==> s@ == rfc3339_text(ts, offset),
{
    match (chrono::FixedOffset::east_opt(offset), chrono::DateTime::from_timestamp(ts, 0)) {
        (Some(zone), Some(utc)) => match utc.naive_utc().checked_add_offset(zone) {
            Some(_) => Some(
                utc.with_timezone(&zone).to_rfc3339_opts(chrono::SecondsFormat::Secs, true),
            ),
            None => None,
        },
        _ => None,
    }
}

/// The timestamp of a session of `seconds` that ends at `now`, shown at
/// `offset`: nothing where its start, or the start at that offset, is out
/// of chrono's range.
pub open spec fn session_stamp(now: i64, seconds: nat, offset: i32) -> Option<Seq<char>> {
    let start = now - seconds;
    if representable(start) && representable(start + offset) {
        Some(rfc3339_text(start as i64, offset))
    } else {
        None
    }
}

/// The log line for a session of `seconds` that ends at `now`, shown at
/// `offset`.
pub open spec fn session_line(now: i64, seconds: nat, offset: i32, name: Seq<char>) -> Option<
    Seq<char>,
> {
    match session_stamp(now, seconds, offset) {
        Some(stamp) => Some(log_text(stamp, name, seconds)),
        None => None,
    }
}

/// The log line for a session of `seconds` for `name` that ends now: its
/// start is `seconds` before the current time, shown in the machine's time
/// zone at that start. Nothing where that start, or its local time, is out
/// of chrono's range.
pub fn session_log_line(name: &str, seconds: u64) -> (r: Option<String>)
    ensures
        exists|now: i64, offset: i32|
            #![trigger session_line(now, seconds as nat, offset, name@)]
            representable(now as int) && -86400 < offset < 86400 && match r {
                Some(line) => session_line(now, seconds as nat, offset, name@) == Some(line@),
                None => session_line(now, seconds as nat, offset, name@) is None,
            },
{
    let now = unix_now();
    let start = match start_timestamp(now, seconds) {
        Some(s) => s,
        None => {
            assert(session_line(now, seconds as nat, 0, name@) is None);
            return None;
        },
    };
    if start < MIN_TIMESTAMP {
        assert(session_line(now, seconds as nat, 0, name@) is None);
        return None;
    }
    let offset = match local_offset_at(start) {
        Some(o) => o,
        None => {
            return None;
        },
    };
    match rfc3339_at(start, offset) {
        Some(stamp) => {
            let line = log_line(stamp.as_str(), name, seconds);
            assert(session_line(now, seconds as nat, offset, name@) == Some(line@));
            Some(line)
        },
        None => {
            assert(session_line(now, seconds as nat, offset, name@) is None);
            None
        },
    }
}

} // verus!
