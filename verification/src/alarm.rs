//! Alarm records, their store, and the alarm time syntax (`30s`, `10m`, `1h 2m 3s`,
//! or a wall-clock `HH:MM`).
use vstd::prelude::*;
use chrono::Timelike;
use crate::numbers::{parse_unsigned, parse_unsigned_chars};
use crate::paths::{join_path, join_spec, GqyPaths};
use crate::text::{
    ascii_lower, char_ascii_lower, chars_of, find_char, has_char, split_ws,
    split_whitespace_chars, slice_chars, is_ws,
};

verus! {

/// Whether an alarm is waiting or currently ringing.
#[derive(Debug, Clone, Copy, PartialEq, Eq, Structural)]
pub enum AlarmStatus {
    Scheduled,
    Ringing,
}

/// One scheduled alarm.
#[derive(Debug, Clone)]
pub struct AlarmRecord {
    pub id: String,
    pub label: String,
    pub time: String,
    pub audio_file: Option<String>,
    pub due_at: i64,
    pub pid: Option<u32>,
    pub status: AlarmStatus,
    /// Repeat interval in seconds; 0 means the alarm rings once.
    pub repeat_seconds: u64,
    /// Most rings of a repeating alarm (0 = unlimited).
    pub max_rings: u64,
}

/// Why an alarm time was refused.
#[derive(Debug, Clone, Copy, PartialEq, Eq, Structural)]
pub enum AlarmTimeError {
    /// A token shorter than a number and a unit.
    InvalidTime,
    /// The number before the unit is not an unsigned integer.
    InvalidNumber,
    /// A unit other than `h`, `m` or `s`.
    InvalidUnit,
    /// The durations add up to zero.
    Zero,
    /// A wall-clock time that is not `H:M` with hour 0..=23 and minute 0..=59.
    InvalidClock,
}

impl AlarmRecord {
    /// A field-by-field copy.
    pub fn duplicate(&self) -> (r: AlarmRecord)
        ensures
            r == *self,
    {
        let audio_file = match &self.audio_file {
            Some(a) => Some(a.clone()),
            None => None,
        };
        AlarmRecord {
            id: self.id.clone(),
            label: self.label.clone(),
            time: self.time.clone(),
            audio_file,
            due_at: self.due_at,
            pid: self.pid,
            status: self.status,
            repeat_seconds: self.repeat_seconds,
            max_rings: self.max_rings,
        }
    }
}

pub fn alarms_file(paths: &GqyPaths) -> (r: String)
    ensures
        r@ == join_spec(paths.state_dir@, "alarms.json"@),
{
    join_path(paths.state_dir.as_str(), "alarms.json")
}

pub fn alarm_log_file(paths: &GqyPaths) -> (r: String)
    ensures
        r@ == join_spec(join_spec(paths.cache_dir@, "logs"@), "alarm.log"@),
{
    let logs = paths.logs_dir();
    join_path(logs.as_str(), "alarm.log")
}

/// `state/alarms/<id>.pid`: the worker process id of an alarm.
pub fn pid_file(paths: &GqyPaths, id: &str) -> (r: String)
    ensures
        r@ == join_spec(join_spec(paths.state_dir@, "alarms"@), id@ + ".pid"@),
{
    let dir = join_path(paths.state_dir.as_str(), "alarms");
    let mut name = id.to_string();
    name.append(".pid");
    join_path(dir.as_str(), name.as_str())
}

/// `state/alarms/<id>.lock`: the lock a live worker holds.
pub fn lock_file(paths: &GqyPaths, id: &str) -> (r: String)
    ensures
        r@ == join_spec(join_spec(paths.state_dir@, "alarms"@), id@ + ".lock"@),
{
    let dir = join_path(paths.state_dir.as_str(), "alarms");
    let mut name = id.to_string();
    name.append(".lock");
    join_path(dir.as_str(), name.as_str())
}

// ---------------------------------------------------------------- the store

pub open spec fn has_id(r: AlarmRecord, id: Seq<char>) -> bool {
    r.id@ == id
}

pub open spec fn without_id(rs: Seq<AlarmRecord>, id: Seq<char>) -> Seq<AlarmRecord> {
    rs.filter(|r: AlarmRecord| r.id@ != id)
}

pub open spec fn ids_unique(rs: Seq<AlarmRecord>) -> bool {
    forall|i: int, j: int| 0 <= i < j < rs.len() ==> rs[i].id@ != rs[j].id@
}

pub open spec fn id_count(rs: Seq<AlarmRecord>, id: Seq<char>) -> nat {
    rs.filter(|r: AlarmRecord| r.id@ == id).len()
}

fn same_id(a: &String, b: &str) -> (r: bool)
    ensures
        r == (a@ == b@),
{
    let x = chars_of(a.as_str());
    let y = chars_of(b);
    crate::text::seq_eq(x.as_slice(), y.as_slice())
}

/// Removes every record with the given id, returning the last one removed.
pub fn remove(records: &mut Vec<AlarmRecord>, id: &str) -> (removed: Option<AlarmRecord>)
    ensures
        final(records)@ == without_id(old(records)@, id@),
        match removed {
            Some(r) => exists|i: int|
                0 <= i < old(records)@.len() && old(records)@[i].id@ == id@ && r
                    == old(records)@[i] && forall|j: int|
                    i < j < old(records)@.len() ==> old(records)@[j].id@ != id@,
            None => forall|i: int| 0 <= i < old(records)@.len() ==> old(records)@[i].id@ != id@,
        },
{
    let ghost orig = records@;
    let ghost f = |r: AlarmRecord| r.id@ != id@;
    let mut kept: Vec<AlarmRecord> = Vec::new();
    let mut removed: Option<AlarmRecord> = None;
    let mut i: usize = 0;
    let n = records.len();
    while i < n
        invariant
            n == orig.len(),
            records@ == orig,
            i <= n,
            kept@ == orig.take(i as int).filter(f),
            f == (|r: AlarmRecord| r.id@ != id@),
            match removed {
                Some(r) => exists|k: int|
                    0 <= k < i && orig[k].id@ == id@ && r == orig[k] && forall|j: int|
                        k < j < i ==> orig[j].id@ != id@,
                None => forall|k: int| 0 <= k < i ==> orig[k].id@ != id@,
            },
        decreases n - i,
    {
        proof {
            reveal_with_fuel(Seq::filter, 1);
            assert(orig.take(i + 1).drop_last() == orig.take(i as int));
            assert(orig.take(i + 1).last() == orig[i as int]);
        }
        let r = records[i].duplicate();
        if same_id(&records[i].id, id) {
            removed = Some(r);
        } else {
            kept.push(r);
        }
        i += 1;
    }
    assert(orig.take(n as int) == orig);
    *records = kept;
    removed
}

} // verus!

verus! {

/// Inserts a record, replacing every record that had its id.
pub fn upsert(records: &mut Vec<AlarmRecord>, record: AlarmRecord)
    ensures
        final(records)@ == without_id(old(records)@, record.id@).push(record),
        ids_unique(old(records)@) ==> ids_unique(final(records)@),
{
    let ghost before = records@;
    let ghost rec = record;
    let _ = remove(records, record.id.as_str());
    records.push(record);
    proof {
        if ids_unique(before) {
            lemma_upsert_keeps_ids_unique(before, rec);
        }
    }
}

pub open spec fn with_status(r: AlarmRecord, status: AlarmStatus) -> AlarmRecord {
    AlarmRecord { status: status, ..r }
}

pub open spec fn is_first_with_id(rs: Seq<AlarmRecord>, id: Seq<char>, i: int) -> bool {
    0 <= i < rs.len() && rs[i].id@ == id && forall|j: int| 0 <= j < i ==> rs[j].id@ != id
}

/// Sets the status of the first record with the given id (nothing changes when
/// there is none).
pub fn update_status(records: &mut Vec<AlarmRecord>, id: &str, status: AlarmStatus)
    ensures
        (forall|i: int| 0 <= i < old(records)@.len() ==> old(records)@[i].id@ != id@) ==> final(records)@ == old(records)@,
        forall|i: int|
            is_first_with_id(old(records)@, id@, i) ==> final(records)@ == old(records)@.update(
                i,
                with_status(old(records)@[i], status),
            ),
{
    let mut i: usize = 0;
    while i < records.len()
        invariant
            i <= records.len(),
            records@ == old(records)@,
            forall|j: int| 0 <= j < i ==> records@[j].id@ != id@,
        decreases records.len() - i,
    {
        if same_id(&records[i].id, id) {
            let mut r = records[i].duplicate();
            r.status = status;
            records.set(i, r);
            assert forall|k: int| is_first_with_id(old(records)@, id@, k) implies k == i by {}
            return;
        }
        i += 1;
    }
}

/// The records a cleanup keeps: those without a worker, and those whose worker
/// is alive (`alive[i]` tells for `rs[i]`).
pub open spec fn live_only(rs: Seq<AlarmRecord>, alive: Seq<bool>) -> Seq<AlarmRecord>
    decreases rs.len(),
{
    if rs.len() == 0 || alive.len() != rs.len() {
        seq![]
    } else {
        let prev = live_only(rs.drop_last(), alive.drop_last());
        if rs.last().pid is None || alive.last() {
            prev.push(rs.last())
        } else {
            prev
        }
    }
}

/// Keeps the records whose worker is still alive, or that have no worker.
pub fn cleanup_dead(records: Vec<AlarmRecord>, alive: &[bool]) -> (active: Vec<AlarmRecord>)
    requires
        alive.len() == records.len(),
    ensures
        active@ == live_only(records@, alive@),
{
    let mut out: Vec<AlarmRecord> = Vec::new();
    let mut i: usize = 0;
    while i < records.len()
        invariant
            i <= records.len(),
            alive.len() == records.len(),
            out@ == live_only(records@.take(i as int), alive@.take(i as int)),
        decreases records.len() - i,
    {
        proof {
            assert(records@.take(i + 1).drop_last() == records@.take(i as int));
            assert(alive@.take(i + 1).drop_last() == alive@.take(i as int));
            assert(records@.take(i + 1).last() == records@[i as int]);
            assert(alive@.take(i + 1).last() == alive@[i as int]);
        }
        if records[i].pid.is_none() || alive[i] {
            out.push(records[i].duplicate());
        }
        i += 1;
    }
    assert(records@.take(records.len() as int) == records@);
    assert(alive@.take(records.len() as int) == alive@);
    out
}

/// The worker a cancellation stops: the pid file names it first, else the
/// removed record does.
pub fn pid_to_stop(pid_file_value: Option<u32>, removed: &Option<AlarmRecord>) -> (r: Option<u32>)
    ensures
        r == match pid_file_value {
            Some(p) => Some(p),
            None => match removed {
                Some(rec) => rec.pid,
                None => None,
            },
        },
{
    match pid_file_value {
        Some(p) => Some(p),
        None => match removed {
            Some(rec) => rec.pid,
            None => None,
        },
    }
}

/// Cancelling removes the records with the id, reports whether one was there,
/// and names the worker to stop.
pub fn cancel(records: &mut Vec<AlarmRecord>, id: &str, pid_file_value: Option<u32>) -> (r: (bool, Option<u32>))
    ensures
        final(records)@ == without_id(old(records)@, id@),
        r.0 == exists|i: int| 0 <= i < old(records)@.len() && old(records)@[i].id@ == id@,
        pid_file_value is Some ==> r.1 == pid_file_value,
        (pid_file_value is None && !exists|i: int| 0 <= i < old(records)@.len() && old(records)@[i].id@ == id@)
            ==> r.1 is None,
        (pid_file_value is None) ==> forall|i: int|
            (0 <= i < old(records)@.len() && old(records)@[i].id@ == id@ && forall|j: int|
                i < j < old(records)@.len() ==> old(records)@[j].id@ != id@) ==> r.1 == old(records)@[i].pid,
{
    let removed = remove(records, id);
    let pid = pid_to_stop(pid_file_value, &removed);
    (removed.is_some(), pid)
}

// ---------------------------------------------------------------- laws of the store

/// Upserting keeps alarm ids distinct: the store never holds two records
/// with one id.
pub proof fn lemma_upsert_keeps_ids_unique(rs: Seq<AlarmRecord>, rec: AlarmRecord)
    requires
        ids_unique(rs),
    ensures
        ids_unique(without_id(rs, rec.id@).push(rec)),
{
    let f = |r: AlarmRecord| r.id@ != rec.id@;
    let kept = rs.filter(f);
    broadcast use vstd::seq_lib::group_filter_ensures;
    assert forall|i: int, j: int| 0 <= i < j < kept.len() implies kept[i].id@ != kept[j].id@ by {
        lemma_filter_index_order(rs, f, i, j);
    }
    let s = kept.push(rec);
    assert forall|i: int, j: int| 0 <= i < j < s.len() implies s[i].id@ != s[j].id@ by {
        if j == s.len() - 1 {
            assert(f(kept[i]));
        } else {
            assert(s[i] == kept[i] && s[j] == kept[j]);
        }
    }
}

/// Filtering keeps elements in their original order: two kept elements come from
/// two distinct positions.
pub proof fn lemma_filter_index_order(rs: Seq<AlarmRecord>, f: spec_fn(AlarmRecord) -> bool, i: int, j: int)
    requires
        0 <= i < j < rs.filter(f).len(),
    ensures
        exists|a: int, b: int|
            0 <= a < b < rs.len() && rs[a] == rs.filter(f)[i] && rs[b] == rs.filter(f)[j],
    decreases rs.len(),
{
    reveal_with_fuel(Seq::filter, 1);
    let prev = rs.drop_last().filter(f);
    broadcast use vstd::seq_lib::group_filter_ensures;
    if f(rs.last()) && j == rs.filter(f).len() - 1 {
        assert(rs.filter(f) == prev.push(rs.last()));
        assert(rs.filter(f)[i] == prev[i]);
        assert(prev.contains(prev[i]));
        rs.drop_last().lemma_filter_contains_rev(f, prev[i]);
        let a = choose|a: int| 0 <= a < rs.drop_last().len() && rs.drop_last()[a] == prev[i];
        assert(rs.drop_last()[a] == rs[a]);
        assert(rs[a] == rs.filter(f)[i]);
        assert(rs[rs.len() - 1] == rs.filter(f)[j]);
    } else {
        if f(rs.last()) {
            assert(rs.filter(f) == prev.push(rs.last()));
        }
        assert(rs.filter(f)[i] == prev[i] && rs.filter(f)[j] == prev[j]);
        lemma_filter_index_order(rs.drop_last(), f, i, j);
        let (a, b) = choose|a: int, b: int|
            0 <= a < b < rs.drop_last().len() && rs.drop_last()[a] == prev[i] && rs.drop_last()[b]
                == prev[j];
        assert(rs.drop_last()[a] == rs[a] && rs.drop_last()[b] == rs[b]);
        assert(rs[a] == rs.filter(f)[i] && rs[b] == rs.filter(f)[j]);
    }
}

/// After an upsert the record is the only one with its id, and it is the last
/// record; a later removal of that id therefore gives it back and leaves the
/// store as it was without the id.
pub proof fn lemma_remove_after_upsert(rs: Seq<AlarmRecord>, rec: AlarmRecord)
    ensures
        ({
            let s = without_id(rs, rec.id@).push(rec);
            &&& s.last() == rec
            &&& forall|i: int| 0 <= i < s.len() - 1 ==> s[i].id@ != rec.id@
            &&& without_id(s, rec.id@) == without_id(rs, rec.id@)
        }),
{
    let f = |r: AlarmRecord| r.id@ != rec.id@;
    let kept = rs.filter(f);
    broadcast use vstd::seq_lib::group_filter_ensures;
    let s = kept.push(rec);
    assert forall|i: int| 0 <= i < s.len() - 1 implies s[i].id@ != rec.id@ by {
        assert(s[i] == kept[i]);
        assert(f(kept[i]));
    }
    reveal_with_fuel(Seq::filter, 1);
    assert(s.drop_last() == kept);
    assert(s.filter(f) == kept.filter(f));
    lemma_filter_all_pass(kept, f);
}

pub proof fn lemma_filter_all_pass(s: Seq<AlarmRecord>, f: spec_fn(AlarmRecord) -> bool)
    requires
        forall|i: int| 0 <= i < s.len() ==> f(#[trigger] s[i]),
    ensures
        s.filter(f) == s,
    decreases s.len(),
{
    reveal_with_fuel(Seq::filter, 1);
    if s.len() > 0 {
        assert forall|i: int| 0 <= i < s.drop_last().len() implies f(#[trigger] s.drop_last()[i]) by {
            assert(s.drop_last()[i] == s[i]);
        }
        lemma_filter_all_pass(s.drop_last(), f);
        assert(f(s[s.len() - 1]));
        assert(s.drop_last().push(s.last()) =~= s);
    }
}

/// Upserting the same record twice leaves what one upsert left.
pub proof fn lemma_upsert_idempotent(rs: Seq<AlarmRecord>, rec: AlarmRecord)
    ensures
        without_id(without_id(rs, rec.id@).push(rec), rec.id@).push(rec) == without_id(rs, rec.id@).push(rec),
{
    lemma_remove_after_upsert(rs, rec);
}

} // verus!

verus! {

// ---------------------------------------------------------------- alarm times

pub open spec fn is_ascii_char(c: char) -> bool {
    (c as u32) < 128
}

/// Seconds per unit letter (`h`, `m`, `s`, either case); 0 for any other letter.
pub open spec fn unit_seconds(c: char) -> nat {
    let l = ascii_lower(c);
    if l == 'h' {
        3600
    } else if l == 'm' {
        60
    } else if l == 's' {
        1
    } else {
        0
    }
}

/// Where reading a list of durations ends.
pub ghost enum DurationOutcome {
    Total(nat),
    Refused(AlarmTimeError),
    /// The input makes the reading stop abnormally: a token whose last character
    /// takes more than one byte, or a sum past `u64::MAX`.
    Aborts,
}

/// One `<number><unit>` token added to the running total.
pub open spec fn token_step(acc: nat, t: Seq<char>) -> DurationOutcome {
    if t.len() == 0 || (t.len() == 1 && is_ascii_char(t[0])) {
        DurationOutcome::Refused(AlarmTimeError::InvalidTime)
    } else if !is_ascii_char(t.last()) {
        DurationOutcome::Aborts
    } else {
        match parse_unsigned(t.drop_last(), u64::MAX as nat) {
            None => DurationOutcome::Refused(AlarmTimeError::InvalidNumber),
            Some(a) => {
                let unit = unit_seconds(t.last());
                if unit == 0 {
                    DurationOutcome::Refused(AlarmTimeError::InvalidUnit)
                } else if a * unit > u64::MAX || acc + a * unit > u64::MAX {
                    DurationOutcome::Aborts
                } else {
                    DurationOutcome::Total(acc + a * unit)
                }
            },
        }
    }
}

/// The tokens read left to right; the first refusal or abort ends the reading.
pub open spec fn sum_durations(tokens: Seq<Seq<char>>) -> DurationOutcome
    decreases tokens.len(),
{
    if tokens.len() == 0 {
        DurationOutcome::Total(0)
    } else {
        match sum_durations(tokens.drop_last()) {
            DurationOutcome::Total(acc) => token_step(acc, tokens.last()),
            other => other,
        }
    }
}

/// A single token holding a `:` is read as a wall-clock time.
pub open spec fn is_clock_form(tokens: Seq<Seq<char>>) -> bool {
    tokens.len() == 1 && has_char(tokens[0], ':')
}

pub open spec fn first_colon(t: Seq<char>) -> int {
    choose|k: int| 0 <= k < t.len() && t[k] == ':' && forall|j: int| 0 <= j < k ==> t[j] != ':'
}

/// The seconds after midnight that `H:M` names, or why it names none.
pub open spec fn clock_target(t: Seq<char>) -> Result<nat, AlarmTimeError> {
    let k = first_colon(t);
    match parse_unsigned(t.take(k), u32::MAX as nat) {
        None => Err(AlarmTimeError::InvalidNumber),
        Some(h) => match parse_unsigned(t.skip(k + 1), u32::MAX as nat) {
            None => Err(AlarmTimeError::InvalidNumber),
            Some(m) => if h > 23 || m > 59 {
                Err(AlarmTimeError::InvalidClock)
            } else {
                Ok(h * 3600 + m * 60)
            },
        },
    }
}

/// Whole seconds from a moment of the day (`now_sod` seconds and `now_nanos`
/// nanoseconds after midnight) to the next time the clock shows `target`; at
/// least 1.
pub open spec fn seconds_until(target: nat, now_sod: nat, now_nanos: nat) -> nat {
    let t = if target <= now_sod { target + 86400 } else { target };
    let d = t - now_sod - (if now_nanos > 0 { 1int } else { 0int });
    if d < 1 { 1 } else { d as nat }
}

/// The wait for a clock time is the next moment the clock shows it: from a
/// whole second of the day it is between one second and a full day, and the
/// time of day plus the wait is the target; past a whole second the partial
/// second is not counted, and at least one second is always waited. Hence two
/// different times of day never wait equally long for the same target.
pub proof fn lemma_wait_reaches_target(target: nat, sod: nat, other_sod: nat, nanos: nat)
    requires
        target < 86400,
        sod < 86400,
        other_sod < 86400,
    ensures
        nanos == 0 ==> 1 <= seconds_until(target, sod, nanos) <= 86400 && (sod + seconds_until(
            target,
            sod,
            nanos,
        )) % 86400 == target,
        nanos > 0 ==> seconds_until(target, sod, nanos) == if (target - sod - 1) % 86400 == 0 {
            1
        } else {
            (target - sod - 1) % 86400
        },
        sod != other_sod ==> seconds_until(target, sod, 0) != seconds_until(target, other_sod, 0),
{
    let t: int = if target <= sod { target + 86400int } else { target as int };
    assert((sod + (t - sod)) % 86400 == target);
    if target <= sod {
        assert((target - sod - 1) % 86400 == target + 86400 - sod - 1);
    } else {
        assert((target - sod - 1) % 86400 == target - sod - 1);
    }
    let u: int = if target <= other_sod { target + 86400int } else { target as int };
    assert((other_sod + (u - other_sod)) % 86400 == target);
}

/// The current local time of day: seconds after midnight and nanoseconds.
/// `chrono::Local::now()` builds the instant from the system clock's whole
/// seconds and sub-second nanoseconds (below one second, so never a leap second)
/// and shifts it by a whole-second offset; the contract states only those ranges.
#[verifier::external_body]
fn local_time_of_day() -> (r: (u32, u32))
    ensures
        r.0 < 86400,
        r.1 < 1_000_000_000,
{
    let now = chrono::Local::now().naive_local();
    (now.num_seconds_from_midnight(), now.nanosecond())
}

/// Seconds from the given time of day to the next `H:M`.
pub fn seconds_until_clock(value: &str, now_sod: u32, now_nanos: u32) -> (r: Result<u64, AlarmTimeError>)
    requires
        has_char(value@, ':'),
        now_sod < 86400,
        now_nanos < 1_000_000_000,
    ensures
        match clock_target(value@) {
            Ok(target) => r == Ok::<u64, AlarmTimeError>(seconds_until(target, now_sod as nat, now_nanos as nat) as u64),
            Err(e) => r == Err::<u64, AlarmTimeError>(e),
        },
        r matches Ok(secs) ==> 1 <= secs <= 86400 && (now_nanos == 0 ==> (now_sod + secs) % 86400
            == clock_target(value@)->Ok_0),
{
    let t = chars_of(value);
    let k = match find_char(t.as_slice(), ':') {
        Some(k) => k,
        None => { return Err(AlarmTimeError::InvalidClock); },
    };
    assert(k as int == first_colon(value@)) by {
        let c = first_colon(value@);
        assert(0 <= c < t@.len() && t@[c] == ':' && forall|j: int| 0 <= j < c ==> t@[j] != ':');
        assert(!(c < k)) ;
        assert(!(k < c));
    }
    let hour_chars = slice_chars(t.as_slice(), 0, k);
    let minute_chars = slice_chars(t.as_slice(), k + 1, t.len());
    assert(hour_chars@ == t@.take(k as int));
    assert(minute_chars@ == t@.skip(k + 1));
    let hour = match parse_unsigned_chars(hour_chars.as_slice(), u32::MAX as u64) {
        Some(h) => h,
        None => { return Err(AlarmTimeError::InvalidNumber); },
    };
    let minute = match parse_unsigned_chars(minute_chars.as_slice(), u32::MAX as u64) {
        Some(m) => m,
        None => { return Err(AlarmTimeError::InvalidNumber); },
    };
    if hour > 23 || minute > 59 {
        return Err(AlarmTimeError::InvalidClock);
    }
    let target = hour * 3600 + minute * 60;
    let now = now_sod as u64;
    let t_abs = if target <= now { target + 86400 } else { target };
    let adjust: u64 = if now_nanos > 0 { 1 } else { 0 };
    let d = t_abs - now;
    let r = if d <= adjust || d - adjust < 1 { 1 } else { d - adjust };
    Ok(r)
}

/// Seconds until an alarm given as `30s`, `10m`, `1h 2m 3s` (units `h`, `m`, `s` in
/// either case, summed) or as a wall-clock `HH:MM` (the next time the local clock
/// shows it).
pub fn parse_alarm_seconds(value: &str) -> (r: Result<u64, AlarmTimeError>)
    requires
        !is_clock_form(split_ws(value@)) ==> sum_durations(split_ws(value@)) != DurationOutcome::Aborts,
    ensures
        is_clock_form(split_ws(value@)) ==> match clock_target(split_ws(value@)[0]) {
            Ok(target) => r matches Ok(secs) && 1 <= secs <= 86400 && exists|sod: nat, nanos: nat|
                sod < 86400 && nanos < 1_000_000_000 && secs == seconds_until(target, sod, nanos),
            Err(e) => r == Err::<u64, AlarmTimeError>(e),
        },
        !is_clock_form(split_ws(value@)) ==> match sum_durations(split_ws(value@)) {
            DurationOutcome::Total(total) => if total == 0 {
                r == Err::<u64, AlarmTimeError>(AlarmTimeError::Zero)
            } else {
                r == Ok::<u64, AlarmTimeError>(total as u64)
            },
            DurationOutcome::Refused(e) => r == Err::<u64, AlarmTimeError>(e),
            DurationOutcome::Aborts => false,
        },
{
    let chars = chars_of(value);
    let parts = split_whitespace_chars(chars.as_slice());
    let ghost tokens = split_ws(value@);
    if parts.len() == 1 && crate::text::contains_char(parts[0].as_slice(), ':') {
        let (sod, nanos) = local_time_of_day();
        let token = crate::text::string_of(parts[0].as_slice());
        return seconds_until_clock(token.as_str(), sod, nanos);
    }
    assert(!is_clock_form(tokens));
    let mut total: u64 = 0;
    let mut i: usize = 0;
    while i < parts.len()
        invariant
            i <= parts.len(),
            parts@.len() == tokens.len(),
            forall|k: int| 0 <= k < parts@.len() ==> #[trigger] parts@[k]@ == tokens[k],
            sum_durations(tokens.take(i as int)) == DurationOutcome::Total(total as nat),
            sum_durations(tokens) != DurationOutcome::Aborts,
            tokens == split_ws(value@),
            !is_clock_form(tokens),
        decreases parts.len() - i,
    {
        let part = &parts[i];
        let ghost t = tokens[i as int];
        proof {
            assert(tokens.take(i + 1).drop_last() == tokens.take(i as int));
            assert(tokens.take(i + 1).last() == t);
            lemma_sum_prefix_stops(tokens, i + 1);
        }
        let n = part.len();
        if n == 0 || (n == 1 && (part[0] as u32) < 128) {
            proof { lemma_sum_refused_persists(tokens, i + 1); }
            return Err(AlarmTimeError::InvalidTime);
        }
        let unit = part[n - 1];
        if (unit as u32) >= 128 {
            proof { lemma_sum_aborts_persists(tokens, i + 1); }
            return Err(AlarmTimeError::InvalidTime);
        }
        let number = slice_chars(part.as_slice(), 0, n - 1);
        assert(number@ == t.drop_last());
        let amount = match parse_unsigned_chars(number.as_slice(), u64::MAX) {
            Some(a) => a,
            None => {
                proof { lemma_sum_refused_persists(tokens, i + 1); }
                return Err(AlarmTimeError::InvalidNumber);
            },
        };
        let l = char_ascii_lower(unit);
        let mult: u64 = if l == 'h' { 3600 } else if l == 'm' { 60 } else if l == 's' { 1 } else { 0 };
        assert(mult as nat == unit_seconds(t.last()));
        if mult == 0 {
            proof { lemma_sum_refused_persists(tokens, i + 1); }
            return Err(AlarmTimeError::InvalidUnit);
        }
        if amount > u64::MAX / mult || total > u64::MAX - amount * mult {
            proof {
                assert(amount * mult > u64::MAX || total + amount * mult > u64::MAX) by (nonlinear_arith)
                    requires
                        amount > u64::MAX / mult || (amount <= u64::MAX / mult && total > u64::MAX - amount * mult),
                        mult > 0,
                ;
                lemma_sum_aborts_persists(tokens, i + 1);
            }
            return Err(AlarmTimeError::InvalidTime);
        }
        proof {
            assert(amount * mult <= u64::MAX) by (nonlinear_arith)
                requires
                    amount <= u64::MAX / mult,
                    mult > 0,
            ;
        }
        total = total + amount * mult;
        i += 1;
    }
    assert(tokens.take(parts.len() as int) == tokens);
    if total == 0 {
        return Err(AlarmTimeError::Zero);
    }
    Ok(total)
}

/// Whether an alarm time can be read without the reading stopping abnormally
/// (a clock time always can; a duration unless a token ends in a character
/// of more than one byte or the sum passes `u64::MAX`). Callers holding a
/// user's text check this before `parse_alarm_seconds`.
pub fn alarm_time_readable(value: &str) -> (r: bool)
    ensures
        r == (!is_clock_form(split_ws(value@)) ==> sum_durations(split_ws(value@)) != DurationOutcome::Aborts),
{
    let chars = chars_of(value);
    let parts = split_whitespace_chars(chars.as_slice());
    let ghost tokens = split_ws(value@);
    if parts.len() == 1 && crate::text::contains_char(parts[0].as_slice(), ':') {
        return true;
    }
    assert(!is_clock_form(tokens));
    let mut total: u64 = 0;
    let mut i: usize = 0;
    while i < parts.len()
        invariant
            i <= parts.len(),
            parts@.len() == tokens.len(),
            forall|k: int| 0 <= k < parts@.len() ==> #[trigger] parts@[k]@ == tokens[k],
            sum_durations(tokens.take(i as int)) == DurationOutcome::Total(total as nat),
            tokens == split_ws(value@),
            !is_clock_form(tokens),
        decreases parts.len() - i,
    {
        let part = &parts[i];
        let ghost t = tokens[i as int];
        proof {
            assert(tokens.take(i + 1).drop_last() == tokens.take(i as int));
            assert(tokens.take(i + 1).last() == t);
        }
        let n = part.len();
        if n == 0 || (n == 1 && (part[0] as u32) < 128) {
            proof { lemma_sum_refused_persists(tokens, i + 1); }
            return true;
        }
        let unit = part[n - 1];
        if (unit as u32) >= 128 {
            proof { lemma_sum_aborts_persists(tokens, i + 1); }
            return false;
        }
        let number = slice_chars(part.as_slice(), 0, n - 1);
        assert(number@ == t.drop_last());
        let amount = match parse_unsigned_chars(number.as_slice(), u64::MAX) {
            Some(a) => a,
            None => {
                proof { lemma_sum_refused_persists(tokens, i + 1); }
                return true;
            },
        };
        let l = char_ascii_lower(unit);
        let mult: u64 = if l == 'h' { 3600 } else if l == 'm' { 60 } else if l == 's' { 1 } else { 0 };
        assert(mult as nat == unit_seconds(t.last()));
        if mult == 0 {
            proof { lemma_sum_refused_persists(tokens, i + 1); }
            return true;
        }
        if amount > u64::MAX / mult {
            proof {
                assert(amount * mult > u64::MAX) by (nonlinear_arith)
                    requires
                        amount > u64::MAX / mult,
                        mult > 0,
                ;
                lemma_sum_aborts_persists(tokens, i + 1);
            }
            return false;
        }
        proof {
            assert(amount * mult <= u64::MAX) by (nonlinear_arith)
                requires
                    amount <= u64::MAX / mult,
                    mult > 0,
            ;
        }
        if total > u64::MAX - amount * mult {
            proof {
                lemma_sum_aborts_persists(tokens, i + 1);
            }
            return false;
        }
        total = total + amount * mult;
        i += 1;
    }
    assert(tokens.take(parts.len() as int) == tokens);
    true
}

/// Once a prefix of the tokens is refused, the whole reading is refused the same way.
pub proof fn lemma_sum_refused_persists(tokens: Seq<Seq<char>>, k: int)
    requires
        0 <= k <= tokens.len(),
        sum_durations(tokens.take(k)) is Refused,
    ensures
        sum_durations(tokens) == sum_durations(tokens.take(k)),
    decreases tokens.len() - k,
{
    if k < tokens.len() {
        assert(tokens.take(k + 1).drop_last() == tokens.take(k));
        lemma_sum_refused_persists(tokens, k + 1);
    } else {
        assert(tokens.take(k) == tokens);
    }
}

/// Once a prefix of the tokens aborts, the whole reading aborts.
pub proof fn lemma_sum_aborts_persists(tokens: Seq<Seq<char>>, k: int)
    requires
        0 <= k <= tokens.len(),
        sum_durations(tokens.take(k)) == DurationOutcome::Aborts,
    ensures
        sum_durations(tokens) == DurationOutcome::Aborts,
    decreases tokens.len() - k,
{
    if k < tokens.len() {
        assert(tokens.take(k + 1).drop_last() == tokens.take(k));
        lemma_sum_aborts_persists(tokens, k + 1);
    } else {
        assert(tokens.take(k) == tokens);
    }
}

/// A reading that does not abort has no aborting prefix.
pub proof fn lemma_sum_prefix_stops(tokens: Seq<Seq<char>>, k: int)
    requires
        0 <= k <= tokens.len(),
        sum_durations(tokens) != DurationOutcome::Aborts,
    ensures
        sum_durations(tokens.take(k)) != DurationOutcome::Aborts,
{
    if sum_durations(tokens.take(k)) == DurationOutcome::Aborts {
        lemma_sum_aborts_persists(tokens, k);
    }
}

// ---------------------------------------------------------------- worker processes

/// The process id a pid file holds: its text trimmed, read as a `u32`.
pub open spec fn pid_in(text: Seq<char>) -> Option<nat> {
    parse_unsigned(crate::text::trim(text), u32::MAX as nat)
}

pub fn read_pid(text: &str) -> (r: Option<u32>)
    ensures
        match r {
            Some(p) => pid_in(text@) == Some(p as nat),
            None => pid_in(text@) is None,
        },
{
    let t = crate::text::trim_str(text);
    match parse_unsigned_chars(t.as_slice(), u32::MAX as u64) {
        Some(n) => Some(n as u32),
        None => None,
    }
}

/// The alarms whose workers left a pid file: the names ending in `.pid`,
/// without it.
pub open spec fn pid_ids(names: Seq<Seq<char>>) -> Seq<Seq<char>>
    decreases names.len(),
{
    if names.len() == 0 {
        seq![]
    } else {
        let prev = pid_ids(names.drop_last());
        let n = names.last();
        if crate::text::ends_with(n, ".pid"@) {
            prev.push(n.take(n.len() - 4))
        } else {
            prev
        }
    }
}

pub fn pid_file_ids(names: &[String]) -> (r: Vec<String>)
    ensures
        r@.map_values(|s: String| s@) == pid_ids(names@.map_values(|s: String| s@)),
{
    let ghost ns = names@.map_values(|s: String| s@);
    let mut out: Vec<String> = Vec::new();
    let mut i: usize = 0;
    while i < names.len()
        invariant
            i <= names@.len(),
            ns == names@.map_values(|s: String| s@),
            out@.map_values(|s: String| s@) == pid_ids(ns.take(i as int)),
        decreases names.len() - i,
    {
        let n = chars_of(names[i].as_str());
        proof {
            assert(ns.take(i + 1).drop_last() =~= ns.take(i as int));
            assert(ns.take(i + 1).last() == names@[i as int]@);
        }
        if crate::text::has_suffix_str(n.as_slice(), ".pid") {
            let ghost before = out@;
            proof {
                reveal_strlit(".pid");
            }
            let id = slice_chars(n.as_slice(), 0, n.len() - 4);
            out.push(crate::text::string_of(id.as_slice()));
            assert(out@.map_values(|s: String| s@) =~= before.map_values(|s: String| s@).push(n@.take(n@.len() - 4)));
        }
        i += 1;
    }
    assert(ns.take(names@.len() as int) =~= ns);
    out
}

/// What trying the worker's lock file showed.
#[derive(Debug, Clone, Copy, PartialEq, Eq, Structural)]
pub enum LockProbe {
    /// The lock was free: no worker holds it.
    Acquired,
    /// Another process holds the lock.
    Held,
    /// The lock file could not be opened or locked for another reason.
    Unavailable,
}

/// Whether an alarm's worker still runs: the lock says so when it can, else
/// whether its process exists.
pub fn worker_alive(probe: LockProbe, process_exists: bool) -> (r: bool)
    ensures
        r == match probe {
            LockProbe::Acquired => false,
            LockProbe::Held => true,
            LockProbe::Unavailable => process_exists,
        },
{
    match probe {
        LockProbe::Acquired => false,
        LockProbe::Held => true,
        LockProbe::Unavailable => process_exists,
    }
}

} // verus!
