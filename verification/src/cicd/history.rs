//! Build history for regression detection: the sizes of past builds, newest
//! first, at most a hundred of them. A build is a regression when it is more
//! than 5% larger than the latest recorded one.
use vstd::prelude::*;
use vstd::string::*;
use crate::clock::{ClockError, unix_now};
use crate::text::{dec, push_char, push_dec, push_str, zero_pad, zeros};

verus! {

broadcast use vstd::string::group_string_axioms;

/// Single build record in the history.
#[derive(Debug, Clone)]
pub struct BuildRecord {
    /// When the build was recorded, as an ISO 8601 UTC timestamp
    /// (`YYYY-MM-DDTHH:MM:SSZ`).
    pub timestamp: String,
    /// Build size in bytes.
    pub size_bytes: u64,
    /// Git commit hash, if known.
    pub commit_hash: Option<String>,
    /// Git branch, if known.
    pub branch: Option<String>,
}

/// The build history, newest record first.
#[derive(Debug, Clone)]
pub struct BuildHistory {
    /// Build records, newest first.
    pub records: Vec<BuildRecord>,
}

/// Result of a regression check.
#[derive(Debug, Clone, Copy, PartialEq, Eq)]
pub struct RegressionResult {
    /// Whether the size grew by more than 5%.
    pub is_regression: bool,
    /// Previous build size in bytes.
    pub previous_size: u64,
    /// Current build size in bytes.
    pub current_size: u64,
    /// Size difference in bytes (negative for a reduction).
    pub size_diff: i64,
}

/// The civil (proleptic Gregorian) date `(year, month, day)` of the day that
/// is `days` days after 1970-01-01: days are counted in 400-year eras of
/// 146097 days starting on 0000-03-01, and within an era by years that begin
/// on March 1st, so that the leap day closes the year.
pub open spec fn civil_from_days(days: nat) -> (int, int, int) {
    let z = days + 719468;
    let era = z / 146097;
    let doe = z % 146097;
    let yoe = (doe - doe / 1460 + doe / 36524 - doe / 146096) / 365;
    let doy = doe - (365 * yoe + yoe / 4 - yoe / 100);
    let mp = (5 * doy + 2) / 153;
    let day = doy - (153 * mp + 2) / 5 + 1;
    let month = if mp < 10 { mp + 3 } else { mp - 9 };
    let year = yoe + era * 400 + if month <= 2 { 1int } else { 0int };
    (year, month, day)
}

/// `n` written with at least two digits (`{:02}`).
pub open spec fn two_digits(n: int) -> Seq<char> {
    zero_pad(dec(n as nat), 2)
}

/// The ISO 8601 UTC timestamp `YYYY-MM-DDTHH:MM:SSZ` of the instant `secs`
/// seconds after the Unix epoch.
pub open spec fn timestamp_text(secs: u64) -> Seq<char> {
    let (year, month, day) = civil_from_days((secs / 86400) as nat);
    let rem = (secs % 86400) as int;
    zero_pad(dec(year as nat), 4) + "-"@ + two_digits(month) + "-"@ + two_digits(day) + "T"@
        + two_digits(rem / 3600) + ":"@ + two_digits(rem % 3600 / 60) + ":"@ + two_digits(
        rem % 60,
    ) + "Z"@
}

/// Within a 400-year era, the year of the era is at most 399 and the day of
/// that (March-based) year at most 365.
proof fn lemma_day_of_year_range(doe: int)
    requires
        0 <= doe < 146097,
    ensures
        ({
            let yoe = (doe - doe / 1460 + doe / 36524 - doe / 146096) / 365;
            let doy = doe - (365 * yoe + yoe / 4 - yoe / 100);
            &&& 0 <= yoe <= 399
            &&& 0 <= doy <= 365
        }),
{
}

/// The signed difference of two sizes, each taken as an `i64` (sizes above
/// `i64::MAX` wrap around, as `as i64` does).
pub open spec fn size_delta(previous: u64, current: u64) -> int {
    (current as i64) - (previous as i64)
}

/// A difference of `delta` bytes on a previous build of `previous` bytes is
/// more than a 5% increase; on an empty previous build any growth is.
pub open spec fn regression(previous: u64, delta: int) -> bool {
    if previous == 0 {
        delta > 0
    } else {
        100 * delta > 5 * previous
    }
}

/// The records after adding `r` to `records`: `r` first, then the older ones,
/// keeping at most the hundred newest.
pub open spec fn with_record(records: Seq<BuildRecord>, r: BuildRecord) -> Seq<BuildRecord> {
    let all = seq![r] + records;
    if all.len() > 100 {
        all.take(100)
    } else {
        all
    }
}

/// Appends `n` left-padded with zeros to at least `width` digits.
fn push_padded(s: &mut String, n: u64, width: usize)
    ensures
        final(s)@ == old(s)@ + zero_pad(dec(n as nat), width as nat),
{
    let mut digits = String::new();
    push_dec(&mut digits, n);
    let len = digits.unicode_len();
    let ghost start = s@;
    let mut i: usize = len;
    while i < width
        invariant
            len <= i <= width || (len >= width && i == len),
            len == dec(n as nat).len(),
            s@ == start + zeros((i - len) as nat),
        decreases width - i,
    {
        push_char(s, '0');
        assert(zeros((i + 1 - len) as nat) == zeros((i - len) as nat).push('0'));
        i = i + 1;
    }
    push_str(s, digits.as_str());
    proof {
        if len >= width {
            assert(zeros((i - len) as nat) == Seq::<char>::empty());
            assert(s@ == start + digits@);
        } else {
            assert(s@ == start + (zeros((width - len) as nat) + digits@));
        }
    }
}

/// The ISO 8601 UTC timestamp (`YYYY-MM-DDTHH:MM:SSZ`) of `secs` seconds after
/// the Unix epoch.
pub fn timestamp_from_secs(secs: u64) -> (r: String)
    ensures
        r@ == timestamp_text(secs),
{
    let days = secs / 86400;
    let rem = secs % 86400;
    let z = days + 719468;
    let era = z / 146097;
    let doe = z % 146097;
    proof {
        lemma_day_of_year_range(doe as int);
    }
    let yoe = (doe - doe / 1460 + doe / 36524 - doe / 146096) / 365;
    let doy = doe - (365 * yoe + yoe / 4 - yoe / 100);
    let mp = (5 * doy + 2) / 153;
    let day = doy - (153 * mp + 2) / 5 + 1;
    let month = if mp < 10 { mp + 3 } else { mp - 9 };
    let year = yoe + era * 400 + if month <= 2 { 1 } else { 0 };
    assert(civil_from_days(days as nat) == (year as int, month as int, day as int));
    let mut s = String::new();
    push_padded(&mut s, year, 4);
    push_char(&mut s, '-');
    push_padded(&mut s, month, 2);
    push_char(&mut s, '-');
    push_padded(&mut s, day, 2);
    push_char(&mut s, 'T');
    push_padded(&mut s, rem / 3600, 2);
    push_char(&mut s, ':');
    push_padded(&mut s, rem % 3600 / 60, 2);
    push_char(&mut s, ':');
    push_padded(&mut s, rem % 60, 2);
    push_char(&mut s, 'Z');
    proof {
        reveal_strlit("-");
        reveal_strlit("T");
        reveal_strlit(":");
        reveal_strlit("Z");
    }
    s
}

/// The current time as an ISO 8601 UTC timestamp (`YYYY-MM-DDTHH:MM:SSZ`). Fails with `BeforeUnixEpoch` only when the system
/// clock reads earlier than the epoch; which time comes back depends on the clock.
pub fn current_timestamp() -> (r: Result<String, ClockError>)
    ensures
        r matches Ok(t) ==> exists|secs: u64| t@ == timestamp_text(secs),
{
    match unix_now() {
        Ok((secs, _)) => {
            let t = timestamp_from_secs(secs);
            Ok(t)
        },
        Err(e) => Err(e),
    }
}

impl BuildRecord {
    /// A record of a build of `size_bytes` bytes, stamped with the current time,
    /// with the git commit hash and branch of the build where they are known.
    /// Fails only where `current_timestamp` does, when the clock reads earlier
    /// than the epoch.
    pub fn new(size_bytes: u64, commit_hash: Option<String>, branch: Option<String>) -> (r: Result<
        Self,
        ClockError,
    >)
        ensures
            r matches Ok(rec) ==> {
                &&& rec.size_bytes == size_bytes
                &&& rec.commit_hash == commit_hash
                &&& rec.branch == branch
                &&& exists|secs: u64| rec.timestamp@ == timestamp_text(secs)
            },
    {
        let timestamp = match current_timestamp() {
            Ok(t) => t,
            Err(e) => {
                return Err(e);
            },
        };
        Ok(BuildRecord { timestamp, size_bytes, commit_hash, branch })
    }
}

impl BuildHistory {
    /// The most records kept.
    pub const MAX_RECORDS: usize = 100;

    /// An empty history.
    pub fn new() -> (r: Self)
        ensures
            r.records@.len() == 0,
    {
        BuildHistory { records: Vec::new() }
    }

    /// Adds a record as the newest and drops the oldest beyond the hundredth.
    pub fn add_record(&mut self, record: BuildRecord)
        ensures
            final(self).records@ == with_record(old(self).records@, record),
            final(self).records@.len() <= 100,
    {
        self.records.insert(0, record);
        if self.records.len() > Self::MAX_RECORDS {
            self.records.truncate(Self::MAX_RECORDS);
        }
        proof {
            assert(self.records@.len() <= 100);
        }
    }

    /// The most recent record.
    pub fn latest(&self) -> (r: Option<&BuildRecord>)
        ensures
            self.records@.len() == 0 ==> r is None,
            self.records@.len() > 0 ==> r == Some(&self.records@[0]),
    {
        self.records.first()
    }

    /// Compares `current_size` with the latest record: `None` for an empty
    /// history, else the difference and whether it is a regression (more than a
    /// 5% increase). The difference must fit an `i64`.
    pub fn check_regression(&self, current_size: u64) -> (r: Option<RegressionResult>)
        requires
            self.records@.len() > 0 ==> i64::MIN <= size_delta(self.records@[0].size_bytes, current_size)
                <= i64::MAX,
        ensures
            self.records@.len() == 0 ==> r is None,
            self.records@.len() > 0 ==> r == Some(
                RegressionResult {
                    is_regression: regression(
                        self.records@[0].size_bytes,
                        size_delta(self.records@[0].size_bytes, current_size),
                    ),
                    previous_size: self.records@[0].size_bytes,
                    current_size,
                    size_diff: size_delta(self.records@[0].size_bytes, current_size) as i64,
                },
            ),
    {
        let previous = match self.latest() {
            Some(p) => p,
            None => {
                return None;
            },
        };
        let prev = previous.size_bytes;
        let size_diff = (current_size as i64) - (prev as i64);
        let is_regression = if prev == 0 {
            size_diff > 0
        } else {
            (size_diff as i128) * 100 > (prev as i128) * 5
        };
        Some(RegressionResult { is_regression, previous_size: prev, current_size, size_diff })
    }
}

impl Default for BuildHistory {
    fn default() -> (r: Self)
        ensures
            r.records@.len() == 0,
    {
        Self::new()
    }
}

/// Whatever was recorded before, a history holds at most a hundred records
/// after a record is added, and the added record is the latest.
pub proof fn lemma_add_record_bounded(records: Seq<BuildRecord>, r: BuildRecord)
    ensures
        with_record(records, r).len() <= 100,
        with_record(records, r)[0] == r,
        forall|i: int|
            1 <= i < with_record(records, r).len() ==> #[trigger] with_record(records, r)[i]
                == records[i - 1],
{
}

} // verus!
