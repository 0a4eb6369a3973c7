use vstd::prelude::*;

verus! {

/// The decimal digit character for `n < 10`.
pub open spec fn digit_char(n: nat) -> char {
    if n == 0 { '0' }
    else if n == 1 { '1' }
    else if n == 2 { '2' }
    else if n == 3 { '3' }
    else if n == 4 { '4' }
    else if n == 5 { '5' }
    else if n == 6 { '6' }
    else if n == 7 { '7' }
    else if n == 8 { '8' }
    else { '9' }
}

/// `n` written in decimal, without leading zeros.
pub open spec fn decimal(n: nat) -> Seq<char>
    decreases n,
{
    if n < 10 {
        seq![digit_char(n)]
    } else {
        decimal(n / 10) + seq![digit_char(n % 10)]
    }
}

/// The phrase for a distance of `d` seconds: the first row of the table
/// whose condition holds.
pub open spec fn phrase(d: nat, include_seconds: bool) -> Seq<char> {
    if d < 5 && include_seconds {
        "less than 5 seconds"@
    } else if d < 10 && include_seconds {
        "less than 10 seconds"@
    } else if d < 20 && include_seconds {
        "less than 20 seconds"@
    } else if d < 40 && include_seconds {
        "half a minute"@
    } else if d < 60 && include_seconds {
        "less than a minute"@
    } else if d < 90 && include_seconds {
        "1 minute"@
    } else if d < 30 {
        "less than a minute"@
    } else if d < 90 {
        "1 minute"@
    } else if d < 2700 {
        decimal(d / 60) + " minutes"@
    } else if d < 5400 {
        "about 1 hour"@
    } else if d < 86400 {
        "about "@ + decimal(d / 3600) + " hours"@
    } else if d < 172800 {
        "1 day"@
    } else if d < 2592000 {
        decimal(d / 86400) + " days"@
    } else if d < 5184000 {
        "about 1 month"@
    } else if d < 7776000 {
        "about 2 months"@
    } else if d < 31540000 {
        decimal(d / 2592000) + " months"@
    } else if d < 39425000 {
        "about 1 year"@
    } else if d < 55195000 {
        "over 1 year"@
    } else if d < 63080000 {
        "almost 2 years"@
    } else {
        years_phrase(d)
    }
}

/// The phrase for two years or more: whole years, qualified by the months
/// left over.
pub open spec fn years_phrase(d: nat) -> Seq<char> {
    let years = d / 31536000;
    let remaining_months = (d % 31536000) / 2592000;
    if remaining_months < 3 {
        "about "@ + decimal(years) + " years"@
    } else if remaining_months < 9 {
        "over "@ + decimal(years) + " years"@
    } else {
        "almost "@ + decimal(years + 1) + " years"@
    }
}

/// The direction word: a negative distance lies in the future.
pub open spec fn suffix(distance: int) -> Seq<char> {
    if distance < 0 {
        " from now"@
    } else {
        " ago"@
    }
}

pub open spec fn magnitude(distance: int) -> nat {
    if distance < 0 {
        (-distance) as nat
    } else {
        distance as nat
    }
}

/// The text for a signed distance in seconds, with the direction word
/// appended when `add_suffix` is set.
pub open spec fn distance_text(distance: int, include_seconds: bool, add_suffix: bool) -> Seq<char> {
    if add_suffix {
        phrase(magnitude(distance), include_seconds) + suffix(distance)
    } else {
        phrase(magnitude(distance), include_seconds)
    }
}

fn digit_str(n: u64) -> (r: &'static str)
    requires
        n < 10,
    ensures
        r@ == seq![digit_char(n as nat)],
{
    proof {
        reveal_strlit("0");
        reveal_strlit("1");
        reveal_strlit("2");
        reveal_strlit("3");
        reveal_strlit("4");
        reveal_strlit("5");
        reveal_strlit("6");
        reveal_strlit("7");
        reveal_strlit("8");
        reveal_strlit("9");
    }
    if n == 0 { "0" }
    else if n == 1 { "1" }
    else if n == 2 { "2" }
    else if n == 3 { "3" }
    else if n == 4 { "4" }
    else if n == 5 { "5" }
    else if n == 6 { "6" }
    else if n == 7 { "7" }
    else if n == 8 { "8" }
    else { "9" }
}

/// Appends `n` in decimal to `out`.
fn push_decimal(out: &mut String, n: u64)
    ensures
        final(out)@ == old(out)@ + decimal(n as nat),
    decreases n,
{
    if n >= 10 {
        push_decimal(out, n / 10);
    }
    out.append(digit_str(n % 10));
    assert(out@ =~= old(out)@ + decimal(n as nat));
}

/// `before`, then `n` in decimal, then `after`.
fn with_number(before: &str, n: u64, after: &str) -> (r: String)
    ensures
        r@ == before@ + decimal(n as nat) + after@,
{
    let mut s = String::from_str(before);
    push_decimal(&mut s, n);
    s.append(after);
    s
}

fn years_string(d: u64) -> (r: String)
    requires
        d >= 63080000,
    ensures
        r@ == years_phrase(d as nat),
{
    let years: u64 = d / 31536000;
    let remaining_months: u64 = (d % 31536000) / 2592000;
    if remaining_months < 3 {
        with_number("about ", years, " years")
    } else if remaining_months < 9 {
        with_number("over ", years, " years")
    } else {
        assert(years < u64::MAX) by (nonlinear_arith)
            requires years == d / 31536000;
        with_number("almost ", years + 1, " years")
    }
}

/// The phrase for a distance of `d` seconds, without direction.
fn phrase_string(d: u64, include_seconds: bool) -> (r: String)
    ensures
        r@ == phrase(d as nat, include_seconds),
{
    proof {
        reveal_strlit("");
    }
    if d < 5 && include_seconds {
        String::from_str("less than 5 seconds")
    } else if d < 10 && include_seconds {
        String::from_str("less than 10 seconds")
    } else if d < 20 && include_seconds {
        String::from_str("less than 20 seconds")
    } else if d < 40 && include_seconds {
        String::from_str("half a minute")
    } else if d < 60 && include_seconds {
        String::from_str("less than a minute")
    } else if d < 90 && include_seconds {
        String::from_str("1 minute")
    } else if d < 30 {
        String::from_str("less than a minute")
    } else if d < 90 {
        String::from_str("1 minute")
    } else if d < 2700 {
        let r = with_number("", d / 60, " minutes");
        assert(r@ =~= decimal((d / 60) as nat) + " minutes"@);
        r
    } else if d < 5400 {
        String::from_str("about 1 hour")
    } else if d < 86400 {
        with_number("about ", d / 3600, " hours")
    } else if d < 172800 {
        String::from_str("1 day")
    } else if d < 2592000 {
        let r = with_number("", d / 86400, " days");
        assert(r@ =~= decimal((d / 86400) as nat) + " days"@);
        r
    } else if d < 5184000 {
        String::from_str("about 1 month")
    } else if d < 7776000 {
        String::from_str("about 2 months")
    } else if d < 31540000 {
        let r = with_number("", d / 2592000, " months");
        assert(r@ =~= decimal((d / 2592000) as nat) + " months"@);
        r
    } else if d < 39425000 {
        String::from_str("about 1 year")
    } else if d < 55195000 {
        String::from_str("over 1 year")
    } else if d < 63080000 {
        String::from_str("almost 2 years")
    } else {
        years_string(d)
    }
}

/// The text for a signed distance whose magnitude fits in a `u64`.
fn text_for(distance: i128, include_seconds: bool, add_suffix: bool) -> (r: String)
    requires
        -(u64::MAX as int) <= distance <= u64::MAX,
    ensures
        r@ == distance_text(distance as int, include_seconds, add_suffix),
{
    let d: u64 = if distance < 0 {
        (0 - distance) as u64
    } else {
        distance as u64
    };
    let mut s = phrase_string(d, include_seconds);
    if add_suffix {
        if distance < 0 {
            s.append(" from now");
        } else {
            s.append(" ago");
        }
    }
    s
}

/// The English text for a signed distance in seconds: the phrase for its
/// magnitude, followed, when `add_suffix` is set, by " ago" for a distance
/// of zero or more and by " from now" for a negative one.
pub fn distance_string(distance: i64, include_seconds: bool, add_suffix: bool) -> (r: String)
    ensures
        r@ == distance_text(distance as int, include_seconds, add_suffix),
{
    text_for(distance as i128, include_seconds, add_suffix)
}

/// A wall-clock instant with second resolution and no time zone: the
/// number of non-leap seconds since 1970-01-01 00:00:00 in the frame in
/// which it was read.
#[derive(Copy, Clone, Debug, PartialEq, Eq, Structural)]
pub struct Timestamp {
    pub seconds: i64,
}

impl Timestamp {
    pub fn from_seconds(seconds: i64) -> (r: Timestamp)
        ensures
            r.seconds == seconds,
    {
        Timestamp { seconds }
    }
}

/// The signed distance from `date` back to `base_date`: positive when
/// `date` lies before `base_date`.
pub open spec fn seconds_between(date: Timestamp, base_date: Timestamp) -> int {
    base_date.seconds - date.seconds
}

fn distance_in_seconds(date: Timestamp, base_date: Timestamp) -> (r: i128)
    ensures
        r == seconds_between(date, base_date),
{
    base_date.seconds as i128 - date.seconds as i128
}

/// The text for the distance between `date` and `base_date`: " ago" when
/// `date` is not after `base_date`, " from now" when it is.
pub fn naive_format_distance(
    date: Timestamp,
    base_date: Timestamp,
    include_seconds: bool,
    add_suffix: bool,
) -> (r: String)
    ensures
        r@ == distance_text(seconds_between(date, base_date), include_seconds, add_suffix),
{
    let distance = distance_in_seconds(date, base_date);
    text_for(distance, include_seconds, add_suffix)
}

/// Relies on chrono's `Local::now().naive_local()`, read as seconds through
/// `and_utc().timestamp()`: the current local wall-clock time. Nothing is
/// known of the value read. `naive_local` panics only where the local offset
/// pushes the clock outside the roughly 262,000 years around 1970 that
/// chrono represents.
#[verifier::external_body]
fn local_now() -> (r: Timestamp) {
    Timestamp { seconds: chrono::offset::Local::now().naive_local().and_utc().timestamp() }
}

/// The text for the distance between `datetime` and the current local time.
pub fn naive_format_distance_from_now(
    datetime: Timestamp,
    include_seconds: bool,
    add_suffix: bool,
) -> (r: String)
    ensures
        exists|now: Timestamp|
            r@ == distance_text(seconds_between(datetime, now), include_seconds, add_suffix),
{
    let now = local_now();
    naive_format_distance(datetime, now, include_seconds, add_suffix)
}

/// With the direction word on, the text is the text without it followed by
/// " ago" for a distance of zero or more, and by " from now" otherwise.
pub proof fn lemma_suffix_appends_direction(distance: int, include_seconds: bool)
    ensures
        distance_text(distance, include_seconds, true) == distance_text(
            distance,
            include_seconds,
            false,
        ) + (if distance >= 0 {
            " ago"@
        } else {
            " from now"@
        }),
{
}

/// Without the direction word, the text depends on the magnitude of the
/// distance alone, not on its sign.
pub proof fn lemma_text_ignores_sign(distance: int, include_seconds: bool)
    ensures
        distance_text(distance, include_seconds, false) == distance_text(
            -distance,
            include_seconds,
            false,
        ),
{
}

/// The number of sub-minute buckets that precede the shared ones.
pub open spec fn head_len(include_seconds: bool) -> int {
    if include_seconds {
        6
    } else {
        2
    }
}

/// The number of buckets, the last of which has no upper bound.
pub open spec fn bucket_count(include_seconds: bool) -> int {
    head_len(include_seconds) + 12
}

/// The least distance, in seconds, that falls into bucket `i`.
pub open spec fn bucket_start(include_seconds: bool, i: int) -> int {
    if i < head_len(include_seconds) {
        if include_seconds {
            if i == 0 { 0 }
            else if i == 1 { 5 }
            else if i == 2 { 10 }
            else if i == 3 { 20 }
            else if i == 4 { 40 }
            else { 60 }
        } else {
            if i == 0 { 0 } else { 30 }
        }
    } else {
        let k = i - head_len(include_seconds);
        if k == 0 { 90 }
        else if k == 1 { 2700 }
        else if k == 2 { 5400 }
        else if k == 3 { 86400 }
        else if k == 4 { 172800 }
        else if k == 5 { 2592000 }
        else if k == 6 { 5184000 }
        else if k == 7 { 7776000 }
        else if k == 8 { 31540000 }
        else if k == 9 { 39425000 }
        else if k == 10 { 55195000 }
        else { 63080000 }
    }
}

/// Distance `d` lies in bucket `i`: from its start up to, but not including,
/// the next bucket's start.
pub open spec fn in_bucket(include_seconds: bool, i: int, d: int) -> bool {
    &&& 0 <= i < bucket_count(include_seconds)
    &&& bucket_start(include_seconds, i) <= d
    &&& (i + 1 == bucket_count(include_seconds) || d < bucket_start(include_seconds, i + 1))
}

/// The phrase that bucket `i` gives to a distance `d` in it.
pub open spec fn bucket_phrase(include_seconds: bool, i: int, d: nat) -> Seq<char> {
    if i < head_len(include_seconds) {
        if include_seconds {
            if i == 0 { "less than 5 seconds"@ }
            else if i == 1 { "less than 10 seconds"@ }
            else if i == 2 { "less than 20 seconds"@ }
            else if i == 3 { "half a minute"@ }
            else if i == 4 { "less than a minute"@ }
            else { "1 minute"@ }
        } else {
            if i == 0 { "less than a minute"@ } else { "1 minute"@ }
        }
    } else {
        let k = i - head_len(include_seconds);
        if k == 0 { decimal(d / 60) + " minutes"@ }
        else if k == 1 { "about 1 hour"@ }
        else if k == 2 { "about "@ + decimal(d / 3600) + " hours"@ }
        else if k == 3 { "1 day"@ }
        else if k == 4 { decimal(d / 86400) + " days"@ }
        else if k == 5 { "about 1 month"@ }
        else if k == 6 { "about 2 months"@ }
        else if k == 7 { decimal(d / 2592000) + " months"@ }
        else if k == 8 { "about 1 year"@ }
        else if k == 9 { "over 1 year"@ }
        else if k == 10 { "almost 2 years"@ }
        else { years_phrase(d) }
    }
}

/// Every distance falls into exactly one bucket, and its phrase is the one
/// that bucket gives: the buckets leave no gap and do not overlap.
pub proof fn lemma_buckets_partition(d: nat, include_seconds: bool)
    ensures
        exists|i: int| #[trigger] in_bucket(include_seconds, i, d as int),
        forall|i: int, j: int|
            #[trigger] in_bucket(include_seconds, i, d as int) && #[trigger] in_bucket(
                include_seconds,
                j,
                d as int,
            ) ==> i == j,
        forall|i: int| #[trigger]
            in_bucket(include_seconds, i, d as int) ==> phrase(d, include_seconds)
                == bucket_phrase(include_seconds, i, d),
{
    let s = include_seconds;
    let b = bucket_of(s, d as int);
    assert(in_bucket(s, b, d as int));
    assert forall|i: int| #[trigger] in_bucket(s, i, d as int) implies i == b by {
        if i < b {
            lemma_start_monotone(s, i + 1, b);
        } else if i > b {
            lemma_start_monotone(s, b + 1, i);
        }
    }
    assert(phrase(d, s) == bucket_phrase(s, b, d));
}

/// The bucket that a distance `d >= 0` falls into, by its start.
spec fn bucket_of(include_seconds: bool, d: int) -> int {
    let k = if d < 2700 {
        0int
    } else if d < 5400 {
        1
    } else if d < 86400 {
        2
    } else if d < 172800 {
        3
    } else if d < 2592000 {
        4
    } else if d < 5184000 {
        5
    } else if d < 7776000 {
        6
    } else if d < 31540000 {
        7
    } else if d < 39425000 {
        8
    } else if d < 55195000 {
        9
    } else if d < 63080000 {
        10
    } else {
        11
    };
    if d < 90 {
        if include_seconds {
            if d < 5 { 0 }
            else if d < 10 { 1 }
            else if d < 20 { 2 }
            else if d < 40 { 3 }
            else if d < 60 { 4 }
            else { 5 }
        } else {
            if d < 30 { 0 } else { 1 }
        }
    } else {
        head_len(include_seconds) + k
    }
}

proof fn lemma_start_monotone(include_seconds: bool, i: int, j: int)
    requires
        0 <= i <= j < bucket_count(include_seconds),
    ensures
        bucket_start(include_seconds, i) <= bucket_start(include_seconds, j),
    decreases j - i,
{
    if i < j {
        lemma_start_monotone(include_seconds, i + 1, j);
        assert(bucket_start(include_seconds, i) < bucket_start(include_seconds, i + 1));
    }
}

} // verus!
