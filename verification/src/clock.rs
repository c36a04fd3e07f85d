//! Moments as this machine's clock shows them, and how they are written.

use vstd::prelude::*;

verus! {

/// The first second that a calendar date can be given for.
pub const MIN_SECS: i64 = -8334601228800;

/// The last second that a calendar date can be given for.
pub const MAX_SECS: i64 = 8210266876799;

/// How the world list writes a moment.
pub const MINUTE_PATTERN: &'static str = "%Y-%m-%d %H:%M";

/// What `chrono` writes for the moment `secs` seconds after 1970 began in
/// Greenwich, `offset` seconds to its east, in the form of RFC 2822.
pub uninterp spec fn rfc2822_text(secs: i64, offset: i32) -> Seq<char>;

/// What `chrono` writes for that moment after a pattern.
pub uninterp spec fn pattern_text(secs: i64, offset: i32, pattern: Seq<char>) -> Seq<char>;

/// A moment that `chrono` has a calendar date for.
pub open spec fn has_date(secs: i64, offset: i32) -> bool {
    MIN_SECS <= secs <= MAX_SECS && -86400 < offset < 86400
}

/// A moment in a year from 0 to 9999, by the local calendar.
pub open spec fn has_short_year(secs: i64, offset: i32) -> bool {
    -62167219200 <= secs + offset <= 253402300799
}

/// Calls `chrono::DateTime::to_rfc2822` on the moment: the text depends on the
/// moment and the offset alone, and is one line. The years that the form has no
/// room for are left out; on them the call panics.
#[verifier::external_body]
fn rfc2822_of(secs: i64, offset: i32) -> (r: String)
    requires
        has_date(secs, offset),
        has_short_year(secs, offset),
    ensures
        r@ == rfc2822_text(secs, offset),
        !r@.contains('\n'),
{
    let east = chrono::FixedOffset::east_opt(offset).unwrap();
    chrono::DateTime::from_timestamp(secs, 0).unwrap().with_timezone(&east).to_rfc2822()
}

/// Calls `chrono::DateTime::format` on the moment: the text depends on the
/// moment, the offset and the pattern alone. Patterns other than the world
/// list's are left out; on some the call panics.
#[verifier::external_body]
fn pattern_of(secs: i64, offset: i32, pattern: &str) -> (r: String)
    requires
        has_date(secs, offset),
        pattern@ == MINUTE_PATTERN@,
    ensures
        r@ == pattern_text(secs, offset, pattern@),
{
    let east = chrono::FixedOffset::east_opt(offset).unwrap();
    chrono::DateTime::from_timestamp(secs, 0).unwrap().with_timezone(&east).format(pattern).to_string()
}

/// A moment, with the distance of the local clock from Greenwich.
#[derive(Debug, Clone, Copy)]
pub struct LocalTime {
    secs: i64,
    offset: i32,
}

impl LocalTime {
    #[verifier::type_invariant]
    spec fn dated(self) -> bool {
        has_date(self.secs, self.offset)
    }

    /// The seconds since 1970 began in Greenwich.
    pub closed spec fn at(self) -> i64 {
        self.secs
    }

    /// The seconds that the local clock is ahead.
    pub closed spec fn east(self) -> i32 {
        self.offset
    }

    /// The moment `secs` seconds after 1970 began, on a clock `offset` seconds
    /// ahead, if a calendar date can be given for it.
    pub fn new(secs: i64, offset: i32) -> (r: Option<LocalTime>)
        ensures
            match r {
                Some(t) => has_date(secs, offset) && t.at() == secs && t.east() == offset,
                None => !has_date(secs, offset),
            },
    {
        if MIN_SECS <= secs && secs <= MAX_SECS && -86400 < offset && offset < 86400 {
            Some(LocalTime { secs, offset })
        } else {
            None
        }
    }

    /// The moment lies in a year from 0 to 9999.
    pub open spec fn short_year(self) -> bool {
        has_short_year(self.at(), self.east())
    }

    /// Whether the moment lies in a year from 0 to 9999.
    pub fn is_short_year(&self) -> (r: bool)
        ensures
            r == self.short_year(),
    {
        proof {
            use_type_invariant(self);
        }
        let local: i64 = self.secs + self.offset as i64;
        -62167219200 <= local && local <= 253402300799
    }

    /// The moment in the form of RFC 2822, on one line.
    pub fn to_rfc2822(&self) -> (r: String)
        requires
            self.short_year(),
        ensures
            r@ == rfc2822_text(self.at(), self.east()),
            !r@.contains('\n'),
    {
        proof {
            use_type_invariant(self);
        }
        rfc2822_of(self.secs, self.offset)
    }

    /// The moment as the world list shows it.
    pub open spec fn minute(self) -> Seq<char> {
        pattern_text(self.at(), self.east(), MINUTE_PATTERN@)
    }

    /// The moment as the world list shows it: date, hour and minute.
    pub fn to_minute(&self) -> (r: String)
        ensures
            r@ == self.minute(),
    {
        proof {
            use_type_invariant(self);
        }
        pattern_of(self.secs, self.offset, MINUTE_PATTERN)
    }
}

} // verus!
