use crate::error::SpeakError;
use crate::error::SpeakErrorView;
use crate::text::digit_char;
use crate::text::digit_val;
use crate::text::is_digit;
use vstd::prelude::*;
use vstd::std_specs::cmp::PartialEqSpec;
use vstd::string::StrSliceExecFns;

verus! {

/// Mathematical image of a `Day`: its three components as naturals (each
/// in fact fits in 32 bits).
pub ghost struct DayView {
    pub year: nat,
    pub month: nat,
    pub day: nat,
}

/// A calendar date as read from a history file: three numeric components,
/// kept exactly as parsed. No range validation is done: a month of 13 or
/// a day of 99 is accepted on purpose.
#[derive(Debug, PartialEq, Eq, Structural, Clone, Copy)]
pub struct Day {
    year: u32,
    month: u32,
    day: u32,
}

impl View for Day {
    type V = DayView;

    closed spec fn view(&self) -> DayView {
        DayView { year: self.year as nat, month: self.month as nat, day: self.day as nat }
    }
}

impl Day {
    /// Builds a date directly from its three components.
    pub fn new(year: u32, month: u32, day: u32) -> (d: Day)
        ensures
            d@ == (DayView { year: year as nat, month: month as nat, day: day as nat }),
    {
        Day { year, month, day }
    }
}

/// The fields of `s` from position `i` on when `s` is split at every `/`,
/// given the partial field `cur` read so far and the fields `acc` already
/// finished. Empty fields are kept.
pub open spec fn slash_split_from(s: Seq<char>, i: int, cur: Seq<char>, acc: Seq<Seq<char>>) -> Seq<
    Seq<char>,
>
    decreases s.len() - i,
    when 0 <= i <= s.len()
{
    if i == s.len() {
        acc.push(cur)
    } else if s[i] == '/' {
        slash_split_from(s, i + 1, Seq::empty(), acc.push(cur))
    } else {
        slash_split_from(s, i + 1, cur.push(s[i]), acc)
    }
}

/// The fields of `s` split at every `/`, in order, empty fields kept:
/// one more field than there are slashes.
pub open spec fn slash_split(s: Seq<char>) -> Seq<Seq<char>> {
    slash_split_from(s, 0, Seq::empty(), Seq::empty())
}

/// Every character of `t` is an ASCII decimal digit.
pub open spec fn all_digits(t: Seq<char>) -> bool {
    forall|j: int| 0 <= j < t.len() ==> is_digit(t[j])
}

/// The base-10 value of `t` read as digits, most significant first.
pub open spec fn digits_val(t: Seq<char>) -> nat
    decreases t.len(),
{
    if t.len() == 0 {
        0
    } else {
        digits_val(t.drop_last()) * 10 + digit_val(t.last())
    }
}

/// `t` parses as an unsigned 32-bit base-10 integer: non-empty, digits
/// only, and a value that fits.
pub open spec fn is_u32_token(t: Seq<char>) -> bool {
    t.len() > 0 && all_digits(t) && digits_val(t) <= u32::MAX
}

/// Reading more digits never shrinks the value: the value of a prefix of
/// `t` is at most the value of `t` itself.
pub proof fn lemma_digits_val_prefix(t: Seq<char>, k: int)
    requires
        0 <= k <= t.len(),
    ensures
        digits_val(t.subrange(0, k)) <= digits_val(t),
    decreases t.len() - k,
{
    if k == t.len() {
        assert(t.subrange(0, k) =~= t);
    } else {
        assert(t.subrange(0, k + 1).drop_last() =~= t.subrange(0, k));
        assert(t.subrange(0, k + 1).last() == t[k]);
        lemma_digits_val_prefix(t, k + 1);
    }
}

/// Parses `t` as an unsigned 32-bit base-10 integer; `None` exactly when
/// `t` is empty, holds a non-digit, or overflows 32 bits.
pub fn parse_u32(t: &str) -> (r: Option<u32>)
    ensures
        match r {
            Some(v) => is_u32_token(t@) && v as nat == digits_val(t@),
            None => !is_u32_token(t@),
        },
{
    let n = t.unicode_len();
    if n == 0 {
        return None;
    }
    let mut acc: u64 = 0;
    let mut i: usize = 0;
    while i < n
        invariant
            n == t@.len(),
            0 < n,
            i <= n,
            forall|j: int| 0 <= j < i ==> is_digit(t@[j]),
            acc as nat == digits_val(t@.subrange(0, i as int)),
            acc <= 0xFFFF_FFFFu64,
        decreases n - i,
    {
        let c = t.get_char(i);
        if !digit_char(c) {
            return None;
        }
        let d: u32 = c as u32 - 0x30;
        let next: u64 = acc * 10 + (d as u64);
        proof {
            assert(t@.subrange(0, i as int + 1).drop_last() =~= t@.subrange(0, i as int));
            assert(t@.subrange(0, i as int + 1).last() == t@[i as int]);
        }
        if next > 0xFFFF_FFFF {
            proof {
                if is_u32_token(t@) {
                    lemma_digits_val_prefix(t@, i as int + 1);
                    assert(false);
                }
            }
            return None;
        }
        acc = next;
        i += 1;
    }
    proof {
        assert(t@.subrange(0, n as int) =~= t@);
    }
    Some(acc as u32)
}

/// What parsing a date string returns: split at every `/`, the result is
/// a date exactly when that gives three fields that each parse as an
/// unsigned 32-bit integer, read positionally as month, day, year.
pub open spec fn spec_parse_day(s: Seq<char>) -> Option<DayView> {
    let ts = slash_split(s);
    if ts.len() == 3 && is_u32_token(ts[0]) && is_u32_token(ts[1]) && is_u32_token(ts[2]) {
        Some(
            DayView { year: digits_val(ts[2]), month: digits_val(ts[0]), day: digits_val(ts[1]) },
        )
    } else {
        None
    }
}

/// Splits `s` into its slash-separated fields, empty fields kept.
pub fn split_slash(s: &str) -> (toks: Vec<String>)
    ensures
        toks.deep_view() == slash_split(s@),
{
    let n = s.unicode_len();
    let mut toks: Vec<String> = Vec::new();
    let mut i: usize = 0;
    let mut start: usize = 0;
    proof {
        assert(toks.deep_view() =~= Seq::<Seq<char>>::empty());
        assert(s@.subrange(0, 0) =~= Seq::<char>::empty());
    }
    while i < n
        invariant
            n == s@.len(),
            i <= n,
            start <= i,
            slash_split(s@) == slash_split_from(
                s@,
                i as int,
                s@.subrange(start as int, i as int),
                toks.deep_view(),
            ),
        decreases n - i,
    {
        let ghost cur0 = s@.subrange(start as int, i as int);
        let ghost dv0 = toks.deep_view();
        let c = s.get_char(i);
        if c == '/' {
            let tok = s.substring_char(start, i).to_owned();
            toks.push(tok);
            proof {
                assert(toks.deep_view() =~= dv0.push(cur0));
                assert(slash_split_from(s@, i as int, cur0, dv0) == slash_split_from(
                    s@,
                    i as int + 1,
                    Seq::empty(),
                    dv0.push(cur0),
                ));
                assert(s@.subrange(i as int + 1, i as int + 1) =~= Seq::<char>::empty());
            }
            start = i + 1;
        } else {
            proof {
                assert(cur0.push(s@[i as int]) =~= s@.subrange(start as int, i as int + 1));
                assert(slash_split_from(s@, i as int, cur0, dv0) == slash_split_from(
                    s@,
                    i as int + 1,
                    cur0.push(s@[i as int]),
                    dv0,
                ));
            }
        }
        i += 1;
    }
    let tok = s.substring_char(start, n).to_owned();
    let ghost dv0 = toks.deep_view();
    toks.push(tok);
    proof {
        assert(toks.deep_view() =~= dv0.push(s@.subrange(start as int, n as int)));
    }
    toks
}

impl Day {
    /// Parses a slash-separated date string. The string must split at `/`
    /// into exactly three fields, each an unsigned 32-bit base-10 integer,
    /// read positionally as month, day, year; any other shape returns the
    /// original string inside the error.
    pub fn parse(s: &str) -> (r: Result<Day, SpeakError>)
        ensures
            spec_parse_day(s@) matches Some(dv) ==> (r matches Ok(d) && d@ == dv),
            spec_parse_day(s@) is None ==> (r matches Err(e) && e@ == SpeakErrorView::Date(s@)),
    {
        let toks = split_slash(s);
        proof {
            assert(toks@.len() == toks.deep_view().len());
        }
        if toks.len() != 3 {
            return Err(SpeakError::Date(s.to_owned()));
        }
        proof {
            assert(toks.deep_view()[0] == toks@[0]@);
            assert(toks.deep_view()[1] == toks@[1]@);
            assert(toks.deep_view()[2] == toks@[2]@);
        }
        let month = parse_u32(toks[0].as_str());
        let day = parse_u32(toks[1].as_str());
        let year = parse_u32(toks[2].as_str());
        match (month, day, year) {
            (Some(m), Some(d), Some(y)) => Ok(Day::new(y, m, d)),
            _ => Err(SpeakError::Date(s.to_owned())),
        }
    }
}

/// Law: date parsing is stateless — the result is a function of the input
/// characters alone, so two parses of the same input both succeed with
/// equal dates or both fail with equal errors.
pub proof fn lemma_parse_day_stateless(
    s: Seq<char>,
    r1: Result<Day, SpeakError>,
    r2: Result<Day, SpeakError>,
)
    requires
        spec_parse_day(s) matches Some(dv) ==> (r1 matches Ok(d) && d@ == dv),
        spec_parse_day(s) is None ==> (r1 matches Err(e) && e@ == SpeakErrorView::Date(s)),
        spec_parse_day(s) matches Some(dv) ==> (r2 matches Ok(d) && d@ == dv),
        spec_parse_day(s) is None ==> (r2 matches Err(e) && e@ == SpeakErrorView::Date(s)),
    ensures
        r1 matches Ok(d1) ==> (r2 matches Ok(d2) && d1 == d2),
        r1 matches Err(e1) ==> (r2 matches Err(e2) && e1.eq_spec(&e2)),
{
}

impl core::str::FromStr for Day {
    type Err = SpeakError;

    fn from_str(s: &str) -> Result<Day, SpeakError> {
        Day::parse(s)
    }
}

} // verus!
