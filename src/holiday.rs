use crate::date::{is_weekend, is_weekend_spec, iso_date_of, parse_iso_date, CalendarDate, ParseDateError};
use vstd::prelude::*;
use vstd::string::StrSliceExecFns;

verus! {

/// The text of a holiday line before the first `": "`, or the whole line
/// where it holds no such delimiter.
pub open spec fn date_field(s: Seq<char>) -> Seq<char>
    decreases s.len(),
{
    if s.len() < 2 {
        s
    } else if s[0] == ':' && s[1] == ' ' {
        Seq::empty()
    } else {
        seq![s[0]] + date_field(s.drop_first())
    }
}

/// The pieces of `s` between line feeds, in order; a text with `k` line
/// feeds has `k + 1` pieces.
pub open spec fn split_lines(s: Seq<char>) -> Seq<Seq<char>>
    decreases s.len(),
{
    if s.len() == 0 {
        seq![Seq::empty()]
    } else {
        let head = split_lines(s.drop_last());
        if s.last() == '\n' {
            head.push(Seq::empty())
        } else {
            head.update(head.len() - 1, head.last().push(s.last()))
        }
    }
}

/// The year, month and day of every line whose date field is a date, in
/// the order of the lines.
pub open spec fn listed_dates(lines: Seq<Seq<char>>) -> Seq<(int, int, int)>
    decreases lines.len(),
{
    if lines.len() == 0 {
        Seq::empty()
    } else {
        let rest = listed_dates(lines.drop_last());
        match iso_date_of(date_field(lines.last())) {
            Some(t) => rest.push(t),
            None => rest,
        }
    }
}

pub open spec fn ymds(dates: Seq<CalendarDate>) -> Seq<(int, int, int)> {
    dates.map_values(|d: CalendarDate| d.spec_ymd())
}

pub open spec fn is_holiday_spec(date: CalendarDate, holidays: Seq<CalendarDate>) -> bool {
    is_weekend_spec(date) || holidays.contains(date)
}

/// The holiday data could not be read.
#[derive(Clone, Copy, Debug, PartialEq, Eq, Structural)]
pub enum HolidayError {
    Unavailable,
}

/// The official holidays, in the order in which they were listed.
#[derive(Clone, Debug, PartialEq, Eq)]
pub struct Holidays {
    holiday_list: Vec<CalendarDate>,
}

impl View for Holidays {
    type V = Seq<CalendarDate>;

    closed spec fn view(&self) -> Seq<CalendarDate> {
        self.holiday_list@
    }
}

impl Holidays {
    /// A holiday set that holds the given dates.
    pub fn new(holiday_list: Vec<CalendarDate>) -> (r: Holidays)
        ensures
            r@ == holiday_list@,
    {
        Holidays { holiday_list }
    }

    /// Whether `date` is one of the listed holidays.
    pub fn contain(self, date: CalendarDate) -> (r: bool)
        ensures
            r == self@.contains(date),
    {
        let mut i: usize = 0;
        while i < self.holiday_list.len()
            invariant
                0 <= i <= self.holiday_list@.len(),
                forall|j: int| 0 <= j < i ==> self.holiday_list@[j] != date,
            decreases self.holiday_list@.len() - i,
        {
            if self.holiday_list[i] == date {
                return true;
            }
            i += 1;
        }
        false
    }

    /// The dates of the lines that carry one, in the order of the lines;
    /// lines without a date are passed over.
    pub fn from_str_list(str_list: Vec<&str>) -> (r: Result<Holidays, HolidayError>)
        ensures
            r matches Ok(h) && ymds(h@) == listed_dates(str_list@.map_values(|l: &str| l@)),
    {
        let ghost lines = str_list@.map_values(|l: &str| l@);
        let mut list: Vec<CalendarDate> = Vec::new();
        let mut i: usize = 0;
        while i < str_list.len()
            invariant
                0 <= i <= str_list@.len(),
                lines == str_list@.map_values(|l: &str| l@),
                ymds(list@) == listed_dates(lines.subrange(0, i as int)),
            decreases str_list@.len() - i,
        {
            let date_result = extract_date(str_list[i]);
            proof {
                assert(lines.subrange(0, i + 1).drop_last() =~= lines.subrange(0, i as int));
                assert(lines.subrange(0, i + 1).last() == str_list@[i as int]@);
            }
            match date_result {
                Ok(d) => {
                    let ghost before = list@;
                    list.push(d);
                    assert(ymds(list@) =~= ymds(before).push(d.spec_ymd()));
                },
                Err(_) => {},
            }
            i += 1;
        }
        assert(lines.subrange(0, str_list@.len() as int) =~= lines);
        Ok(Holidays { holiday_list: list })
    }

    /// The holidays listed in a text of `YYYY-MM-DD: description` lines.
    pub fn from_text(text: &str) -> (r: Holidays)
        ensures
            ymds(r@) == listed_dates(split_lines(text@)),
    {
        let lines = lines_of(text);
        Holidays::from_str_list(lines).unwrap()
    }

    /// The holidays of a text that was read, or the error where nothing could
    /// be read.
    pub fn load(content: Option<&str>) -> (r: Result<Holidays, HolidayError>)
        ensures
            content is None <==> r == Err::<Holidays, HolidayError>(HolidayError::Unavailable),
            content matches Some(t) ==> (r matches Ok(h) && ymds(h@) == listed_dates(
                split_lines(t@),
            )),
    {
        match content {
            Some(text) => Ok(Holidays::from_text(text)),
            None => Err(HolidayError::Unavailable),
        }
    }
}

/// The date at the start of a holiday line: the text before the first
/// `": "`, read as an ISO 8601 date.
pub fn extract_date(str: &str) -> (r: Result<CalendarDate, ParseDateError>)
    ensures
        match iso_date_of(date_field(str@)) {
            Some(t) => r matches Ok(d) && d.spec_ymd() == t,
            None => r is Err,
        },
{
    let field = date_field_of(str);
    parse_iso_date(field)
}

/// The text before the first `": "` of `s`, or all of `s`.
fn date_field_of(s: &str) -> (r: &str)
    ensures
        r@ == date_field(s@),
{
    let n = s.unicode_len();
    let mut i: usize = 0;
    assert(s@.subrange(0, n as int) =~= s@);
    assert(s@.subrange(0, 0) + s@ =~= s@);
    while n - i > 1
        invariant
            0 <= i <= n,
            n == s@.len(),
            date_field(s@) == s@.subrange(0, i as int) + date_field(s@.subrange(i as int, n as int)),
        decreases n - i,
    {
        let rest = Ghost(s@.subrange(i as int, n as int));
        if s.get_char(i) == ':' && s.get_char(i + 1) == ' ' {
            assert(date_field(rest@) =~= Seq::<char>::empty());
            assert(s@.subrange(0, i as int) + Seq::<char>::empty() =~= s@.subrange(0, i as int));
            return s.substring_char(0, i);
        }
        assert(rest@.drop_first() =~= s@.subrange(i + 1, n as int));
        assert(s@.subrange(0, i as int) + (seq![s@[i as int]] + date_field(s@.subrange(i + 1, n as int)))
            =~= s@.subrange(0, i + 1) + date_field(s@.subrange(i + 1, n as int)));
        i += 1;
    }
    assert(s@.subrange(0, i as int) + s@.subrange(i as int, n as int) =~= s@);
    s
}

/// The pieces of `text` between line feeds.
fn lines_of(text: &str) -> (r: Vec<&str>)
    ensures
        r@.map_values(|l: &str| l@) == split_lines(text@),
{
    let n = text.unicode_len();
    let mut pieces: Vec<&str> = Vec::new();
    let mut start: usize = 0;
    let mut i: usize = 0;
    assert(text@.subrange(0, 0) =~= Seq::<char>::empty());
    assert(pieces@.map_values(|l: &str| l@) =~= Seq::<Seq<char>>::empty());
    assert(pieces@.map_values(|l: &str| l@).push(text@.subrange(0, 0)) =~= seq![Seq::<char>::empty()]);
    while i < n
        invariant
            0 <= start <= i <= n,
            n == text@.len(),
            pieces@.map_values(|l: &str| l@).push(text@.subrange(start as int, i as int))
                == split_lines(text@.subrange(0, i as int)),
        decreases n - i,
    {
        let ghost before = pieces@.map_values(|l: &str| l@);
        let ghost prefix = text@.subrange(0, i + 1);
        assert(prefix.drop_last() =~= text@.subrange(0, i as int));
        if text.get_char(i) == '\n' {
            let piece = text.substring_char(start, i);
            pieces.push(piece);
            assert(pieces@.map_values(|l: &str| l@) =~= before.push(piece@));
            start = i + 1;
            assert(text@.subrange(start as int, start as int) =~= Seq::<char>::empty());
        } else {
            assert(text@.subrange(start as int, i + 1) =~= text@.subrange(start as int, i as int).push(text@[i as int]));
            assert(before.push(text@.subrange(start as int, i + 1)) =~= before.push(
                text@.subrange(start as int, i as int),
            ).update(before.len() as int, text@.subrange(start as int, i as int).push(text@[i as int])));
        }
        i += 1;
    }
    let ghost before = pieces@.map_values(|l: &str| l@);
    let piece = text.substring_char(start, n);
    pieces.push(piece);
    assert(pieces@.map_values(|l: &str| l@) =~= before.push(piece@));
    assert(text@.subrange(0, n as int) =~= text@);
    pieces
}

/// Whether `date` is a day off: a weekend or a listed holiday.
pub fn is_holiday(date: CalendarDate, holidays: Holidays) -> (r: bool)
    ensures
        r == is_holiday_spec(date, holidays@),
{
    is_weekend(date) || holidays.contain(date)
}

/// A weekend day is a day off whatever the holiday list holds, and a listed
/// day is a day off whatever its day of the week.
pub proof fn lemma_weekend_or_listed_is_holiday(date: CalendarDate, holidays: Seq<CalendarDate>)
    ensures
        is_weekend_spec(date) ==> is_holiday_spec(date, holidays),
        holidays.contains(date) ==> is_holiday_spec(date, holidays),
{
}

/// Exit status for a day: 1 for a day off, 0 for a working day, and -1
/// where the holiday data could not be loaded.
pub open spec fn exit_status_spec(
    holidays: Result<Holidays, HolidayError>,
    today: CalendarDate,
) -> int {
    match holidays {
        Ok(h) => if is_holiday_spec(today, h@) {
            1
        } else {
            0
        },
        Err(_) => -1,
    }
}

/// The exit status that reports whether `today` is a day off.
pub fn exit_status(holidays: Result<Holidays, HolidayError>, today: CalendarDate) -> (r: i32)
    ensures
        r as int == exit_status_spec(holidays, today),
{
    match holidays {
        Ok(h) => if is_holiday(today, h) {
            1
        } else {
            0
        },
        Err(_) => -1,
    }
}

} // verus!
