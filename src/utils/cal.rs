//! cal: the calendar arithmetic. Years up to 1752 follow the Julian
//! calendar, later ones the Gregorian.
use vstd::prelude::*;

use crate::text::push_char;

verus! {

pub open spec fn leap_year(year: int) -> bool {
    if year > 1752 {
        (year % 4 == 0 && year % 100 != 0) || year % 400 == 0
    } else {
        year % 4 == 0
    }
}

pub fn is_leap_year(year: u64) -> (r: bool)
    ensures
        r == leap_year(year as int),
{
    if year > 1752 {
        (year % 4 == 0 && year % 100 != 0) || year % 400 == 0
    } else {
        year % 4 == 0
    }
}

pub open spec fn month_days(month: int, leap: bool) -> int {
    if month == 2 {
        if leap {
            29
        } else {
            28
        }
    } else if month == 4 || month == 6 || month == 9 || month == 11 {
        30
    } else {
        31
    }
}

/// The number of days in `month` (1 to 12) of `year`. September 1752 is
/// the one month that loses days, which the caller handles.
pub fn days_in_month(month: u8, year: u64) -> (r: u8)
    requires
        1 <= month <= 12,
    ensures
        r == month_days(month as int, leap_year(year as int)),
{
    let leap = is_leap_year(year);
    if month == 2 {
        if leap {
            29
        } else {
            28
        }
    } else if month == 4 || month == 6 || month == 9 || month == 11 {
        30
    } else {
        31
    }
}

/// The Gregorian month offsets of Sakamoto's method.
pub open spec fn month_offset(month: int) -> int {
    if month == 1 {
        0
    } else if month == 2 {
        3
    } else if month == 3 {
        2
    } else if month == 4 {
        5
    } else if month == 5 {
        0
    } else if month == 6 {
        3
    } else if month == 7 {
        5
    } else if month == 8 {
        1
    } else if month == 9 {
        4
    } else if month == 10 {
        6
    } else if month == 11 {
        2
    } else {
        4
    }
}

/// The weekday of the first of `month` in `year`, 0 for Sunday.
pub open spec fn first_weekday(month: int, year: int) -> int {
    if year > 1752 {
        let y = if month < 3 {
            year - 1
        } else {
            year
        };
        (y + y / 4 - y / 100 + y / 400 + month_offset(month) + 1) % 7
    } else {
        let m = if month < 3 {
            month + 12
        } else {
            month
        };
        let y = if month < 3 {
            year - 1
        } else {
            year
        };
        (1 + 2 * m + (3 * m + 3) / 5 + y + y / 4 + 6) % 7
    }
}

fn offset_of(month: u8) -> (r: u128)
    requires
        1 <= month <= 12,
    ensures
        r == month_offset(month as int),
{
    let table: [u128; 12] = [0, 3, 2, 5, 0, 3, 5, 1, 4, 6, 2, 4];
    let r = table[(month - 1) as usize];
    assert(r == month_offset(month as int)) by {
        assert(table@ =~= seq![0u128, 3, 2, 5, 0, 3, 5, 1, 4, 6, 2, 4]);
    }
    r
}

/// The weekday (0 for Sunday) on which `month` of `year` begins.
pub fn get_first_day_of_week(month: u8, year: u64) -> (r: u8)
    requires
        1 <= month <= 12,
        year >= 1,
    ensures
        r == first_weekday(month as int, year as int),
        r < 7,
{
    let y0 = year as u128;
    if year > 1752 {
        let y: u128 = if month < 3 {
            y0 - 1
        } else {
            y0
        };
        assert(y / 100 <= y / 4) by (nonlinear_arith)
            requires
                y >= 0,
        ;
        let d = (y + y / 4 - y / 100 + y / 400 + offset_of(month) + 1) % 7;
        d as u8
    } else {
        let m: u128 = if month < 3 {
            month as u128 + 12
        } else {
            month as u128
        };
        let y: u128 = if month < 3 {
            y0 - 1
        } else {
            y0
        };
        let d = (1 + 2 * m + (3 * m + 3) / 5 + y + y / 4 + 6) % 7;
        d as u8
    }
}

/// A calendar date.
#[derive(PartialEq, Eq, Structural, Clone, Copy, Debug)]
pub struct Date {
    pub year: i32,
    pub month: u8,
    pub day: u8,
}

pub open spec fn digit_char(d: nat) -> char {
    if d == 0 {
        '0'
    } else if d == 1 {
        '1'
    } else if d == 2 {
        '2'
    } else if d == 3 {
        '3'
    } else if d == 4 {
        '4'
    } else if d == 5 {
        '5'
    } else if d == 6 {
        '6'
    } else if d == 7 {
        '7'
    } else if d == 8 {
        '8'
    } else {
        '9'
    }
}

fn digit(d: u64) -> (c: char)
    requires
        d < 10,
    ensures
        c == digit_char(d as nat),
{
    if d == 0 {
        '0'
    } else if d == 1 {
        '1'
    } else if d == 2 {
        '2'
    } else if d == 3 {
        '3'
    } else if d == 4 {
        '4'
    } else if d == 5 {
        '5'
    } else if d == 6 {
        '6'
    } else if d == 7 {
        '7'
    } else if d == 8 {
        '8'
    } else {
        '9'
    }
}

/// `n` in decimal, without leading zeros.
pub open spec fn decimal(n: nat) -> Seq<char>
    decreases n,
{
    if n < 10 {
        seq![digit_char(n)]
    } else {
        decimal(n / 10).push(digit_char(n % 10))
    }
}

pub fn decimal_string(n: u64) -> (r: String)
    ensures
        r@ == decimal(n as nat),
{
    let mut digits: Vec<char> = Vec::new();
    let mut v = n;
    assert(decimal(n as nat) =~= decimal(v as nat) + digits@);
    loop
        invariant_except_break
            decimal(n as nat) == decimal(v as nat) + digits@,
        ensures
            decimal(n as nat) == digits@,
        decreases v,
    {
        let d = digit(v % 10);
        let ghost before = digits@;
        digits.insert(0, d);
        assert(digits@ =~= seq![d] + before);
        if v < 10 {
            assert(decimal(v as nat) =~= seq![d]);
            assert(decimal(n as nat) =~= digits@);
            break;
        }
        assert(decimal(v as nat) == decimal((v / 10) as nat).push(d));
        assert(decimal((v / 10) as nat).push(d) + before =~= decimal((v / 10) as nat)
            + digits@);
        v = v / 10;
    }
    let mut r = String::new();
    let mut i: usize = 0;
    while i < digits.len()
        invariant
            i <= digits@.len(),
            r@ == digits@.take(i as int),
        decreases digits@.len() - i,
    {
        push_char(&mut r, digits[i]);
        i = i + 1;
        assert(r@ =~= digits@.take(i as int));
    }
    assert(digits@.take(digits@.len() as int) =~= digits@);
    r
}

pub open spec fn spaces(n: nat) -> Seq<char> {
    Seq::new(n, |i: int| ' ')
}

fn push_spaces(s: &mut String, n: usize)
    ensures
        final(s)@ == old(s)@ + spaces(n as nat),
{
    let mut k: usize = 0;
    while k < n
        invariant
            k <= n,
            s@ == old(s)@ + spaces(k as nat),
        decreases n - k,
    {
        push_char(s, ' ');
        k = k + 1;
        assert(s@ =~= old(s)@ + spaces(k as nat));
    }
}

/// `s` centred in `width` characters; where the padding is odd, the extra
/// space goes to the right.
pub open spec fn centered(s: Seq<char>, width: nat) -> Seq<char> {
    if s.len() >= width {
        s
    } else {
        spaces(((width - s.len()) / 2) as nat) + s + spaces(
            ((width - s.len()) - (width - s.len()) / 2) as nat,
        )
    }
}

fn center(s: &str, width: usize) -> (r: String)
    ensures
        r@ == centered(s@, width as nat),
{
    let n = s.unicode_len();
    let mut r = String::new();
    if n >= width {
        r.append(s);
        return r;
    }
    let pad = width - n;
    push_spaces(&mut r, pad / 2);
    r.append(s);
    push_spaces(&mut r, pad - pad / 2);
    r
}

pub open spec fn month_name(month: int) -> Seq<char> {
    if month == 1 {
        "January"@
    } else if month == 2 {
        "February"@
    } else if month == 3 {
        "March"@
    } else if month == 4 {
        "April"@
    } else if month == 5 {
        "May"@
    } else if month == 6 {
        "June"@
    } else if month == 7 {
        "July"@
    } else if month == 8 {
        "August"@
    } else if month == 9 {
        "September"@
    } else if month == 10 {
        "October"@
    } else if month == 11 {
        "November"@
    } else {
        "December"@
    }
}

fn name_of(month: u8) -> (r: &'static str)
    ensures
        r@ == month_name(month as int),
{
    if month == 1 {
        "January"
    } else if month == 2 {
        "February"
    } else if month == 3 {
        "March"
    } else if month == 4 {
        "April"
    } else if month == 5 {
        "May"
    } else if month == 6 {
        "June"
    } else if month == 7 {
        "July"
    } else if month == 8 {
        "August"
    } else if month == 9 {
        "September"
    } else if month == 10 {
        "October"
    } else if month == 11 {
        "November"
    } else {
        "December"
    }
}

/// The days printed for a month. In September 1752 the days 3 to 13 are
/// left out: the Gregorian calendar took effect by dropping them.
pub open spec fn shown_days(month: int, year: int) -> Seq<nat> {
    if year == 1752 && month == 9 {
        Seq::new(19, |i: int| (if i < 2 {
            i + 1
        } else {
            i + 12
        }) as nat)
    } else {
        Seq::new(month_days(month, leap_year(year)) as nat, |i: int| (i + 1) as nat)
    }
}

/// A day number right-aligned in two columns and followed by a space; in
/// reverse video where it is today.
pub open spec fn day_cell(d: nat, today: bool) -> Seq<char> {
    let num = if d < 10 {
        seq![' ', digit_char(d)]
    } else {
        seq![digit_char(d / 10), digit_char(d % 10)]
    };
    if today {
        "\u{1b}[7m"@ + num + "\u{1b}[m "@
    } else {
        num + " "@
    }
}

pub open spec fn is_today(today: Date, month: int, year: int, d: nat) -> bool {
    today.year >= 0 && today.year == year && today.month == month && today.day == d
}

pub open spec fn cells(month: int, year: int, today: Date) -> Seq<Seq<char>> {
    shown_days(month, year).map_values(|d: nat| day_cell(d, is_today(today, month, year, d)))
}

/// The pieces of `s` joined end to end.
pub open spec fn concat(s: Seq<Seq<char>>) -> Seq<char>
    decreases s.len(),
{
    if s.len() == 0 {
        Seq::empty()
    } else {
        concat(s.drop_last()) + s.last()
    }
}

/// Week `r` of a month whose first day falls on weekday `first`: three
/// spaces for each weekday before the first, then the cells of the week.
pub open spec fn week_row(first: nat, c: Seq<Seq<char>>, r: nat) -> Seq<char> {
    let start = if r == 0 {
        0
    } else {
        7 * r - first
    };
    let end = if 7 * (r + 1) - first < c.len() {
        7 * (r + 1) - first
    } else {
        c.len() as int
    };
    (if r == 0 {
        spaces(3 * first)
    } else {
        Seq::empty()
    }) + concat(c.subrange(start, end))
}

pub open spec fn week_rows(first: nat, c: Seq<Seq<char>>) -> Seq<Seq<char>> {
    Seq::new(((first + c.len() + 6) / 7) as nat, |r: int| week_row(first, c, r as nat))
}

/// `lines`, with lines of 20 spaces added until there are eight.
pub open spec fn padded(lines: Seq<Seq<char>>) -> Seq<Seq<char>> {
    if lines.len() < 8 {
        lines + Seq::new((8 - lines.len()) as nat, |i: int| spaces(20))
    } else {
        lines
    }
}

/// The title of a month: its name, and the year where asked for.
pub open spec fn title(month: int, year: int, print_year: bool) -> Seq<char> {
    if print_year {
        centered(month_name(month) + " "@ + decimal(year as nat), 20)
    } else {
        centered(month_name(month), 20)
    }
}

/// The lines of one month: title, weekday names, the weeks, then blank
/// lines up to eight in all.
pub open spec fn month_layout(month: int, year: int, print_year: bool, today: Date) -> Seq<
    Seq<char>,
> {
    padded(
        seq![title(month, year, print_year), "Su Mo Tu We Th Fr Sa"@] + week_rows(
            first_weekday(month, year) as nat,
            cells(month, year, today),
        ),
    )
}

fn day_cell_string(d: u8, today: bool) -> (r: String)
    requires
        1 <= d <= 31,
    ensures
        r@ == day_cell(d as nat, today),
{
    let mut r = String::new();
    if today {
        r.append("\u{1b}[7m");
    }
    let ghost lead = r@;
    if d < 10 {
        push_char(&mut r, ' ');
        push_char(&mut r, digit(d as u64));
    } else {
        push_char(&mut r, digit((d / 10) as u64));
        push_char(&mut r, digit((d % 10) as u64));
    }
    let ghost num = if d < 10 {
        seq![' ', digit_char(d as nat)]
    } else {
        seq![digit_char((d / 10) as nat), digit_char((d % 10) as nat)]
    };
    assert(r@ =~= lead + num);
    if today {
        r.append("\u{1b}[m ");
    } else {
        r.append(" ");
    }
    assert(today ==> lead =~= "\u{1b}[7m"@);
    assert(!today ==> lead =~= Seq::<char>::empty());
    r
}

proof fn lemma_concat_push(s: Seq<Seq<char>>, lo: int, hi: int)
    requires
        0 <= lo <= hi < s.len(),
    ensures
        concat(s.subrange(lo, hi + 1)) == concat(s.subrange(lo, hi)) + s[hi],
{
    assert(s.subrange(lo, hi + 1).drop_last() =~= s.subrange(lo, hi));
}

/// The lines of `month` in `year`, with `today` in reverse video. The
/// caller reads today's date from the clock.
#[verifier::rlimit(100)]
#[verifier::spinoff_prover]
pub fn vec_month_calendar(month: u8, year: u64, print_year: bool, today: &Date) -> (r: Vec<String>)
    requires
        1 <= month <= 12,
        year >= 1,
    ensures
        r@.map_values(|l: String| l@) == month_layout(month as int, year as int, print_year, *today),
{
    let mut head = String::from_str(name_of(month));
    if print_year {
        head.append(" ");
        let y = decimal_string(year);
        head.append(y.as_str());
    }
    let mut ret: Vec<String> = Vec::new();
    ret.push(center(head.as_str(), 20));
    ret.push(String::from_str("Su Mo Tu We Th Fr Sa"));

    let first = get_first_day_of_week(month, year);
    let dim = days_in_month(month, year);
    let special = year == 1752 && month == 9;
    let n: usize = if special {
        19
    } else {
        dim as usize
    };
    let ghost c = cells(month as int, year as int, *today);
    let ghost f = first as nat;
    let ghost all_rows = week_rows(f, c);
    let ghost top = seq![title(month as int, year as int, print_year), "Su Mo Tu We Th Fr Sa"@];
    assert(ret@.map_values(|l: String| l@) =~= top);
    assert(c.len() == n);
    assert(n >= 19);

    let mut line = String::new();
    push_spaces(&mut line, 3 * first as usize);
    let mut i: usize = 0;
    let mut row: usize = 0;
    let mut day: u8 = 1;
    assert(c.subrange(0, 0) =~= Seq::<Seq<char>>::empty());
    while i < n
        invariant
            1 <= month <= 12,
            year >= 1,
            first < 7,
            f == first,
            c == cells(month as int, year as int, *today),
            c.len() == n,
            n >= 19,
            all_rows == week_rows(f, c),
            special == (year == 1752 && month == 9),
            i <= n,
            7 * row <= first + i,
            i < n ==> first + i < 7 * row + 7,
            i < n ==> day as nat == shown_days(month as int, year as int)[i as int],
            i < n ==> 1 <= day <= 31,
            i < n ==> line@ == (if row == 0 {
                spaces(3 * f)
            } else {
                Seq::empty()
            }) + concat(c.subrange(if row == 0 { 0 } else { 7 * row - f }, i as int)),
            i < n ==> ret@.map_values(|l: String| l@) == top + all_rows.take(row as int),
            i == n ==> ret@.map_values(|l: String| l@) == top + all_rows,
        decreases n - i,
    {
        let is_today = today.year >= 0 && today.year as u64 == year && today.month == month
            && today.day == day;
        let cell = day_cell_string(day, is_today);
        assert(c[i as int] == cell@);
        proof {
            lemma_concat_push(c, if row == 0 { 0 } else { 7 * row - f }, i as int);
        }
        line.append(cell.as_str());
        i = i + 1;
        if i == n {
            let ghost before = ret@;
            assert((first as int + n as int + 6) / 7 == row as int + 1);
            assert(line@ == week_row(f, c, row as nat));
            let ghost lv = line@;
            let mut done = String::new();
            std::mem::swap(&mut done, &mut line);
            ret.push(done);
            assert(ret@.map_values(|l: String| l@) =~= before.map_values(|l: String| l@).push(
                lv,
            ));
            assert(all_rows.len() == row + 1);
            assert(all_rows[row as int] == lv);
            assert(ret@.map_values(|l: String| l@) =~= top + all_rows);
        } else {
            if (first as usize + i) % 7 == 0 {
                assert(line@ == week_row(f, c, row as nat));
                let ghost before = ret@;
                let ghost lv = line@;
                let mut done = String::new();
                std::mem::swap(&mut done, &mut line);
                ret.push(done);
                assert(ret@.map_values(|l: String| l@) =~= before.map_values(|l: String| l@).push(
                    lv,
                ));
                assert((first as int + n as int + 6) / 7 > row as int + 1);
                assert(all_rows[row as int] == lv);
                assert(ret@.map_values(|l: String| l@) =~= top + all_rows.take(row + 1));
                row = row + 1;
                assert(c.subrange(7 * row - f, i as int) =~= Seq::<Seq<char>>::empty());
            }
            if special && day == 2 {
                day = 14;
            } else {
                day = day + 1;
            }
        }
    }
    let ghost body = top + all_rows;
    assert(body.len() <= 8);
    while ret.len() < 8
        invariant
            ret@.len() <= 8,
            body.len() <= 8 ==> ret@.map_values(|l: String| l@) == body + Seq::new(
                (ret@.len() - body.len()) as nat,
                |k: int| spaces(20),
            ),
            body.len() > 8 ==> ret@.map_values(|l: String| l@) == body,
            ret@.len() >= body.len(),
        decreases 8 - ret@.len(),
    {
        let mut blank = String::new();
        push_spaces(&mut blank, 20);
        assert(blank@ =~= spaces(20));
        let ghost before = ret@;
        ret.push(blank);
        assert(ret@.map_values(|l: String| l@) =~= before.map_values(|l: String| l@).push(
            spaces(20),
        ));
        assert(ret@.map_values(|l: String| l@) =~= body + Seq::new(
            (ret@.len() - body.len()) as nat,
            |k: int| spaces(20),
        ));
    }
    assert(body.len() <= 8);
    assert(ret@.map_values(|l: String| l@) =~= padded(body));
    ret
}

} // verus!
