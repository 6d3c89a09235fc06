//! What the interface shows as text, and which rows of a table it shows:
//! uptimes, timestamps, sort arrows, the status bar, the scroll window of
//! a table and the process filter.

use vstd::prelude::*;

use crate::app::{active_state, signal_key, signal_name, App, AppView, KillSignal, KillState};
use crate::tab::{sort_field_label, tab_label, ProcSortField, Tab, TabOrientation};
use crate::text::{
    chars_of, decimal, padded, parse_u64, parse_u64_spec, push_char, push_decimal, push_padded,
};
use vstd::string::StringSliceAdditionalSpecFns;
use vstd::utf8::encode_utf8;
use vstd::string::StringExecFns;

verus! {

// ── Uptime ──────────────────────────────────────────────────────────────

/// How an uptime of `secs` seconds is shown: days, hours and minutes once
/// it is a day or more; hours and minutes once it is an hour or more;
/// otherwise minutes and seconds, dropping whichever part is zero (seconds
/// alone when under a minute).
pub open spec fn uptime_text(secs: nat) -> Seq<char> {
    let d = secs / 86400;
    let h = (secs % 86400) / 3600;
    let m = (secs % 3600) / 60;
    let s = secs % 60;
    if d > 0 {
        decimal(d) + "d "@ + decimal(h) + "h "@ + decimal(m) + "m"@
    } else if h > 0 {
        decimal(h) + "h "@ + decimal(m) + "m"@
    } else if m > 0 && s == 0 {
        decimal(m) + "m"@
    } else if m > 0 {
        decimal(m) + "m "@ + decimal(s) + "s"@
    } else {
        decimal(s) + "s"@
    }
}

/// Shows an uptime given in seconds, such as `2d 14h 5m` or `1m 30s`.
pub fn format_uptime(secs: u64) -> (r: String)
    ensures
        r@ == uptime_text(secs as nat),
{
    let d = secs / 86400;
    let h = (secs % 86400) / 3600;
    let m = (secs % 3600) / 60;
    let s = secs % 60;
    let mut out = String::new();
    if d > 0 {
        push_decimal(&mut out, d);
        out.append("d ");
        push_decimal(&mut out, h);
        out.append("h ");
        push_decimal(&mut out, m);
        out.append("m");
    } else if h > 0 {
        push_decimal(&mut out, h);
        out.append("h ");
        push_decimal(&mut out, m);
        out.append("m");
    } else if m > 0 && s == 0 {
        push_decimal(&mut out, m);
        out.append("m");
    } else if m > 0 {
        push_decimal(&mut out, m);
        out.append("m ");
        push_decimal(&mut out, s);
        out.append("s");
    } else {
        push_decimal(&mut out, s);
        out.append("s");
    }
    out
}

// ── Sort arrow ──────────────────────────────────────────────────────────

/// The arrow shown after a column header: none for a column the table is
/// not sorted by, otherwise up for ascending and down for descending.
pub open spec fn sort_arrow_text(field: ProcSortField, sort_field: ProcSortField, asc: bool) -> Seq<
    char,
> {
    if field != sort_field {
        ""@
    } else if asc {
        "\u{2191}"@
    } else {
        "\u{2193}"@
    }
}

/// The arrow shown after the header of column `field` when the table is
/// sorted by `sort_field`, ascending when `asc`.
pub fn sort_arrow(field: ProcSortField, sort_field: ProcSortField, asc: bool) -> (r: &'static str)
    ensures
        r@ == sort_arrow_text(field, sort_field, asc),
{
    if field != sort_field {
        return "";
    }
    if asc {
        "\u{2191}"
    } else {
        "\u{2193}"
    }
}

// ── Scrolling a table ───────────────────────────────────────────────────

/// The number of data rows a table of `height` rows keeps the selection
/// within (the borders and the header take four).
pub open spec fn selection_rows(height: u16) -> nat {
    if height >= 4 {
        (height - 4) as nat
    } else {
        0
    }
}

/// The number of rows a table of `height` rows shows.
pub open spec fn shown_rows(height: u16) -> nat {
    if height >= 3 {
        (height - 3) as nat
    } else {
        0
    }
}

/// The scroll offset after bringing `selection` into view: it moves up to
/// the selection when that is above, and down just far enough when it is
/// below the rows kept in view.
pub open spec fn scroll_after(selection: usize, scroll: usize, height: u16) -> usize {
    let vis = selection_rows(height);
    if selection < scroll {
        selection
    } else if vis > 0 && selection >= scroll + vis {
        let below = if selection < usize::MAX {
            selection + 1
        } else {
            selection as int
        };
        if below >= vis {
            (below - vis) as usize
        } else {
            0
        }
    } else {
        scroll
    }
}

/// The first and one-past-last rows shown of a table of `count` rows.
pub open spec fn scroll_window(selection: usize, scroll: usize, count: usize, height: u16) -> (
    usize,
    usize,
) {
    let after = scroll_after(selection, scroll, height);
    let last = if count > 0 {
        (count - 1) as usize
    } else {
        0usize
    };
    let start = if after < last {
        after
    } else {
        last
    };
    let end = if count < start + shown_rows(height) {
        count
    } else {
        (start + shown_rows(height)) as usize
    };
    (start, end)
}

/// Brings `selection` into view in a table of `count` rows and `height`
/// rows on screen: updates `scroll` and returns the first and
/// one-past-last rows to show.
pub fn clamp_scroll(selection: usize, scroll: &mut usize, count: usize, height: u16) -> (r: (
    usize,
    usize,
))
    requires
        selection >= *old(scroll) && selection_rows(height) > 0 ==> *old(scroll) + selection_rows(
            height,
        ) <= usize::MAX,
        scroll_window(selection, *old(scroll), count, height).0 + shown_rows(height) <= usize::MAX,
    ensures
        *final(scroll) == scroll_after(selection, *old(scroll), height),
        r == scroll_window(selection, *old(scroll), count, height),
        r.0 <= r.1 <= count,
        count > 0 ==> r.0 < count,
        selection_rows(height) > 0 && selection < usize::MAX ==> *final(scroll) <= selection
            < *final(scroll) + selection_rows(height),
{
    let vis = (height as usize).saturating_sub(4);
    if selection < *scroll {
        *scroll = selection;
    } else if vis > 0 && selection >= *scroll + vis {
        *scroll = selection.saturating_add(1).saturating_sub(vis);
    }
    let clamped_scroll = if *scroll < count.saturating_sub(1) {
        *scroll
    } else {
        count.saturating_sub(1)
    };
    let max_visible = (height as usize).saturating_sub(3);
    let start = clamped_scroll;
    let end = if count < start + max_visible {
        count
    } else {
        start + max_visible
    };
    (start, end)
}

// ── Calendar ────────────────────────────────────────────────────────────

/// Whether `y` is a leap year of the Gregorian calendar.
pub open spec fn is_leap(y: nat) -> bool {
    (y % 4 == 0 && y % 100 != 0) || y % 400 == 0
}

/// The number of days of year `y`.
pub open spec fn year_len(y: nat) -> nat {
    if is_leap(y) {
        366
    } else {
        365
    }
}

/// The number of days from 1970-01-01 to the first day of year `y`.
pub open spec fn days_before_year(y: nat) -> nat
    decreases y,
{
    if y <= 1970 {
        0
    } else {
        days_before_year((y - 1) as nat) + year_len((y - 1) as nat)
    }
}

/// The number of days of month `m` (January is 0) of year `y`.
pub open spec fn month_len(y: nat, m: nat) -> nat {
    if m == 1 {
        if is_leap(y) {
            29
        } else {
            28
        }
    } else if m == 3 || m == 5 || m == 8 || m == 10 {
        30
    } else {
        31
    }
}

/// The number of days of year `y` before the first day of month `m`.
pub open spec fn days_before_month(y: nat, m: nat) -> nat
    decreases m,
{
    if m == 0 {
        0
    } else {
        days_before_month(y, (m - 1) as nat) + month_len(y, (m - 1) as nat)
    }
}

/// The last day shown: 2999-12-31, counted in days from 1970-01-01. Later
/// times are shown as that day.
pub const LAST_DAY: u64 = 376199;

/// The year in which day `d` (counted from 1970-01-01) falls.
pub open spec fn year_of_day(d: nat) -> nat {
    choose|y: nat| 1970 <= y && #[trigger] days_before_year(y) <= d < days_before_year(y + 1)
}

/// The month (January is 0) of year `y` in which day `doy` of that year
/// falls.
pub open spec fn month_of_day(y: nat, doy: nat) -> nat {
    choose|m: nat| m < 12 && #[trigger] days_before_month(y, m) <= doy < days_before_month(y, m + 1)
}

/// How the time `secs` seconds after 1970-01-01 00:00:00 UTC is shown:
/// `YYYY-MM-DD hh:mm:ss`, with days after `LAST_DAY` shown as that day.
pub open spec fn timestamp_text(secs: nat) -> Seq<char> {
    let day = if secs / 86400 < LAST_DAY {
        secs / 86400
    } else {
        LAST_DAY as nat
    };
    let rem = secs % 86400;
    let y = year_of_day(day);
    let doy = (day - days_before_year(y)) as nat;
    let m = month_of_day(y, doy);
    let dom = (doy - days_before_month(y, m)) as nat;
    padded(y, 4) + "-"@ + padded(m + 1, 2) + "-"@ + padded(dom + 1, 2) + " "@ + padded(
        rem / 3600,
        2,
    ) + ":"@ + padded((rem % 3600) / 60, 2) + ":"@ + padded(rem % 60, 2)
}

/// Later years start later: each year adds at least 365 days.
pub proof fn lemma_days_before_year_grows(a: nat, b: nat)
    requires
        1970 <= a <= b,
    ensures
        days_before_year(a) + 365 * (b - a) <= days_before_year(b),
    decreases b - a,
{
    if a < b {
        lemma_days_before_year_grows(a, (b - 1) as nat);
    }
}

/// Later months start later within a year.
pub proof fn lemma_days_before_month_grows(y: nat, a: nat, b: nat)
    requires
        a <= b,
    ensures
        days_before_month(y, a) + 28 * (b - a) <= days_before_month(y, b),
    decreases b - a,
{
    if a < b {
        lemma_days_before_month_grows(y, a, (b - 1) as nat);
    }
}

/// The twelve months make up the year.
pub proof fn lemma_months_fill_year(y: nat)
    ensures
        days_before_month(y, 12) == year_len(y),
{
    reveal_with_fuel(days_before_month, 13);
}

/// Every day from 1970-01-01 on falls in exactly one year, and that year is
/// `year_of_day`.
pub proof fn lemma_year_of_day(d: nat, y: nat)
    requires
        1970 <= y,
        days_before_year(y) <= d,
    ensures
        1970 <= year_of_day(d),
        days_before_year(year_of_day(d)) <= d < days_before_year(year_of_day(d) + 1),
        days_before_year(y) <= d < days_before_year(y + 1) ==> year_of_day(d) == y,
    decreases d - days_before_year(y),
{
    if d < days_before_year(y + 1) {
        let z = year_of_day(d);
        if z != y {
            if z < y {
                lemma_days_before_year_grows(z + 1, y);
            } else {
                lemma_days_before_year_grows(y + 1, z);
            }
        }
    } else {
        lemma_year_of_day(d, y + 1);
    }
}

/// Every day of a year falls in exactly one month, and that month is
/// `month_of_day`.
pub proof fn lemma_month_of_day(y: nat, doy: nat, m: nat)
    requires
        m < 12,
        days_before_month(y, m) <= doy < days_before_month(y, m + 1),
    ensures
        month_of_day(y, doy) == m,
{
    let z = month_of_day(y, doy);
    if z != m {
        if z < m {
            lemma_days_before_month_grows(y, z + 1, m);
        } else {
            lemma_days_before_month_grows(y, m + 1, z);
        }
    }
}

/// Going from `x` to `x + 1` adds one to the count of multiples of `k`
/// exactly when `x + 1` is one.
proof fn lemma_multiples_step(x: nat, k: nat)
    requires
        k == 4 || k == 100 || k == 400,
    ensures
        (x + 1) / k == x / k + if (x + 1) % k == 0 {
            1int
        } else {
            0int
        },
{
    if k == 4 {
        assert((x + 1) / 4 == x / 4 + if (x + 1) % 4 == 0 {
            1int
        } else {
            0int
        });
    } else if k == 100 {
        assert((x + 1) / 100 == x / 100 + if (x + 1) % 100 == 0 {
            1int
        } else {
            0int
        });
    } else {
        assert((x + 1) / 400 == x / 400 + if (x + 1) % 400 == 0 {
            1int
        } else {
            0int
        });
    }
}

/// A multiple of 400 is a multiple of 100, and a multiple of 100 is a
/// multiple of 4.
proof fn lemma_century_divides(n: nat)
    ensures
        n % 400 == 0 ==> n % 100 == 0,
        n % 100 == 0 ==> n % 4 == 0,
{
    if n % 400 == 0 {
        assert(n == 400 * (n / 400));
        assert(n == 100 * (4 * (n / 400)));
    }
    if n % 100 == 0 {
        assert(n == 100 * (n / 100));
        assert(n == 4 * (25 * (n / 100)));
    }
}

/// The number of days before year `y` in closed form: 365 a year plus one
/// for each leap year from 1970 on.
pub proof fn lemma_days_before_year_closed(y: nat)
    requires
        y >= 1970,
    ensures
        days_before_year(y) == 365 * (y - 1970) + ((y - 1) / 4 - (y - 1) / 100 + (y - 1) / 400)
            - 477,
    decreases y,
{
    if y > 1970 {
        let x = (y - 2) as nat;
        lemma_days_before_year_closed((y - 1) as nat);
        lemma_multiples_step(x, 4);
        lemma_multiples_step(x, 100);
        lemma_multiples_step(x, 400);
        lemma_century_divides(x + 1);
    }
}

/// The last day shown is the last day of year 2999.
pub proof fn lemma_last_day()
    ensures
        days_before_year(3000) == LAST_DAY + 1,
{
    lemma_days_before_year_closed(3000);
}

/// Whether `year` is a leap year.
fn leap_year(year: u64) -> (r: bool)
    ensures
        r == is_leap(year as nat),
{
    (year % 4 == 0 && year % 100 != 0) || year % 400 == 0
}

/// The number of days of `year`.
fn year_length(year: u64) -> (r: u64)
    ensures
        r == year_len(year as nat),
{
    if leap_year(year) {
        366
    } else {
        365
    }
}

/// The number of days of month `m` (January is 0) of `year`.
fn month_length(year: u64, m: u64) -> (r: u64)
    ensures
        r == month_len(year as nat, m as nat),
{
    if m == 1 {
        if leap_year(year) {
            29
        } else {
            28
        }
    } else if m == 3 || m == 5 || m == 8 || m == 10 {
        30
    } else {
        31
    }
}

/// Shows the time `secs` seconds after 1970-01-01 00:00:00 UTC as
/// `YYYY-MM-DD hh:mm:ss`; times after the end of year 2999 show as its
/// last day.
pub fn format_timestamp(secs: u64) -> (r: String)
    ensures
        r@ == timestamp_text(secs as nat),
{
    let days_raw = secs / 86400;
    let rem = secs % 86400;
    let hour = rem / 3600;
    let min = (rem % 3600) / 60;
    let sec = rem % 60;
    let mut day: u64 = if days_raw < LAST_DAY {
        days_raw
    } else {
        LAST_DAY
    };
    let ghost d0 = day as nat;
    let mut year: u64 = 1970;
    while day >= year_length(year)
        invariant
            1970 <= year <= 3000,
            d0 <= LAST_DAY,
            days_before_year(year as nat) + day == d0,
        decreases day,
    {
        day = day - year_length(year);
        year = year + 1;
        proof {
            lemma_days_before_year_grows(1970, year as nat);
        }
    }
    let ghost doy = day as nat;
    proof {
        lemma_year_of_day(d0, year as nat);
        lemma_months_fill_year(year as nat);
    }
    let mut mo: u64 = 0;
    while mo < 12 && day >= month_length(year, mo)
        invariant
            mo <= 12,
            days_before_month(year as nat, mo as nat) + day == doy,
            doy < year_len(year as nat),
            year_len(year as nat) == days_before_month(year as nat, 12),
        decreases 12 - mo,
    {
        day = day - month_length(year, mo);
        mo = mo + 1;
    }
    proof {
        if mo == 12 {
            assert(false);
        }
        lemma_month_of_day(year as nat, doy, mo as nat);
    }
    let mut out = String::new();
    push_padded(&mut out, year, 4);
    out.append("-");
    push_padded(&mut out, mo + 1, 2);
    out.append("-");
    push_padded(&mut out, day + 1, 2);
    out.append(" ");
    push_padded(&mut out, hour, 2);
    out.append(":");
    push_padded(&mut out, min, 2);
    out.append(":");
    push_padded(&mut out, sec, 2);
    out
}

/// Every time is shown with a year from 1970 to 2999.
pub proof fn lemma_timestamp_year_in_range(secs: nat)
    ensures
        1970 <= year_of_day(
            if secs / 86400 < LAST_DAY {
                secs / 86400
            } else {
                LAST_DAY as nat
            },
        ) <= 2999,
{
    let day = if secs / 86400 < LAST_DAY {
        secs / 86400
    } else {
        LAST_DAY as nat
    };
    lemma_year_of_day(day, 1970);
    lemma_last_day();
    let y = year_of_day(day);
    if y > 2999 {
        lemma_days_before_year_grows(3000, y);
    }
}

/// A day of a year falls in one of its twelve months.
proof fn lemma_month_found(y: nat, doy: nat, m: nat)
    requires
        m <= 12,
        doy < days_before_month(y, m),
    ensures
        exists|k: nat|
            k < m && #[trigger] days_before_month(y, k) <= doy < days_before_month(y, k + 1),
    decreases m,
{
    if days_before_month(y, (m - 1) as nat) <= doy {
        assert(days_before_month(y, (m - 1) as nat) <= doy < days_before_month(y, m));
    } else {
        lemma_month_found(y, doy, (m - 1) as nat);
    }
}

/// A time up to the end of year 2999 is shown as the date and time that
/// name it: a valid date of the Gregorian calendar (leap years as
/// `is_leap` says) and a valid time of day, such that the days from
/// 1970-01-01 to that date, times 86400, plus the seconds of that time of
/// day give back `secs`.
pub proof fn lemma_timestamp_names_instant(secs: nat)
    requires
        secs / 86400 <= LAST_DAY,
    ensures
        exists|y: nat, m: nat, d: nat, h: nat, mi: nat, s: nat|
            #![trigger padded(y, 4), padded(m + 1, 2), padded(d + 1, 2), padded(h, 2), padded(mi, 2), padded(s, 2)]
            1970 <= y <= 2999 && m < 12 && d < month_len(y, m) && h < 24 && mi < 60 && s < 60
                && (days_before_year(y) + days_before_month(y, m) + d) * 86400 + h * 3600 + mi
                * 60 + s == secs && timestamp_text(secs) == padded(y, 4) + "-"@ + padded(m + 1, 2)
                + "-"@ + padded(d + 1, 2) + " "@ + padded(h, 2) + ":"@ + padded(mi, 2) + ":"@
                + padded(s, 2),
{
    let day = secs / 86400;
    let rem = secs % 86400;
    lemma_year_of_day(day, 1970);
    lemma_timestamp_year_in_range(secs);
    let y = year_of_day(day);
    let doy = (day - days_before_year(y)) as nat;
    lemma_months_fill_year(y);
    lemma_month_found(y, doy, 12);
    let m = month_of_day(y, doy);
    let d = (doy - days_before_month(y, m)) as nat;
    let h = rem / 3600;
    let mi = (rem % 3600) / 60;
    let s = rem % 60;
    assert(secs == day * 86400 + rem) by (nonlinear_arith)
        requires
            day == secs / 86400,
            rem == secs % 86400,
    ;
    assert(rem == h * 3600 + mi * 60 + s && h < 24) by (nonlinear_arith)
        requires
            rem < 86400,
            h == rem / 3600,
            mi == (rem % 3600) / 60,
            s == rem % 60,
    ;
    assert(mi < 60 && s < 60);
    assert(days_before_year(y) + days_before_month(y, m) + d == day);
    assert(timestamp_text(secs) == padded(y, 4) + "-"@ + padded(m + 1, 2) + "-"@ + padded(d + 1, 2)
        + " "@ + padded(h, 2) + ":"@ + padded(mi, 2) + ":"@ + padded(s, 2));
}

// ── Status bar ──────────────────────────────────────────────────────────

/// The most hints the status bar shows.
pub const MAX_HINTS: usize = 4;

/// What separates two hints in the status bar.
pub const HINT_SEP: &'static str = " \u{2502} ";

/// The PID of the selected process, or 0.
pub open spec fn selected_pid_of(a: AppView) -> u32 {
    match a.selected {
        Some(s) => s.pid,
        None => 0,
    }
}

/// The name of the selected process, or `"?"`.
pub open spec fn selected_name_of(a: AppView) -> Seq<char> {
    match a.selected {
        Some(s) => s.name,
        None => "?"@,
    }
}

/// The left part of the status bar: a kill outcome, the paused or help
/// notice, the kill question, an error, or else the tab's name (with the
/// sort order on the process tab), in that order of precedence.
pub open spec fn status_context(a: AppView) -> Seq<char> {
    match a.kill_feedback {
        Some(fb) => fb,
        None => if a.paused {
            "PAUSED (Space to resume)"@
        } else if a.help_visible {
            "Help (? to close)"@
        } else if a.kill_state == Some(KillState::Confirm) {
            "Kill? PID "@ + decimal(selected_pid_of(a) as nat) + " ("@ + selected_name_of(a) + ")"@
        } else {
            match a.error_msg {
                Some(err) => "Error: "@ + err,
                None => if a.active_tab == Tab::Proc {
                    " ["@ + tab_label(a.active_tab) + " "@ + sort_field_label(a.proc_sort_field)
                        + if a.proc_sort_asc {
                        "\u{2191}"@
                    } else {
                        "\u{2193}"@
                    } + "]"@
                } else {
                    tab_label(a.active_tab)
                },
            }
        },
    }
}

/// The hint `"<key> <name>"` for choosing signal `s` in the kill dialog.
pub open spec fn signal_hint(s: KillSignal) -> Seq<char> {
    seq![signal_key(s)] + " "@ + signal_name(s)
}

/// The hints of the status bar: none while a notice or an error is shown;
/// the signal choices while asking to kill; otherwise the sidebar or tab
/// bar toggle, the search hint of a searchable tab, the kill keys when a
/// process is selected on the process tab, and, if there is room, how to
/// move (the selection on the process tab, tabs elsewhere).
pub open spec fn status_hints_spec(a: AppView) -> Seq<Seq<char>> {
    if a.kill_feedback is Some || a.paused || a.help_visible || a.error_msg is Some {
        seq![]
    } else if a.kill_state == Some(KillState::Confirm) {
        seq![
            signal_hint(KillSignal::Term),
            signal_hint(KillSignal::Kill),
            seq![signal_key(KillSignal::Interrupt)] + "-"@ + seq![signal_key(KillSignal::Continue)]
                + " More"@,
            "any Cancel"@,
        ]
    } else {
        let toggle = if a.tab_orientation != TabOrientation::Sidebar {
            if a.tab_bar_visible {
                "Ctrl+S Hide Tab Bar"@
            } else {
                "Ctrl+S Show Tab Bar"@
            }
        } else if a.sidebar_visible {
            "Ctrl+S Hide Sidebar"@
        } else {
            "Ctrl+S Show Sidebar"@
        };
        let search: Seq<Seq<char>> = match active_state(a) {
            Some(st) => if !st.focused && st.query.len() == 0 {
                seq!["/ Search"@]
            } else if st.query.len() > 0 {
                seq!["Esc Clear"@]
            } else {
                seq![]
            },
            None => seq![],
        };
        let kill: Seq<Seq<char>> = if a.active_tab == Tab::Proc && a.selected is Some {
            seq!["Delete Kill"@, "Ctrl+K Kill!"@]
        } else {
            seq![]
        };
        let first = seq![toggle] + search + kill;
        if first.len() < MAX_HINTS {
            first.push(
                if a.active_tab == Tab::Proc {
                    "\u{2191}\u{2193} Select"@
                } else {
                    "1-9 Tab"@
                },
            )
        } else {
            first
        }
    }
}

/// Outside notices, errors and the kill dialog, the status bar shows at
/// most `MAX_HINTS` hints: first the sidebar or tab bar toggle; the search
/// hint exactly on a searchable tab whose search is unfocused and empty;
/// the clearing hint exactly when the active tab has a query; the two kill
/// hints exactly on the process tab with a process selected; and, when that
/// leaves room, how to move.
pub proof fn lemma_status_hints_normal(a: AppView)
    requires
        a.kill_feedback is None,
        !a.paused,
        !a.help_visible,
        a.error_msg is None,
        a.kill_state != Some(KillState::Confirm),
    ensures
        ({
            let h = status_hints_spec(a);
            let searchable_idle = active_state(a) matches Some(st) && !st.focused
                && st.query.len() == 0;
            let has_query = active_state(a) matches Some(st) && st.query.len() > 0;
            let can_kill = a.active_tab == Tab::Proc && a.selected is Some;
            &&& 1 <= h.len() <= MAX_HINTS
            &&& h[0] == if a.tab_orientation != TabOrientation::Sidebar {
                if a.tab_bar_visible {
                    "Ctrl+S Hide Tab Bar"@
                } else {
                    "Ctrl+S Show Tab Bar"@
                }
            } else if a.sidebar_visible {
                "Ctrl+S Hide Sidebar"@
            } else {
                "Ctrl+S Show Sidebar"@
            }
            &&& h.contains("/ Search"@) <==> searchable_idle
            &&& h.contains("Esc Clear"@) <==> has_query
            &&& h.contains("Delete Kill"@) <==> can_kill
            &&& h.contains("Ctrl+K Kill!"@) <==> can_kill
            &&& !can_kill ==> h.contains(
                if a.active_tab == Tab::Proc {
                    "\u{2191}\u{2193} Select"@
                } else {
                    "1-9 Tab"@
                },
            )
        }),
{
    reveal_strlit("Ctrl+S Hide Tab Bar");
    reveal_strlit("Ctrl+S Show Tab Bar");
    reveal_strlit("Ctrl+S Hide Sidebar");
    reveal_strlit("Ctrl+S Show Sidebar");
    reveal_strlit("/ Search");
    reveal_strlit("Esc Clear");
    reveal_strlit("Delete Kill");
    reveal_strlit("Ctrl+K Kill!");
    reveal_strlit("\u{2191}\u{2193} Select");
    reveal_strlit("1-9 Tab");
    let h = status_hints_spec(a);
    let toggle = h[0];
    let search: Seq<Seq<char>> = match active_state(a) {
        Some(st) => if !st.focused && st.query.len() == 0 {
            seq!["/ Search"@]
        } else if st.query.len() > 0 {
            seq!["Esc Clear"@]
        } else {
            seq![]
        },
        None => seq![],
    };
    let kill: Seq<Seq<char>> = if a.active_tab == Tab::Proc && a.selected is Some {
        seq!["Delete Kill"@, "Ctrl+K Kill!"@]
    } else {
        seq![]
    };
    let first = seq![toggle] + search + kill;
    let extra = if a.active_tab == Tab::Proc {
        "\u{2191}\u{2193} Select"@
    } else {
        "1-9 Tab"@
    };
    assert(h == if first.len() < MAX_HINTS {
        first.push(extra)
    } else {
        first
    });
    assert(toggle[0] == 'C' && toggle[5] == 'S');
    if kill.len() > 0 {
        assert(h[1 + search.len() as int] == "Delete Kill"@);
        assert(h[2 + search.len() as int] == "Ctrl+K Kill!"@);
    }
    if search.len() > 0 {
        assert(h[1] == search[0]);
    }
    assert("/ Search"@[0] != "Esc Clear"@[0]);
    if search.len() > 0 && search[0] == "Esc Clear"@ {
        assert(active_state(a) matches Some(st) && st.query.len() > 0);
    }
    if first.len() < MAX_HINTS {
        assert(h[h.len() - 1] == extra);
    }
    assert forall|i: int| 0 <= i < h.len() implies #[trigger] h[i] == toggle || (search.len() > 0
        && h[i] == search[0]) || (kill.len() > 0 && (h[i] == kill[0] || h[i] == kill[1])) || (
    first.len() < MAX_HINTS && h[i] == extra) by {
        if i == 0 {
        } else if i < 1 + search.len() {
        } else if i < first.len() {
            assert(kill.len() > 0);
            assert(h[i] == kill[i - 1 - search.len()]);
        }
    }
}

/// `parts` joined with `sep` between each two.
pub open spec fn join_with(parts: Seq<Seq<char>>, sep: Seq<char>) -> Seq<char>
    decreases parts.len(),
{
    if parts.len() == 0 {
        seq![]
    } else if parts.len() == 1 {
        parts[0]
    } else {
        join_with(parts.drop_last(), sep) + sep + parts.last()
    }
}

/// Joins `parts` with `sep` between each two.
pub fn join_strings(parts: &Vec<String>, sep: &str) -> (r: String)
    ensures
        r@ == join_with(parts@.map_values(|p: String| p@), sep@),
{
    let ghost texts = parts@.map_values(|p: String| p@);
    let mut out = String::new();
    let mut i: usize = 0;
    while i < parts.len()
        invariant
            i <= parts.len(),
            texts == parts@.map_values(|p: String| p@),
            out@ == join_with(texts.take(i as int), sep@),
        decreases parts.len() - i,
    {
        if i > 0 {
            out.append(sep);
        }
        out.append(parts[i].as_str());
        assert(texts.take(i + 1).drop_last() =~= texts.take(i as int));
        i = i + 1;
    }
    assert(texts.take(parts.len() as int) =~= texts);
    out
}

/// The text of the status bar.
pub struct StatusBar;

impl StatusBar {
    /// The left part of the status bar (see `status_context`).
    pub fn ctx_string(app: &App) -> (r: String)
        ensures
            r@ == status_context(app@),
    {
        if let Some(fb) = &app.kill_feedback {
            return fb.clone();
        }
        if app.paused {
            return "PAUSED (Space to resume)".to_string();
        }
        if app.help_visible {
            return "Help (? to close)".to_string();
        }
        if app.kill_state == Some(KillState::Confirm) {
            let mut out = String::new();
            out.append("Kill? PID ");
            push_decimal(&mut out, app.selected_pid() as u64);
            out.append(" (");
            out.append(app.selected_name());
            out.append(")");
            return out;
        }
        if let Some(err) = &app.error_msg {
            let mut out = String::new();
            out.append("Error: ");
            out.append(err.as_str());
            return out;
        }
        let label = app.active_tab.label();
        if app.active_tab.is_proc() {
            let mut out = String::new();
            out.append(" [");
            out.append(label);
            out.append(" ");
            out.append(app.proc_sort_field.label());
            out.append(if app.proc_sort_asc { "\u{2191}" } else { "\u{2193}" });
            out.append("]");
            out
        } else {
            label.to_string()
        }
    }

    /// The hint `"<key> <name>"` for choosing `s` in the kill dialog.
    fn signal_hint(s: KillSignal) -> (r: String)
        ensures
            r@ == signal_hint(s),
    {
        let mut out = String::new();
        push_char(&mut out, s.key());
        out.append(" ");
        out.append(s.name());
        out
    }

    /// The hints of the status bar (see `status_hints_spec`).
    pub fn status_hints(app: &App) -> (r: Vec<String>)
        ensures
            r@.map_values(|h: String| h@) == status_hints_spec(app@),
            r@.len() <= MAX_HINTS,
    {
        let ghost a = app@;
        let mut hints: Vec<String> = Vec::new();
        if app.kill_feedback.is_some() || app.paused || app.help_visible || app.error_msg.is_some() {
            assert(hints@.map_values(|h: String| h@) =~= status_hints_spec(a));
            return hints;
        }
        if app.kill_state == Some(KillState::Confirm) {
            hints.push(Self::signal_hint(KillSignal::ALL[0]));
            hints.push(Self::signal_hint(KillSignal::ALL[1]));
            let mut more = String::new();
            push_char(&mut more, KillSignal::ALL[2].key());
            more.append("-");
            push_char(&mut more, KillSignal::ALL[5].key());
            more.append(" More");
            hints.push(more);
            hints.push("any Cancel".to_string());
            assert(hints@[0]@ == signal_hint(KillSignal::Term));
            assert(hints@[2]@ == status_hints_spec(a)[2]);
            assert(hints@[3]@ == status_hints_spec(a)[3]);
            assert(hints@.map_values(|h: String| h@) =~= status_hints_spec(a));
            return hints;
        }
        if app.tab_orientation.is_horizontal() {
            if app.tab_bar_visible {
                hints.push("Ctrl+S Hide Tab Bar".to_string());
            } else {
                hints.push("Ctrl+S Show Tab Bar".to_string());
            }
        } else if app.sidebar_visible {
            hints.push("Ctrl+S Hide Sidebar".to_string());
        } else {
            hints.push("Ctrl+S Show Sidebar".to_string());
        }
        if app.active_tab.has_searchable_state() {
            match app.tab_state() {
                Some(st) => {
                    if !st.focused && st.query.as_str().is_empty() {
                        hints.push("/ Search".to_string());
                    } else if !st.query.as_str().is_empty() {
                        hints.push("Esc Clear".to_string());
                    }
                },
                None => {},
            }
        }
        if app.active_tab.is_proc() && app.selected.is_some() {
            hints.push("Delete Kill".to_string());
            hints.push("Ctrl+K Kill!".to_string());
        }
        if hints.len() < MAX_HINTS {
            if app.active_tab.is_proc() {
                hints.push("\u{2191}\u{2193} Select".to_string());
            } else {
                hints.push("1-9 Tab".to_string());
            }
        }
        assert(hints@.map_values(|h: String| h@) =~= status_hints_spec(a));
        hints
    }

    /// The two parts of the status bar: the context and the hints joined
    /// by `HINT_SEP`.
    pub fn display(app: &App) -> (r: (String, String))
        ensures
            r.0@ == status_context(app@),
            r.1@ == join_with(status_hints_spec(app@), HINT_SEP@),
    {
        let ctx = Self::ctx_string(app);
        let hints = Self::status_hints(app);
        let joined = join_strings(&hints, HINT_SEP);
        (ctx, joined)
    }
}

// ── Filtering tables by a query ─────────────────────────────────────────

/// The Unicode lower case of `s`, as `str::to_lowercase` computes it.
pub uninterp spec fn lowercase_of(s: Seq<char>) -> Seq<char>;

/// `str::to_lowercase`. Its result is named `lowercase_of` of the input:
/// the Unicode case tables it follows are not written out here.
#[verifier::external_body]
fn to_lowercase(s: &str) -> (r: String)
    ensures
        r@ == lowercase_of(s@),
{
    s.to_lowercase()
}

/// Whether `needle` occurs in `hay` as a run of consecutive characters.
pub open spec fn has_substring(hay: Seq<char>, needle: Seq<char>) -> bool {
    exists|i: int|
        0 <= i && i + needle.len() <= hay.len() && #[trigger] hay.subrange(i, i + needle.len())
            == needle
}

/// Whether `needle` occurs in `hay` at position `i`.
fn chars_match_at(hay: &Vec<char>, needle: &Vec<char>, i: usize) -> (r: bool)
    requires
        i + needle@.len() <= hay@.len(),
    ensures
        r == (hay@.subrange(i as int, i + needle@.len()) == needle@),
{
    let n = needle.len();
    let len = hay.len();
    let mut j: usize = 0;
    while j < n
        invariant
            n == needle@.len(),
            len == hay@.len(),
            i + n <= hay@.len(),
            j <= n,
            forall|m: int| 0 <= m < j ==> hay@[i + m] == needle@[m],
        decreases n - j,
    {
        if hay[i + j] != needle[j] {
            assert(hay@.subrange(i as int, i + n)[j as int] != needle@[j as int]);
            return false;
        }
        j = j + 1;
    }
    assert(hay@.subrange(i as int, i + n) =~= needle@);
    true
}

/// Whether `needle` occurs in `hay`.
fn contains_chars(hay: &Vec<char>, needle: &Vec<char>) -> (r: bool)
    ensures
        r == has_substring(hay@, needle@),
{
    let n = needle.len();
    if n > hay.len() {
        return false;
    }
    if n == 0 {
        assert(hay@.subrange(0, 0int + needle@.len()) =~= needle@);
        return true;
    }
    let len = hay.len();
    let mut i: usize = 0;
    while i <= len - n
        invariant
            len == hay@.len(),
            n == needle@.len(),
            0 < n <= hay@.len(),
            i <= hay@.len() - n + 1,
            forall|k: int| 0 <= k < i ==> #[trigger] hay@.subrange(k, k + n) != needle@,
        decreases hay.len() + 1 - i,
    {
        if chars_match_at(hay, needle, i) {
            return true;
        }
        i = i + 1;
    }
    proof {
        assert forall|k: int| 0 <= k && k + n <= hay@.len() implies #[trigger] hay@.subrange(
            k,
            k + n,
        ) != needle@ by {
            assert(k < i);
        }
    }
    false
}

/// Whether the lower case of `text` contains the lower case of `query`:
/// how the network and file system tables match a row against the query.
pub fn matches_query(text: &str, query: &str) -> (r: bool)
    ensures
        r == has_substring(lowercase_of(text@), lowercase_of(query@)),
{
    let t = to_lowercase(text);
    let q = to_lowercase(query);
    let tc = chars_of(t.as_str());
    let qc = chars_of(q.as_str());
    contains_chars(&tc, &qc)
}

/// ASCII lower case of one byte.
pub open spec fn ascii_lower_byte(b: u8) -> u8 {
    if 65 <= b <= 90 {
        (b + 32) as u8
    } else {
        b
    }
}

/// Whether `needle` occurs in `hay`, comparing bytes without regard to
/// ASCII case.
pub open spec fn contains_ascii_ci(hay: Seq<u8>, needle: Seq<u8>) -> bool {
    exists|i: int|
        0 <= i && i + needle.len() <= hay.len() && #[trigger] ci_match_at(hay, needle, i)
}

/// Whether `needle` matches `hay` at byte `i`, without regard to ASCII case.
pub open spec fn ci_match_at(hay: Seq<u8>, needle: Seq<u8>, i: int) -> bool {
    forall|j: int|
        0 <= j < needle.len() ==> ascii_lower_byte(#[trigger] hay[i + j]) == ascii_lower_byte(
            needle[j],
        )
}

fn lower_byte(b: u8) -> (r: u8)
    ensures
        r == ascii_lower_byte(b),
{
    if 65 <= b && b <= 90 {
        b + 32
    } else {
        b
    }
}

/// Whether `needle` matches `hay` at byte `i` without regard to ASCII case.
fn bytes_match_at_ci(hay: &[u8], needle: &[u8], i: usize) -> (r: bool)
    requires
        i + needle@.len() <= hay@.len(),
    ensures
        r == ci_match_at(hay@, needle@, i as int),
{
    let n = needle.len();
    let len = hay.len();
    let mut j: usize = 0;
    while j < n
        invariant
            n == needle@.len(),
            len == hay@.len(),
            i + n <= hay@.len(),
            j <= n,
            forall|m: int|
                0 <= m < j ==> ascii_lower_byte(hay@[i + m]) == ascii_lower_byte(needle@[m]),
        decreases n - j,
    {
        if lower_byte(hay[i + j]) != lower_byte(needle[j]) {
            assert(ascii_lower_byte(hay@[i + j]) != ascii_lower_byte(needle@[j as int]));
            return false;
        }
        j = j + 1;
    }
    true
}

/// Whether `needle` occurs in `hay` without regard to ASCII case.
fn contains_bytes_ci(hay: &[u8], needle: &[u8]) -> (r: bool)
    ensures
        r == contains_ascii_ci(hay@, needle@),
{
    let n = needle.len();
    if n > hay.len() {
        return false;
    }
    let len = hay.len();
    let mut i: usize = 0;
    while i <= len - n
        invariant
            len == hay@.len(),
            n == needle@.len(),
            n <= hay@.len(),
            i <= hay@.len() - n + 1,
            forall|k: int| 0 <= k < i ==> !#[trigger] ci_match_at(hay@, needle@, k),
        decreases hay.len() + 1 - i,
    {
        if bytes_match_at_ci(hay, needle, i) {
            return true;
        }
        i = i + 1;
    }
    proof {
        assert forall|k: int| 0 <= k && k + n <= hay@.len() implies !#[trigger] ci_match_at(
            hay@,
            needle@,
            k,
        ) by {
            assert(k < i);
        }
    }
    false
}

/// What `str::parse::<u32>` gives on `s`.
pub open spec fn parse_u32_spec(s: Seq<char>) -> Option<u32> {
    match parse_u64_spec(s) {
        Some(v) => if v <= u32::MAX {
            Some(v as u32)
        } else {
            None
        },
        None => None,
    }
}

fn parse_u32(s: &str) -> (r: Option<u32>)
    ensures
        r == parse_u32_spec(s@),
{
    match parse_u64(s) {
        Some(v) => if v <= u32::MAX as u64 {
            Some(v as u32)
        } else {
            None
        },
        None => None,
    }
}

/// Whether process `name` with `pid` is shown for the non-empty `query`:
/// when the query is that PID, or when the name contains the query's lower
/// case without regard to ASCII case.
pub open spec fn process_matches(query: Seq<char>, name: Seq<char>, pid: u32) -> bool {
    parse_u32_spec(query) == Some(pid) || contains_ascii_ci(
        encode_utf8(name),
        encode_utf8(lowercase_of(query)),
    )
}

/// The positions of the processes shown for `query`, in order: all of
/// them for an empty query.
pub open spec fn matching_processes(query: Seq<char>, procs: Seq<(String, u32)>) -> Seq<usize>
    decreases procs.len(),
{
    if procs.len() == 0 {
        seq![]
    } else {
        let rest = matching_processes(query, procs.drop_last());
        if query.len() == 0 || process_matches(query, procs.last().0@, procs.last().1) {
            rest.push((procs.len() - 1) as usize)
        } else {
            rest
        }
    }
}

/// The positions shown for `query` are positions of `procs`, and position
/// `k` is shown exactly when the query is empty or the process matches it.
proof fn lemma_matching_processes_members(query: Seq<char>, procs: Seq<(String, u32)>, k: int)
    requires
        0 <= k < procs.len(),
        procs.len() <= usize::MAX,
    ensures
        matching_processes(query, procs).contains(k as usize) <==> (query.len() == 0
            || process_matches(query, procs[k].0@, procs[k].1)),
        forall|i: int|
            0 <= i < matching_processes(query, procs).len() ==> #[trigger] matching_processes(
                query,
                procs,
            )[i] < procs.len(),
    decreases procs.len(),
{
    let rest = procs.drop_last();
    let n = procs.len() - 1;
    if k < n {
        assert(rest[k] == procs[k]);
        lemma_matching_processes_members(query, rest, k);
        if matching_processes(query, procs).contains(k as usize) {
            let x = choose|x: int|
                0 <= x < matching_processes(query, procs).len() && matching_processes(
                    query,
                    procs,
                )[x] == k as usize;
            if x < matching_processes(query, rest).len() {
                assert(matching_processes(query, rest)[x] == k as usize);
            }
        }
        if matching_processes(query, rest).contains(k as usize) {
            let x = choose|x: int|
                0 <= x < matching_processes(query, rest).len() && matching_processes(query, rest)[x]
                    == k as usize;
            assert(matching_processes(query, procs)[x] == k as usize);
        }
    } else {
        if n > 0 {
            lemma_matching_processes_members(query, rest, 0);
        }
        if matching_processes(query, procs).contains(k as usize) {
            let x = choose|x: int|
                0 <= x < matching_processes(query, procs).len() && matching_processes(
                    query,
                    procs,
                )[x] == k as usize;
            if x < matching_processes(query, rest).len() {
                assert(matching_processes(query, rest)[x] < rest.len());
            }
        }
        if query.len() == 0 || process_matches(query, procs[k].0@, procs[k].1) {
            assert(matching_processes(query, procs).last() == k as usize);
        }
    }
    if n > 0 {
        lemma_matching_processes_members(query, rest, 0);
    }
}

/// The bytes of `s` with ASCII capitals made small.
pub open spec fn lower_bytes(s: Seq<u8>) -> Seq<u8> {
    s.map_values(|b: u8| ascii_lower_byte(b))
}

/// A process is shown for a non-empty query exactly when the query is its
/// PID, or when the query's lower case occurs in its name at some byte
/// offset, anywhere in the name, with ASCII letters compared without
/// regard to case.
pub proof fn lemma_filter_finds_substring(query: Seq<char>, procs: Seq<(String, u32)>, k: int)
    requires
        query.len() > 0,
        0 <= k < procs.len(),
        procs.len() <= usize::MAX,
    ensures
        ({
            let name = encode_utf8(procs[k].0@);
            let q = encode_utf8(lowercase_of(query));
            matching_processes(query, procs).contains(k as usize) <==> (parse_u32_spec(query)
                == Some(procs[k].1) || exists|i: int|
                0 <= i && i + q.len() <= name.len() && #[trigger] lower_bytes(
                    name.subrange(i, i + q.len()),
                ) == lower_bytes(q))
        }),
{
    lemma_matching_processes_members(query, procs, k);
    let name = encode_utf8(procs[k].0@);
    let q = encode_utf8(lowercase_of(query));
    assert forall|i: int| 0 <= i && i + q.len() <= name.len() implies (ci_match_at(name, q, i)
        <==> #[trigger] lower_bytes(name.subrange(i, i + q.len())) == lower_bytes(q)) by {
        let w = lower_bytes(name.subrange(i, i + q.len()));
        let v = lower_bytes(q);
        if ci_match_at(name, q, i) {
            assert forall|j: int| 0 <= j < q.len() implies w[j] == v[j] by {
                assert(name.subrange(i, i + q.len())[j] == name[i + j]);
            }
            assert(w =~= v);
        }
        if w == v {
            assert forall|j: int| 0 <= j < q.len() implies ascii_lower_byte(#[trigger] name[i + j])
                == ascii_lower_byte(q[j]) by {
                assert(name.subrange(i, i + q.len())[j] == name[i + j]);
                assert(w[j] == v[j]);
            }
        }
    }
    if contains_ascii_ci(name, q) {
        let i = choose|i: int| 0 <= i && i + q.len() <= name.len() && #[trigger] ci_match_at(name, q, i);
        assert(lower_bytes(name.subrange(i, i + q.len())) == lower_bytes(q));
    }
    if exists|i: int|
        0 <= i && i + q.len() <= name.len() && #[trigger] lower_bytes(name.subrange(i, i + q.len()))
            == lower_bytes(q) {
        let i = choose|i: int|
            0 <= i && i + q.len() <= name.len() && #[trigger] lower_bytes(
                name.subrange(i, i + q.len()),
            ) == lower_bytes(q);
        assert(ci_match_at(name, q, i));
    }
}

/// The positions of the (name, PID) pairs shown for `query`, in order: all
/// of them when the query is empty; otherwise those whose PID the query
/// is, or whose name contains the query's lower case without regard to
/// ASCII case.
pub fn filter_processes(query: &str, procs: &[(String, u32)]) -> (r: Vec<usize>)
    ensures
        r@ == matching_processes(query@, procs@),
{
    let mut out: Vec<usize> = Vec::new();
    let empty = query.is_empty();
    let q = to_lowercase(query);
    let q_bytes = q.as_str().as_bytes();
    let query_pid = parse_u32(query);
    let mut i: usize = 0;
    while i < procs.len()
        invariant
            i <= procs@.len(),
            empty == (query@.len() == 0),
            q_bytes@ == encode_utf8(lowercase_of(query@)),
            query_pid == parse_u32_spec(query@),
            out@ == matching_processes(query@, procs@.take(i as int)),
        decreases procs.len() - i,
    {
        let (name, pid) = (&procs[i].0, procs[i].1);
        let shown = empty || match query_pid {
            Some(p) => p == pid,
            None => false,
        } || contains_bytes_ci(name.as_str().as_bytes(), q_bytes);
        assert(procs@.take(i + 1).drop_last() =~= procs@.take(i as int));
        if shown {
            out.push(i);
        }
        i = i + 1;
    }
    assert(procs@.take(procs.len() as int) =~= procs@);
    out
}

} // verus!
