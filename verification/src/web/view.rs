//! HTML rendering helpers of the dashboard.
use crate::decimal::{decimal, half_even, hundredths_text, show_hundredths, show_u64};
use crate::text::{cat, cat3, chars_of};
use vstd::prelude::*;
use vstd::string::*;

verus! {

/// What stands for a character in HTML.
pub open spec fn escape_char(c: char) -> Seq<char> {
    if c == '&' {
        "&amp;"@
    } else if c == '<' {
        "&lt;"@
    } else if c == '>' {
        "&gt;"@
    } else if c == '"' {
        "&quot;"@
    } else if c == '\'' {
        "&#39;"@
    } else {
        seq![c]
    }
}

/// A text with the characters that HTML reserves replaced.
pub open spec fn escape_html(s: Seq<char>) -> Seq<char>
    decreases s.len(),
{
    if s.len() == 0 {
        Seq::empty()
    } else {
        escape_html(s.drop_last()) + escape_char(s.last())
    }
}

/// Whether a character can open or close a tag or an attribute value.
pub open spec fn is_markup(c: char) -> bool {
    c == '<' || c == '>' || c == '"' || c == '\''
}

/// Escaped text holds no character that can open or close a tag or an attribute
/// value.
pub proof fn escaped_text_has_no_markup(s: Seq<char>, c: char)
    requires
        is_markup(c),
    ensures
        !escape_html(s).contains(c),
    decreases s.len(),
{
    if s.len() > 0 {
        let head = escape_html(s.drop_last());
        let tail = escape_char(s.last());
        escaped_text_has_no_markup(s.drop_last(), c);
        reveal_strlit("&amp;");
        reveal_strlit("&lt;");
        reveal_strlit("&gt;");
        reveal_strlit("&quot;");
        reveal_strlit("&#39;");
        assert forall|i: int| 0 <= i < tail.len() implies tail[i] != c by {}
        if (head + tail).contains(c) {
            let i = choose|i: int| 0 <= i < (head + tail).len() && (head + tail)[i] == c;
            if i < head.len() {
                assert(head[i] == c);
            } else {
                assert(tail[i - head.len()] == c);
            }
        }
    }
}

/// Text without reserved characters stays as it is.
pub proof fn plain_text_is_kept(s: Seq<char>)
    requires
        forall|i: int| 0 <= i < s.len() ==> !is_markup(#[trigger] s[i]) && s[i] != '&',
    ensures
        escape_html(s) == s,
    decreases s.len(),
{
    if s.len() > 0 {
        let t = s.drop_last();
        assert forall|i: int| 0 <= i < t.len() implies !is_markup(#[trigger] t[i]) && t[i]
            != '&' by {
            assert(t[i] == s[i]);
        }
        plain_text_is_kept(t);
        assert(s[s.len() - 1] == s.last());
        assert(s =~= t + seq![s.last()]);
    } else {
        assert(s =~= Seq::<char>::empty());
    }
}

/// Replaces the characters that HTML reserves.
pub fn html_escape(s: &str) -> (r: String)
    ensures
        r@ == escape_html(s@),
{
    let chars = chars_of(s);
    let mut out = String::new();
    let mut i: usize = 0;
    while i < chars.len()
        invariant
            i <= chars@.len(),
            out@ == escape_html(chars@.take(i as int)),
        decreases chars@.len() - i,
    {
        let c = chars[i];
        assert(chars@.take(i + 1).drop_last() =~= chars@.take(i as int));
        assert(chars@.take(i + 1).last() == c);
        let ghost before = out@;
        if c == '&' {
            out.append("&amp;");
        } else if c == '<' {
            out.append("&lt;");
        } else if c == '>' {
            out.append("&gt;");
        } else if c == '"' {
            out.append("&quot;");
        } else if c == '\'' {
            out.append("&#39;");
        } else {
            out.push(c);
            assert(out@ =~= before + seq![c]);
        }
        i += 1;
    }
    assert(chars@.take(i as int) =~= chars@);
    out
}

/// What the overview strip shows.
#[derive(Debug, Clone)]
pub struct VpsOverview {
    pub deskd_version: String,
    /// Seconds since the start.
    pub uptime: Option<u64>,
    pub disk_total_bytes: Option<u64>,
    pub disk_free_bytes: Option<u64>,
}

/// The placeholder for a missing value.
pub const EM_DASH: &'static str = "<span class=\"em\">—</span>";

/// The placeholder for a missing value.
pub fn em_dash() -> (r: String)
    ensures
        r@ == EM_DASH@,
{
    String::from_str(EM_DASH)
}

/// An uptime of so many seconds, in its two largest units.
pub open spec fn uptime_text(total: nat) -> Seq<char> {
    let mins = total / 60;
    let hours = mins / 60;
    let days = hours / 24;
    if total < 60 {
        decimal(total) + "s"@
    } else if mins < 60 {
        decimal(mins) + "m"@
    } else if hours < 24 {
        if mins % 60 == 0 {
            decimal(hours) + "h"@
        } else {
            decimal(hours) + "h "@ + decimal(mins % 60) + "m"@
        }
    } else if hours % 24 == 0 {
        decimal(days) + "d"@
    } else {
        decimal(days) + "d "@ + decimal(hours % 24) + "h"@
    }
}

fn two_units(a: u64, a_unit: &str, b: u64, b_unit: &str) -> (r: String)
    ensures
        r@ == decimal(a as nat) + a_unit@ + decimal(b as nat) + b_unit@,
{
    let mut out = cat3(&show_u64(a), a_unit, &show_u64(b));
    out.append(b_unit);
    out
}

/// An uptime of so many seconds, in its two largest units.
pub fn format_uptime(total: u64) -> (r: String)
    ensures
        r@ == uptime_text(total as nat),
{
    if total < 60 {
        return cat(&show_u64(total), "s");
    }
    let mins: u64 = total / 60;
    if mins < 60 {
        return cat(&show_u64(mins), "m");
    }
    let hours: u64 = mins / 60;
    let rem_min: u64 = mins % 60;
    if hours < 24 {
        if rem_min == 0 {
            return cat(&show_u64(hours), "h");
        }
        return two_units(hours, "h ", rem_min, "m");
    }
    let days: u64 = hours / 24;
    let rem_h: u64 = hours % 24;
    if rem_h == 0 {
        cat(&show_u64(days), "d")
    } else {
        two_units(days, "d ", rem_h, "h")
    }
}

/// A number of bytes in the largest binary unit that it fills.
pub open spec fn bytes_text(n: nat) -> Seq<char> {
    if n < 1024 {
        decimal(n) + " B"@
    } else if n < 1048576 {
        hundredths_text(half_even(n * 100, 1024)) + " KiB"@
    } else if n < 1073741824 {
        hundredths_text(half_even(n * 100, 1048576)) + " MiB"@
    } else {
        hundredths_text(half_even(n * 100, 1073741824)) + " GiB"@
    }
}

/// A number of bytes in the largest binary unit that it fills.
pub fn format_bytes(n: u64) -> (r: String)
    ensures
        r@ == bytes_text(n as nat),
{
    if n < 1024 {
        cat(&show_u64(n), " B")
    } else if n < 1048576 {
        cat(&show_hundredths(n, 1024), " KiB")
    } else if n < 1073741824 {
        cat(&show_hundredths(n, 1048576), " MiB")
    } else {
        cat(&show_hundredths(n, 1073741824), " GiB")
    }
}

/// The overview strip up to the version.
pub const STRIP_HEAD: &'static str = r#"<section class="vps-strip">
  <span class="vps-strip__item"><strong>deskd</strong> v"#;

/// The overview strip from the version to the uptime.
pub const STRIP_UPTIME: &'static str = r#"</span>
  <span class="vps-strip__item"><strong>uptime</strong> "#;

/// The overview strip from the uptime to the disk.
pub const STRIP_DISK: &'static str = r#"</span>
  <span class="vps-strip__item"><strong>disk</strong> "#;

/// The overview strip after the disk.
pub const STRIP_TAIL: &'static str = r#"</span>
</section>"#;

/// What the overview strip says of the disk.
pub open spec fn disk_text(free: Option<u64>, total: Option<u64>) -> Seq<char> {
    match (free, total) {
        (Some(f), Some(t)) => if t > 0 {
            bytes_text(f as nat) + " free / "@ + bytes_text(t as nat)
        } else {
            EM_DASH@
        },
        _ => EM_DASH@,
    }
}

/// The overview strip.
pub fn vps_strip(overview: &VpsOverview) -> (r: String)
    ensures
        r@ == STRIP_HEAD@ + escape_html(overview.deskd_version@) + STRIP_UPTIME@ + (
        match overview.uptime {
            Some(secs) => uptime_text(secs as nat),
            None => EM_DASH@,
        }) + STRIP_DISK@ + disk_text(overview.disk_free_bytes, overview.disk_total_bytes)
            + STRIP_TAIL@,
{
    let uptime = match overview.uptime {
        Some(secs) => format_uptime(secs),
        None => em_dash(),
    };
    let disk = match (overview.disk_free_bytes, overview.disk_total_bytes) {
        (Some(free), Some(total)) => {
            if total > 0 {
                cat3(&format_bytes(free), " free / ", &format_bytes(total))
            } else {
                em_dash()
            }
        },
        _ => em_dash(),
    };
    let version = html_escape(&overview.deskd_version);
    let mut out = cat3(STRIP_HEAD, &version, STRIP_UPTIME);
    out.append(&uptime);
    out.append(STRIP_DISK);
    out.append(&disk);
    out.append(STRIP_TAIL);
    out
}

/// Every character is escaped for itself, in order.
pub proof fn texts_are_escaped_in_order(a: Seq<char>, b: Seq<char>)
    ensures
        escape_html(a + b) == escape_html(a) + escape_html(b),
        escape_html(seq!['<']) == "&lt;"@,
        escape_html(seq!['>']) == "&gt;"@,
        escape_html(seq!['&']) == "&amp;"@,
    decreases b.len(),
{
    if b.len() == 0 {
        assert(a + b =~= a);
        assert(escape_html(a) + escape_html(b) =~= escape_html(a));
    } else {
        texts_are_escaped_in_order(a, b.drop_last());
        assert((a + b).drop_last() =~= a + b.drop_last());
        assert(escape_html(a + b) =~= escape_html(a) + escape_html(b));
    }
    let e = Seq::<char>::empty();
    assert(seq!['<'].drop_last() =~= e);
    assert(seq!['>'].drop_last() =~= e);
    assert(seq!['&'].drop_last() =~= e);
    assert(escape_html(e) == e);
    assert(escape_html(seq!['<']) =~= "&lt;"@);
    assert(escape_html(seq!['>']) =~= "&gt;"@);
    assert(escape_html(seq!['&']) =~= "&amp;"@);
}

/// A time since the start is told in its two largest units.
pub proof fn uptime_is_told_in_its_largest_units(days: nat, hours: nat, minutes: nat, seconds: nat)
    requires
        hours < 24,
        minutes < 60,
        seconds < 60,
    ensures
        ({
            let t = uptime_text(days * 86_400 + hours * 3_600 + minutes * 60 + seconds);
            &&& days > 0 && hours > 0 ==> t == decimal(days) + "d "@ + decimal(hours) + "h"@
            &&& days > 0 && hours == 0 ==> t == decimal(days) + "d"@
            &&& days == 0 && hours > 0 && minutes > 0 ==> t == decimal(hours) + "h "@ + decimal(
                minutes,
            ) + "m"@
            &&& days == 0 && hours > 0 && minutes == 0 ==> t == decimal(hours) + "h"@
            &&& days == 0 && hours == 0 && minutes > 0 ==> t == decimal(minutes) + "m"@
            &&& days == 0 && hours == 0 && minutes == 0 ==> t == decimal(seconds) + "s"@
        }),
{
    let total = days * 86_400 + hours * 3_600 + minutes * 60 + seconds;
    let mins = days * 1_440 + hours * 60 + minutes;
    let hs = days * 24 + hours;
    assert(total / 60 == mins);
    assert(mins / 60 == hs);
    assert(mins % 60 == minutes);
    assert(hs / 24 == days);
    assert(hs % 24 == hours);
}

/// A whole number of kibibytes, mebibytes or gibibytes is told as such.
pub proof fn whole_sizes_are_told_in_their_unit(k: nat)
    requires
        1 <= k < 1024,
    ensures
        bytes_text(k) == decimal(k) + " B"@,
        bytes_text(k * 1024) == decimal(k) + ".00"@ + " KiB"@,
        bytes_text(k * 1024 * 1024) == decimal(k) + ".00"@ + " MiB"@,
        bytes_text(k * 1024 * 1024 * 1024) == decimal(k) + ".00"@ + " GiB"@,
{
    reveal_strlit(".00");
    reveal_strlit(".");
    assert(decimal(0) =~= seq!['0']);
    let h = k * 100;
    assert(h / 100 == k);
    assert(h % 100 == 0);
    assert(h % 10 == 0);
    assert(hundredths_text(h) =~= decimal(k) + ".00"@);
    assert(k * 1024 * 100 == h * 1024);
    assert((h * 1024) / 1024 == h && (h * 1024) % 1024 == 0);
    assert(half_even(k * 1024 * 100, 1024) == h);
    assert(k * 1024 * 1024 * 100 == h * 1048576);
    assert((h * 1048576) / 1048576 == h && (h * 1048576) % 1048576 == 0);
    assert(half_even(k * 1024 * 1024 * 100, 1048576) == h);
    assert(k * 1024 * 1024 * 1024 * 100 == h * 1073741824);
    assert((h * 1073741824) / 1073741824 == h && (h * 1073741824) % 1073741824 == 0);
    assert(half_even(k * 1024 * 1024 * 1024 * 100, 1073741824) == h);
}

/// The disk is told as what is free of the whole, where both are known.
pub proof fn disk_is_told_where_it_is_known(free: u64, total: u64)
    ensures
        total > 0 ==> disk_text(Some(free), Some(total)) == bytes_text(free as nat) + " free / "@
            + bytes_text(total as nat),
        disk_text(None, Some(total)) == EM_DASH@,
        disk_text(Some(free), None) == EM_DASH@,
        disk_text(Some(free), Some(0)) == EM_DASH@,
{
}

} // verus!
