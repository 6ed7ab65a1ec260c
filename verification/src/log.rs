//! Where the alert log lives, when it is rotated, and what a line of it
//! says.

use vstd::prelude::*;
use crate::text::{
    dec, pad2, push_dec_zero_padded, push_pad2, push_str, string_of, zero_pad,
};

verus! {

/// Size beyond which the log is rotated, in bytes.
pub const MAX_LOG_SIZE: u64 = 5242880;

/// `base` with `name` appended as a path component (`PathBuf::push` of a
/// relative name): a separator is added unless `base` is empty or ends
/// with one.
pub open spec fn path_join(base: Seq<char>, name: Seq<char>) -> Seq<char> {
    if base.len() == 0 || base.last() == '/' {
        base + name
    } else {
        base + "/"@ + name
    }
}

pub fn push_path(s: &mut String, name: &str)
    ensures
        final(s)@ == path_join(old(s)@, name@),
{
    let n = s.as_str().unicode_len();
    if n > 0 && s.as_str().get_char(n - 1) != '/' {
        push_str(s, "/");
    }
    push_str(s, name);
}

/// The data directory: `$XDG_DATA_HOME/sema` when that is set (as given,
/// symbolic links resolved), else `$HOME/.local/share/sema`, with the
/// current directory when `HOME` is not set either.
pub open spec fn data_dir_spec(xdg_data_home: Option<Seq<char>>, home: Option<Seq<char>>) -> Seq<
    char,
> {
    match xdg_data_home {
        Some(d) => path_join(d, "sema"@),
        None => {
            let h = match home {
                Some(h) => h,
                None => "."@,
            };
            path_join(path_join(path_join(h, ".local"@), "share"@), "sema"@)
        },
    }
}

pub open spec fn opt_view(o: Option<&str>) -> Option<Seq<char>> {
    match o {
        Some(s) => Some(s@),
        None => None,
    }
}

/// The data directory.
pub fn data_dir(xdg_data_home: Option<&str>, home: Option<&str>) -> (p: String)
    ensures
        p@ == data_dir_spec(opt_view(xdg_data_home), opt_view(home)),
{
    match xdg_data_home {
        Some(d) => {
            let mut p = string_of(d);
            push_path(&mut p, "sema");
            p
        },
        None => {
            let mut p = match home {
                Some(h) => string_of(h),
                None => string_of("."),
            };
            push_path(&mut p, ".local");
            push_path(&mut p, "share");
            push_path(&mut p, "sema");
            p
        },
    }
}

/// The alert log: `sema.log` in the data directory.
pub fn log_path(xdg_data_home: Option<&str>, home: Option<&str>) -> (p: String)
    ensures
        p@ == path_join(data_dir_spec(opt_view(xdg_data_home), opt_view(home)), "sema.log"@),
{
    let mut p = data_dir(xdg_data_home, home);
    push_path(&mut p, "sema.log");
    p
}

/// The diagnostics log: `sema-trace.log` in the data directory.
pub fn trace_log_path(xdg_data_home: Option<&str>, home: Option<&str>) -> (p: String)
    ensures
        p@ == path_join(
            data_dir_spec(opt_view(xdg_data_home), opt_view(home)),
            "sema-trace.log"@,
        ),
{
    let mut p = data_dir(xdg_data_home, home);
    push_path(&mut p, "sema-trace.log");
    p
}

/// The alert log's path as shown to the user.
pub fn log_path_display(xdg_data_home: Option<&str>, home: Option<&str>) -> (p: String)
    ensures
        p@ == path_join(data_dir_spec(opt_view(xdg_data_home), opt_view(home)), "sema.log"@),
{
    log_path(xdg_data_home, home)
}

/// Whether a log of `len` bytes is due for rotation.
pub fn rotation_due(len: u64) -> (b: bool)
    ensures
        b == (len > MAX_LOG_SIZE),
{
    len > MAX_LOG_SIZE
}

/// A line of the alert log.
pub open spec fn log_line_spec(ts: Seq<char>, summary: Seq<char>, body: Seq<char>) -> Seq<char> {
    "["@ + ts + "] "@ + summary + " | "@ + body + "\n"@
}

pub fn log_line(ts: &str, summary: &str, body: &str) -> (l: String)
    ensures
        l@ == log_line_spec(ts@, summary@, body@),
{
    let mut l = String::new();
    push_str(&mut l, "[");
    push_str(&mut l, ts);
    push_str(&mut l, "] ");
    push_str(&mut l, summary);
    push_str(&mut l, " | ");
    push_str(&mut l, body);
    push_str(&mut l, "\n");
    l
}

/// A year as `%Y` writes it: four digits at least, with a sign outside
/// the years 0 to 9999.
pub open spec fn year_text(y: int) -> Seq<char> {
    let a: nat = if y < 0 { (-y) as nat } else { y as nat };
    let sign: Seq<char> = if 0 <= y <= 9999 {
        seq![]
    } else if y < 0 {
        seq!['-']
    } else {
        seq!['+']
    };
    sign + zero_pad(dec(a), 4)
}

/// A date and time as `%Y-%m-%d %H:%M:%S` writes it.
pub open spec fn timestamp_text(y: int, mo: nat, d: nat, h: nat, mi: nat, s: nat) -> Seq<char> {
    year_text(y) + "-"@ + pad2(mo) + "-"@ + pad2(d) + " "@ + pad2(h) + ":"@ + pad2(mi) + ":"@
        + pad2(s)
}

/// Renders a date and time as `%Y-%m-%d %H:%M:%S`.
pub fn format_timestamp(y: i32, mo: u32, d: u32, h: u32, mi: u32, s: u64) -> (t: String)
    ensures
        t@ == timestamp_text(y as int, mo as nat, d as nat, h as nat, mi as nat, s as nat),
{
    let mut t = String::new();
    let a: u128 = if y < 0 {
        (-(y as i64)) as u128
    } else {
        y as u128
    };
    if !(0 <= y && y <= 9999) {
        if y < 0 {
            crate::text::push_char(&mut t, '-');
        } else {
            crate::text::push_char(&mut t, '+');
        }
    }
    push_dec_zero_padded(&mut t, a, 4);
    assert(t@ =~= year_text(y as int));
    let ghost yt = t@;
    push_str(&mut t, "-");
    push_pad2(&mut t, mo as u128);
    push_str(&mut t, "-");
    push_pad2(&mut t, d as u128);
    push_str(&mut t, " ");
    push_pad2(&mut t, h as u128);
    push_str(&mut t, ":");
    push_pad2(&mut t, mi as u128);
    push_str(&mut t, ":");
    push_pad2(&mut t, s as u128);
    assert(t@ =~= yt + "-"@ + pad2(mo as nat) + "-"@ + pad2(d as nat) + " "@ + pad2(h as nat) + ":"@
        + pad2(mi as nat) + ":"@ + pad2(s as nat));
    t
}

/// The line the alert log gets for a notification, stamped with a local
/// date and time; a nanosecond count of a second or more marks a leap
/// second, written as second 60.
pub fn stamped_log_line(
    summary: &str,
    body: &str,
    y: i32,
    mo: u32,
    d: u32,
    h: u32,
    mi: u32,
    s: u32,
    ns: u32,
) -> (l: String)
    ensures
        l@ == log_line_spec(
            timestamp_text(y as int, mo as nat, d as nat, h as nat, mi as nat, (s + ns / 1000000000) as nat),
            summary@,
            body@,
        ),
{
    let sec: u64 = s as u64 + (ns / 1000000000) as u64;
    let ts = format_timestamp(y, mo, d, h, mi, sec);
    log_line(ts.as_str(), summary, body)
}

} // verus!
