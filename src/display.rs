//! Helpers for presenting jobs to a user.

use vstd::prelude::*;
use crate::config::Config;
use crate::job::DownloadRequest;
use crate::text::{append_str, copy_opt_string, copy_string, copy_strings, decimal, digit_char, push_char, push_decimal};

verus! {

/// `s` seconds remaining as `<m>m <ss>s`, or as `<s>s` under a minute.
pub open spec fn eta_text(s: nat) -> Seq<char> {
    if s / 60 > 0 {
        decimal(s / 60) + "m "@ + seq![digit_char((s % 60) / 10), digit_char(s % 10)] + "s"@
    } else {
        decimal(s) + "s"@
    }
}

/// Time remaining, for display.
pub fn format_eta(secs: u64) -> (r: String)
    ensures
        r@ == eta_text(secs as nat),
{
    let minutes = secs / 60;
    let seconds = secs % 60;
    let mut s = String::new();
    if minutes > 0 {
        push_decimal(&mut s, minutes);
        append_str(&mut s, "m ");
        push_char(&mut s, tens_digit(seconds));
        push_char(&mut s, unit_digit(seconds));
        append_str(&mut s, "s");
        assert(s@ =~= eta_text(secs as nat));
    } else {
        push_decimal(&mut s, seconds);
        append_str(&mut s, "s");
        assert(s@ =~= eta_text(secs as nat));
    }
    s
}

fn tens_digit(n: u64) -> (r: char)
    requires
        n < 60,
    ensures
        r == digit_char((n / 10) as nat),
{
    let d = n / 10;
    if d == 0 {
        '0'
    } else if d == 1 {
        '1'
    } else if d == 2 {
        '2'
    } else if d == 3 {
        '3'
    } else if d == 4 {
        '4'
    } else {
        '5'
    }
}

fn unit_digit(n: u64) -> (r: char)
    ensures
        r == digit_char((n % 10) as nat),
{
    let d = n % 10;
    if d == 0 {
        '0'
    } else if d == 1 {
        '1'
    } else if d == 2 {
        '2'
    } else if d == 3 {
        '3'
    } else if d == 4 {
        '4'
    } else if d == 5 {
        '5'
    } else if d == 6 {
        '6'
    } else if d == 7 {
        '7'
    } else if d == 8 {
        '8'
    } else {
        '9'
    }
}

/// A request for `url` with every field taken from the configuration.
pub fn build_download_request(config: &Config, url: String) -> (r: DownloadRequest)
    ensures
        r.url == url,
        r.output_dir == config.general.output_dir,
        r.format == config.download.format,
        r.extra_args@ == config.advanced.extra_args@,
        r.cookie_file == config.advanced.cookie_file,
{
    let mut request = DownloadRequest::new(url, copy_string(&config.general.output_dir), config.download.format);
    request.extra_args = copy_strings(&config.advanced.extra_args);
    request.cookie_file = copy_opt_string(&config.advanced.cookie_file);
    request
}

} // verus!
