//! Reading the extraction tool's diagnostic lines: progress reports and the
//! announcement of the destination file.
//!
//! A progress line is read word by word, each field on its own, so that the
//! order and spacing of the fields do not matter.

use vstd::prelude::*;
use crate::numeral::{
    clock_seconds, is_clock, is_digit, is_numeral, parse_eta, saturate, scaled_numeral,
    scaled_value, u64_max,
};
use crate::text::push_char;

verus! {

// ---------------------------------------------------------------------------
// Characters and words

pub open spec fn is_space(c: char) -> bool {
    c == ' ' || c == '\t' || c == '\r' || c == '\n'
}

/// Words read so far, and the word being read, after the characters of `l`.
pub open spec fn split_state(l: Seq<char>) -> (Seq<Seq<char>>, Seq<char>)
    decreases l.len(),
{
    if l.len() == 0 {
        (Seq::empty(), Seq::empty())
    } else {
        let (done, cur) = split_state(l.drop_last());
        if is_space(l.last()) {
            if cur.len() > 0 {
                (done.push(cur), Seq::empty())
            } else {
                (done, cur)
            }
        } else {
            (done, cur.push(l.last()))
        }
    }
}

/// The maximal runs of non-space characters of `l`, in order.
pub open spec fn words(l: Seq<char>) -> Seq<Seq<char>> {
    let (done, cur) = split_state(l);
    if cur.len() > 0 {
        done.push(cur)
    } else {
        done
    }
}

/// Length of the longest prefix of `w` made of digits and points.
pub open spec fn numeral_len(w: Seq<char>) -> nat
    decreases w.len(),
{
    if w.len() == 0 || !(is_digit(w[0]) || w[0] == '.') {
        0
    } else {
        1 + numeral_len(w.drop_first())
    }
}

/// Byte multiplier of a size unit: binary units are powers of 1024, the
/// decimal ones (any case) powers of 1000, `B` and `Bytes` are one.
pub open spec fn unit_multiplier(u: Seq<char>) -> Option<nat> {
    if u == "KiB"@ {
        Some(1024)
    } else if u == "MiB"@ {
        Some(1024 * 1024)
    } else if u == "GiB"@ {
        Some(1024 * 1024 * 1024)
    } else if u == "TiB"@ {
        Some(1024 * 1024 * 1024 * 1024)
    } else if u == "B"@ || u == "Bytes"@ {
        Some(1)
    } else if is_pair_any_case(u, 'k', 'K', 'b', 'B') {
        Some(1000)
    } else if is_pair_any_case(u, 'm', 'M', 'b', 'B') {
        Some(1000 * 1000)
    } else if is_pair_any_case(u, 'g', 'G', 'b', 'B') {
        Some(1000 * 1000 * 1000)
    } else {
        None
    }
}

pub open spec fn is_pair_any_case(u: Seq<char>, a: char, aa: char, b: char, bb: char) -> bool {
    u.len() == 2 && (u[0] == a || u[0] == aa) && (u[1] == b || u[1] == bb)
}

/// Multiplier for an optional unit: one where it is absent or unknown.
pub open spec fn bytes_multiplier(unit: Option<Seq<char>>) -> nat {
    match unit {
        Some(u) => match unit_multiplier(u) {
            Some(m) => m,
            None => 1,
        },
        None => 1,
    }
}

/// A unit with every trailing `/s` taken off.
pub open spec fn strip_per_second(u: Seq<char>) -> Seq<char>
    decreases u.len(),
{
    if u.len() >= 2 && u[u.len() - 2] == '/' && u[u.len() - 1] == 's' {
        strip_per_second(u.take(u.len() - 2))
    } else {
        u
    }
}

/// A word such as `45.2%`: the percentage in hundredths.
pub open spec fn percent_word(w: Seq<char>) -> Option<nat> {
    if w.len() >= 2 && w.last() == '%' && is_numeral(w.drop_last()) {
        Some(saturate(scaled_value(w.drop_last(), 100)))
    } else {
        None
    }
}

/// A word such as `10.00MiB`: the amount in bytes.
pub open spec fn amount_word(w: Seq<char>) -> Option<nat> {
    let k = numeral_len(w) as int;
    if is_numeral(w.take(k)) && unit_multiplier(w.skip(k)) is Some {
        Some(saturate(scaled_value(w.take(k), unit_multiplier(w.skip(k))->Some_0)))
    } else {
        None
    }
}

/// A word such as `1.21MiB/s`: the rate in bytes per second.
pub open spec fn speed_word(w: Seq<char>) -> Option<nat> {
    if w.len() >= 2 && w[w.len() - 2] == '/' && w[w.len() - 1] == 's' {
        amount_word(w.take(w.len() - 2))
    } else {
        None
    }
}

/// A word made of digits and colons only.
pub open spec fn is_clock_like(w: Seq<char>) -> bool {
    w.len() > 0 && forall|i: int| 0 <= i < w.len() ==> is_digit(#[trigger] w[i]) || w[i] == ':'
}

/// The first index from `i` on below `n` where `p` holds.
pub open spec fn first_from(n: int, p: spec_fn(int) -> bool, i: int) -> Option<int>
    decreases n - i,
{
    if i >= n {
        None
    } else if p(i) {
        Some(i)
    } else {
        first_from(n, p, i + 1)
    }
}

pub open spec fn follows(ws: Seq<Seq<char>>, i: int, lead: Seq<char>) -> bool {
    i > 0 && ws[i - 1] == lead
}

/// Percentage: the first percent word.
pub open spec fn percent_field(ws: Seq<Seq<char>>) -> Option<nat> {
    match first_from(ws.len() as int, |i: int| percent_word(ws[i]) is Some, 0) {
        Some(i) => percent_word(ws[i]),
        None => None,
    }
}

/// Amount downloaded: the first amount word that does not follow `of`.
pub open spec fn downloaded_field(ws: Seq<Seq<char>>) -> Option<nat> {
    match first_from(
        ws.len() as int,
        |i: int| amount_word(ws[i]) is Some && !follows(ws, i, "of"@),
        0,
    ) {
        Some(i) => amount_word(ws[i]),
        None => None,
    }
}

/// Total size: the first amount word that follows `of`.
pub open spec fn total_field(ws: Seq<Seq<char>>) -> Option<nat> {
    match first_from(
        ws.len() as int,
        |i: int| amount_word(ws[i]) is Some && follows(ws, i, "of"@),
        0,
    ) {
        Some(i) => amount_word(ws[i]),
        None => None,
    }
}

/// Transfer rate: the first speed word.
pub open spec fn speed_field(ws: Seq<Seq<char>>) -> Option<nat> {
    match first_from(ws.len() as int, |i: int| speed_word(ws[i]) is Some, 0) {
        Some(i) => speed_word(ws[i]),
        None => None,
    }
}

/// Time remaining: the first word of digits and colons that follows `ETA`,
/// where it is a clock whose seconds fit in a `u64`.
pub open spec fn eta_field(ws: Seq<Seq<char>>) -> Option<nat> {
    match first_from(
        ws.len() as int,
        |i: int| is_clock_like(ws[i]) && follows(ws, i, "ETA"@),
        0,
    ) {
        Some(i) => if is_clock(ws[i]) && clock_seconds(ws[i]) <= u64_max() {
            Some(clock_seconds(ws[i]))
        } else {
            None
        },
        None => None,
    }
}

// ---------------------------------------------------------------------------
// Snapshots

/// One reading of a download's progress. Every field is optional: a line
/// fills what it shows.
#[derive(Debug, Clone, Copy, PartialEq, Eq, Structural)]
pub struct ProgressSnapshot {
    /// Percentage done, in hundredths of a percent.
    pub percent_hundredths: Option<u64>,
    pub downloaded_bytes: Option<u64>,
    pub total_bytes: Option<u64>,
    pub speed_bytes_per_sec: Option<u64>,
    /// Estimated time remaining, in seconds.
    pub eta_secs: Option<u64>,
}

impl Default for ProgressSnapshot {
    fn default() -> (r: Self)
        ensures
            r == (ProgressSnapshot {
                percent_hundredths: None,
                downloaded_bytes: None,
                total_bytes: None,
                speed_bytes_per_sec: None,
                eta_secs: None,
            }),
    {
        ProgressSnapshot {
            percent_hundredths: None,
            downloaded_bytes: None,
            total_bytes: None,
            speed_bytes_per_sec: None,
            eta_secs: None,
        }
    }
}

pub open spec fn as_u64(x: Option<nat>) -> Option<u64> {
    match x {
        Some(v) => Some(v as u64),
        None => None,
    }
}

/// The fields that the words of a line show.
pub open spec fn snapshot_of(ws: Seq<Seq<char>>) -> ProgressSnapshot {
    ProgressSnapshot {
        percent_hundredths: as_u64(percent_field(ws)),
        downloaded_bytes: as_u64(downloaded_field(ws)),
        total_bytes: as_u64(total_field(ws)),
        speed_bytes_per_sec: as_u64(speed_field(ws)),
        eta_secs: as_u64(eta_field(ws)),
    }
}

pub open spec fn is_empty_snapshot(s: ProgressSnapshot) -> bool {
    &&& s.percent_hundredths is None
    &&& s.downloaded_bytes is None
    &&& s.total_bytes is None
    &&& s.speed_bytes_per_sec is None
    &&& s.eta_secs is None
}

/// The progress reading of a line: `None` where it shows no field.
pub open spec fn progress_of(line: Seq<char>) -> Option<ProgressSnapshot> {
    let s = snapshot_of(words(line));
    if is_empty_snapshot(s) {
        None
    } else {
        Some(s)
    }
}

// ---------------------------------------------------------------------------
// Reading

/// The characters of a string.
pub fn chars_of(s: &str) -> (r: Vec<char>)
    ensures
        r@ == s@,
{
    let n = s.unicode_len();
    let mut r: Vec<char> = Vec::new();
    let mut i: usize = 0;
    while i < n
        invariant
            n == s@.len(),
            i <= n,
            r@ == s@.take(i as int),
        decreases n - i,
    {
        r.push(s.get_char(i));
        assert(s@.take(i + 1 as int) =~= s@.take(i as int).push(s@[i as int]));
        i = i + 1;
    }
    assert(s@.take(n as int) =~= s@);
    r
}

/// The characters of `w` from `lo` up to `hi`.
fn sub_chars(w: &Vec<char>, lo: usize, hi: usize) -> (r: Vec<char>)
    requires
        lo <= hi <= w@.len(),
    ensures
        r@ == w@.subrange(lo as int, hi as int),
{
    let mut r: Vec<char> = Vec::new();
    let mut i: usize = lo;
    while i < hi
        invariant
            lo <= i <= hi <= w@.len(),
            r@ == w@.subrange(lo as int, i as int),
        decreases hi - i,
    {
        r.push(w[i]);
        assert(w@.subrange(lo as int, i + 1 as int) =~= w@.subrange(lo as int, i as int).push(
            w@[i as int],
        ));
        i = i + 1;
    }
    r
}

/// Whether `w` holds exactly the characters of `lit`.
fn is_lit(w: &Vec<char>, lit: &str) -> (r: bool)
    ensures
        r == (w@ == lit@),
{
    let n = lit.unicode_len();
    if w.len() != n {
        return false;
    }
    let mut i: usize = 0;
    while i < n
        invariant
            n == lit@.len(),
            n == w@.len(),
            i <= n,
            forall|j: int| 0 <= j < i ==> w@[j] == lit@[j],
        decreases n - i,
    {
        if w[i] != lit.get_char(i) {
            return false;
        }
        i = i + 1;
    }
    assert(w@ =~= lit@);
    true
}

/// Splits a line into its words.
pub fn split_words(l: &Vec<char>) -> (r: Vec<Vec<char>>)
    ensures
        r@.len() == words(l@).len(),
        forall|i: int| 0 <= i < r@.len() ==> (#[trigger] r@[i])@ == words(l@)[i],
{
    let mut done: Vec<Vec<char>> = Vec::new();
    let mut cur: Vec<char> = Vec::new();
    let mut i: usize = 0;
    while i < l.len()
        invariant
            i <= l@.len(),
            done@.len() == split_state(l@.take(i as int)).0.len(),
            forall|j: int|
                0 <= j < done@.len() ==> (#[trigger] done@[j])@ == split_state(
                    l@.take(i as int),
                ).0[j],
            cur@ == split_state(l@.take(i as int)).1,
        decreases l@.len() - i,
    {
        let c = l[i];
        assert(l@.take(i + 1 as int).drop_last() =~= l@.take(i as int));
        if c == ' ' || c == '\t' || c == '\r' || c == '\n' {
            if cur.len() > 0 {
                let w = cur;
                done.push(w);
                cur = Vec::new();
            }
        } else {
            cur.push(c);
        }
        i = i + 1;
    }
    assert(l@.take(l@.len() as int) =~= l@);
    if cur.len() > 0 {
        done.push(cur);
    }
    done
}

/// Reads a percent word.
fn read_percent_word(w: &Vec<char>) -> (r: Option<u64>)
    ensures
        r == as_u64(percent_word(w@)),
{
    let n = w.len();
    if n < 2 || w[n - 1] != '%' {
        return None;
    }
    let num = sub_chars(w, 0, n - 1);
    assert(num@ =~= w@.drop_last());
    scaled_numeral(&num, 100)
}

/// Multiplier of a size unit, where the unit is known.
fn read_unit(u: &Vec<char>) -> (r: Option<u64>)
    ensures
        r == as_u64(unit_multiplier(u@)),
{
    if is_lit(u, "KiB") {
        Some(1024)
    } else if is_lit(u, "MiB") {
        Some(1024 * 1024)
    } else if is_lit(u, "GiB") {
        Some(1024 * 1024 * 1024)
    } else if is_lit(u, "TiB") {
        Some(1024 * 1024 * 1024 * 1024)
    } else if is_lit(u, "B") || is_lit(u, "Bytes") {
        Some(1)
    } else if u.len() == 2 && (u[1] == 'b' || u[1] == 'B') {
        if u[0] == 'k' || u[0] == 'K' {
            Some(1000)
        } else if u[0] == 'm' || u[0] == 'M' {
            Some(1000 * 1000)
        } else if u[0] == 'g' || u[0] == 'G' {
            Some(1000 * 1000 * 1000)
        } else {
            None
        }
    } else {
        None
    }
}

/// Reads an amount word.
fn read_amount_word(w: &Vec<char>) -> (r: Option<u64>)
    ensures
        r == as_u64(amount_word(w@)),
{
    let n = w.len();
    let mut k: usize = 0;
    assert(w@.skip(0) =~= w@);
    while k < n && (('0' <= w[k] && w[k] <= '9') || w[k] == '.')
        invariant
            k <= n == w@.len(),
            numeral_len(w@) == k + numeral_len(w@.skip(k as int)),
        decreases n - k,
    {
        assert(w@.skip(k as int).drop_first() =~= w@.skip(k + 1 as int));
        k = k + 1;
    }
    proof {
        if k < n {
            assert(w@.skip(k as int)[0] == w@[k as int]);
        }
    }
    let num = sub_chars(w, 0, k);
    let unit = sub_chars(w, k, n);
    assert(num@ =~= w@.take(k as int));
    assert(unit@ =~= w@.skip(k as int));
    match read_unit(&unit) {
        Some(m) => {
            scaled_numeral(&num, m)
        },
        None => None,
    }
}

/// Reads a speed word.
fn read_speed_word(w: &Vec<char>) -> (r: Option<u64>)
    ensures
        r == as_u64(speed_word(w@)),
{
    let n = w.len();
    if n < 2 || w[n - 2] != '/' || w[n - 1] != 's' {
        return None;
    }
    let a = sub_chars(w, 0, n - 2);
    assert(a@ =~= w@.take(n - 2));
    read_amount_word(&a)
}

fn is_clock_like_word(w: &Vec<char>) -> (r: bool)
    ensures
        r == is_clock_like(w@),
{
    if w.len() == 0 {
        return false;
    }
    let mut i: usize = 0;
    while i < w.len()
        invariant
            i <= w@.len(),
            forall|j: int| 0 <= j < i ==> is_digit(#[trigger] w@[j]) || w@[j] == ':',
        decreases w@.len() - i,
    {
        let c = w[i];
        if !(('0' <= c && c <= '9') || c == ':') {
            assert(!(is_digit(w@[i as int]) || w@[i as int] == ':'));
            return false;
        }
        i = i + 1;
    }
    true
}

/// Seconds of a clock held as characters.
fn read_clock(w: &Vec<char>) -> (r: Option<u64>)
    ensures
        r is Some <==> is_clock(w@) && clock_seconds(w@) <= u64_max(),
        r is Some ==> r->Some_0 == clock_seconds(w@),
{
    let mut s = String::new();
    let mut i: usize = 0;
    while i < w.len()
        invariant
            i <= w@.len(),
            s@ == w@.take(i as int),
        decreases w@.len() - i,
    {
        push_char(&mut s, w[i]);
        assert(w@.take(i + 1 as int) =~= w@.take(i as int).push(w@[i as int]));
        i = i + 1;
    }
    assert(w@.take(w@.len() as int) =~= w@);
    parse_eta(s.as_str())
}

/// Whether word `i` follows a word equal to `lead`.
fn word_follows(ws: &Vec<Vec<char>>, i: usize, lead: &str) -> (r: bool)
    requires
        i < ws@.len(),
    ensures
        r == (i > 0 && ws@[i - 1]@ == lead@),
{
    i > 0 && is_lit(&ws[i - 1], lead)
}

/// Views of a list of words.
pub open spec fn word_views(ws: Seq<Vec<char>>) -> Seq<Seq<char>> {
    ws.map_values(|w: Vec<char>| w@)
}

fn find_percent(ws: &Vec<Vec<char>>) -> (r: Option<u64>)
    ensures
        r == as_u64(percent_field(word_views(ws@))),
{
    let ghost v = word_views(ws@);
    let ghost p = |i: int| percent_word(v[i]) is Some;
    let mut i: usize = 0;
    while i < ws.len()
        invariant
            i <= ws@.len() == v.len(),
            v == word_views(ws@),
            p == (|i: int| percent_word(v[i]) is Some),
            first_from(v.len() as int, p, 0) == first_from(v.len() as int, p, i as int),
        decreases ws@.len() - i,
    {
        assert(v[i as int] == ws@[i as int]@);
        let x = read_percent_word(&ws[i]);
        if x.is_some() {
            return x;
        }
        i = i + 1;
    }
    None
}

fn find_amount(ws: &Vec<Vec<char>>, after_of: bool) -> (r: Option<u64>)
    ensures
        after_of ==> r == as_u64(total_field(word_views(ws@))),
        !after_of ==> r == as_u64(downloaded_field(word_views(ws@))),
{
    let ghost v = word_views(ws@);
    let ghost p = if after_of {
        |i: int| amount_word(v[i]) is Some && follows(v, i, "of"@)
    } else {
        |i: int| amount_word(v[i]) is Some && !follows(v, i, "of"@)
    };
    let mut i: usize = 0;
    while i < ws.len()
        invariant
            i <= ws@.len() == v.len(),
            v == word_views(ws@),
            after_of ==> p == (|i: int| amount_word(v[i]) is Some && follows(v, i, "of"@)),
            !after_of ==> p == (|i: int| amount_word(v[i]) is Some && !follows(v, i, "of"@)),
            first_from(v.len() as int, p, 0) == first_from(v.len() as int, p, i as int),
        decreases ws@.len() - i,
    {
        assert(v[i as int] == ws@[i as int]@);
        if i > 0 {
            assert(v[i - 1] == ws@[i - 1]@);
        }
        let x = read_amount_word(&ws[i]);
        if x.is_some() && word_follows(ws, i, "of") == after_of {
            return x;
        }
        i = i + 1;
    }
    None
}

fn find_speed(ws: &Vec<Vec<char>>) -> (r: Option<u64>)
    ensures
        r == as_u64(speed_field(word_views(ws@))),
{
    let ghost v = word_views(ws@);
    let ghost p = |i: int| speed_word(v[i]) is Some;
    let mut i: usize = 0;
    while i < ws.len()
        invariant
            i <= ws@.len() == v.len(),
            v == word_views(ws@),
            p == (|i: int| speed_word(v[i]) is Some),
            first_from(v.len() as int, p, 0) == first_from(v.len() as int, p, i as int),
        decreases ws@.len() - i,
    {
        assert(v[i as int] == ws@[i as int]@);
        let x = read_speed_word(&ws[i]);
        if x.is_some() {
            return x;
        }
        i = i + 1;
    }
    None
}

fn find_eta(ws: &Vec<Vec<char>>) -> (r: Option<u64>)
    ensures
        r == as_u64(eta_field(word_views(ws@))),
{
    let ghost v = word_views(ws@);
    let ghost p = |i: int| is_clock_like(v[i]) && follows(v, i, "ETA"@);
    let mut i: usize = 0;
    while i < ws.len()
        invariant
            i <= ws@.len() == v.len(),
            v == word_views(ws@),
            p == (|i: int| is_clock_like(v[i]) && follows(v, i, "ETA"@)),
            first_from(v.len() as int, p, 0) == first_from(v.len() as int, p, i as int),
        decreases ws@.len() - i,
    {
        assert(v[i as int] == ws@[i as int]@);
        if i > 0 {
            assert(v[i - 1] == ws@[i - 1]@);
        }
        if is_clock_like_word(&ws[i]) && word_follows(ws, i, "ETA") {
            return read_clock(&ws[i]);
        }
        i = i + 1;
    }
    None
}

/// Reads one diagnostic line as a progress report. Each field is taken from
/// the words of the line on its own: the first percentage, the first size
/// not after `of` (downloaded), the first size after `of` (total), the first
/// rate, and the clock after `ETA`. `None` where the line shows none of them.
pub fn parse_progress(line: &str) -> (r: Option<ProgressSnapshot>)
    ensures
        r == progress_of(line@),
{
    let chars = chars_of(line);
    let ws = split_words(&chars);
    assert(word_views(ws@) =~= words(line@));
    let snapshot = ProgressSnapshot {
        percent_hundredths: find_percent(&ws),
        downloaded_bytes: find_amount(&ws, false),
        total_bytes: find_amount(&ws, true),
        speed_bytes_per_sec: find_speed(&ws),
        eta_secs: find_eta(&ws),
    };
    if snapshot.percent_hundredths.is_none() && snapshot.downloaded_bytes.is_none()
        && snapshot.total_bytes.is_none() && snapshot.speed_bytes_per_sec.is_none()
        && snapshot.eta_secs.is_none() {
        None
    } else {
        Some(snapshot)
    }
}

/// A number without its sign, if it has one.
pub open spec fn unsigned_part(v: Seq<char>) -> Seq<char> {
    if v.len() > 0 && (v[0] == '+' || v[0] == '-') {
        v.drop_first()
    } else {
        v
    }
}

/// A number written with a bare point at either end (`.5`, `5.`) in the
/// form of a numeral (`0.5`, `5`); other text is left as it is.
pub open spec fn decimal_form(u: Seq<char>) -> Seq<char> {
    let a = if u.len() > 1 && u[0] == '.' {
        seq!['0'] + u
    } else {
        u
    };
    if a.len() > 1 && a.last() == '.' {
        a.drop_last()
    } else {
        a
    }
}

/// The amount that number `v` times `m` stands for: rounded down and held
/// to the largest `u64`, and zero for a negative number. `None` where `v`
/// is not a number: an optional sign, then digits with at most one point
/// and at least one digit.
pub open spec fn amount_of(v: Seq<char>, m: nat) -> Option<nat> {
    let d = decimal_form(unsigned_part(v));
    if !is_numeral(d) {
        None
    } else if v.len() > 0 && v[0] == '-' {
        Some(0)
    } else {
        Some(saturate(scaled_value(d, m)))
    }
}

/// Reads a number as an amount of `m`-sized units.
fn read_amount(v: &Vec<char>, m: u64) -> (r: Option<u64>)
    requires
        0 < m <= 0x100_0000_0000,
    ensures
        r == as_u64(amount_of(v@, m as nat)),
{
    let n = v.len();
    let signed = n > 0 && (v[0] == '+' || v[0] == '-');
    let negative = n > 0 && v[0] == '-';
    let start: usize = if signed {
        1
    } else {
        0
    };
    let mut u = sub_chars(v, start, n);
    proof {
        if signed {
            assert(u@ =~= v@.drop_first());
        } else {
            assert(u@ =~= v@);
        }
    }
    let ghost up = u@;
    let mut a: Vec<char> = if u.len() > 1 && u[0] == '.' {
        let mut t: Vec<char> = Vec::new();
        t.push('0');
        t.append(&mut u);
        assert(t@ =~= seq!['0'] + up);
        t
    } else {
        u
    };
    let ghost ap = a@;
    if a.len() > 1 && a[a.len() - 1] == '.' {
        let k = a.len() - 1;
        a.truncate(k);
        assert(a@ =~= ap.drop_last());
    }
    assert(a@ == decimal_form(unsigned_part(v@)));
    match scaled_numeral(&a, m) {
        Some(x) => {
            if negative {
                Some(0)
            } else {
                Some(x)
            }
        },
        None => None,
    }
}

/// `value` read as a size in bytes with an optional unit; an absent or
/// unknown unit counts as bytes. The product is rounded down and held to the
/// largest `u64`, a negative size to zero. `None` where `value` is not a
/// number.
pub fn parse_bytes(value: &str, unit: Option<&str>) -> (r: Option<u64>)
    ensures
        r == as_u64(
            amount_of(
                value@,
                bytes_multiplier(
                    match unit {
                        Some(u) => Some(u@),
                        None => None,
                    },
                ),
            ),
        ),
{
    let num = chars_of(value);
    let m: u64 = match unit {
        Some(u) => {
            let uc = chars_of(u);
            match read_unit(&uc) {
                Some(m) => m,
                None => 1,
            }
        },
        None => 1,
    };
    read_amount(&num, m)
}

/// `value` read as a rate: as `parse_bytes`, after every trailing `/s` of
/// the unit is taken off.
pub fn parse_speed(value: &str, unit: Option<&str>) -> (r: Option<u64>)
    ensures
        r == as_u64(
            amount_of(
                value@,
                bytes_multiplier(
                    match unit {
                        Some(u) => Some(strip_per_second(u@)),
                        None => None,
                    },
                ),
            ),
        ),
{
    let num = chars_of(value);
    let m: u64 = match unit {
        Some(u) => {
            let mut uc = chars_of(u);
            while uc.len() >= 2 && uc[uc.len() - 2] == '/' && uc[uc.len() - 1] == 's'
                invariant
                    strip_per_second(uc@) == strip_per_second(u@),
                decreases uc@.len(),
            {
                let k = uc.len() - 2;
                let ghost before = uc@;
                uc.truncate(k);
                assert(uc@ =~= before.take(k as int));
            }
            match read_unit(&uc) {
                Some(m) => m,
                None => 1,
            }
        },
        None => 1,
    };
    read_amount(&num, m)
}

// ---------------------------------------------------------------------------
// Destination lines

/// White space as `char::is_whitespace` knows it: the characters of the
/// Unicode `White_Space` property.
pub open spec fn is_white(c: char) -> bool {
    ||| ('\t' <= c && c <= '\r')
    ||| c == ' '
    ||| c == '\u{85}'
    ||| c == '\u{a0}'
    ||| c == '\u{1680}'
    ||| ('\u{2000}' <= c && c <= '\u{200a}')
    ||| c == '\u{2028}'
    ||| c == '\u{2029}'
    ||| c == '\u{202f}'
    ||| c == '\u{205f}'
    ||| c == '\u{3000}'
}

fn is_white_char(c: char) -> (r: bool)
    ensures
        r == is_white(c),
{
    ('\t' <= c && c <= '\r') || c == ' ' || c == '\u{85}' || c == '\u{a0}' || c == '\u{1680}' || (
    '\u{2000}' <= c && c <= '\u{200a}') || c == '\u{2028}' || c == '\u{2029}' || c == '\u{202f}'
        || c == '\u{205f}' || c == '\u{3000}'
}

pub open spec fn destination_marker() -> Seq<char> {
    "Destination:"@
}

pub open spec fn marker_at(l: Seq<char>, k: int) -> bool {
    0 <= k && k + destination_marker().len() <= l.len() && l.subrange(
        k,
        k + destination_marker().len(),
    ) == destination_marker()
}

/// A path may start at `j` of `rest`: before it stand `j` white-space
/// characters, at least one, and at `j` stands a character other than a
/// line feed.
pub open spec fn path_start_ok(rest: Seq<char>, j: int) -> bool {
    &&& 1 <= j < rest.len()
    &&& forall|i: int| 0 <= i < j ==> is_white(#[trigger] rest[i])
    &&& rest[j] != '\n'
}

/// The last place where a path may start in `rest`: the white space before
/// it is as long as it can be.
pub open spec fn is_last_path_start(rest: Seq<char>, j: int) -> bool {
    path_start_ok(rest, j) && forall|i: int| j < i < rest.len() ==> !path_start_ok(rest, i)
}

pub open spec fn path_start(rest: Seq<char>) -> int {
    choose|j: int| is_last_path_start(rest, j)
}

/// Number of characters of `s` before its first line feed.
pub open spec fn line_len(s: Seq<char>) -> nat
    decreases s.len(),
{
    if s.len() == 0 || s[0] == '\n' {
        0
    } else {
        1 + line_len(s.drop_first())
    }
}

/// A marker at `k` that is followed by white space and a path.
pub open spec fn marker_with_path(l: Seq<char>, k: int) -> bool {
    marker_at(l, k) && has_path(l.skip(k + destination_marker().len()))
}

/// Some place in `rest` may start a path.
pub open spec fn has_path(rest: Seq<char>) -> bool {
    exists|j: int| #[trigger] path_start_ok(rest, j)
}

/// The path announced by a line: at the first `Destination:` that is
/// followed by white space and at least one more character, what follows
/// the longest such white space, up to the first line feed. `None` where no
/// marker is so followed.
pub open spec fn destination_of(l: Seq<char>) -> Option<Seq<char>> {
    match first_from(l.len() as int, |k: int| marker_with_path(l, k), 0) {
        Some(k) => {
            let rest = l.skip(k + destination_marker().len());
            let path = rest.skip(path_start(rest));
            Some(path.take(line_len(path) as int))
        },
        None => None,
    }
}

/// Whether `lit` stands in `l` at `k`.
fn lit_at(l: &Vec<char>, k: usize, lit: &str) -> (r: bool)
    ensures
        r == (k + lit@.len() <= l@.len() && l@.subrange(k as int, k + lit@.len()) == lit@),
{
    let n = lit.unicode_len();
    if k > l.len() || l.len() - k < n {
        return false;
    }
    let mut i: usize = 0;
    while i < n
        invariant
            n == lit@.len(),
            k + n <= l.len(),
            i <= n,
            forall|j: int| 0 <= j < i ==> l@[k + j] == lit@[j],
        decreases n - i,
    {
        if l[k + i] != lit.get_char(i) {
            assert(l@.subrange(k as int, k + n)[i as int] != lit@[i as int]);
            return false;
        }
        i = i + 1;
    }
    assert(l@.subrange(k as int, k + n) =~= lit@);
    true
}

/// Where the path after a marker ending at `m` starts, if it has one.
fn find_path_start(l: &Vec<char>, m: usize) -> (r: Option<usize>)
    requires
        m <= l@.len(),
    ensures
        r is None ==> forall|j: int| !path_start_ok(l@.skip(m as int), j),
        r is Some ==> m < r->Some_0 < l@.len() && is_last_path_start(
            l@.skip(m as int),
            r->Some_0 - m,
        ),
{
    let ghost rest = l@.skip(m as int);
    let n = l.len();
    if n == m {
        return None;
    }
    let mut w: usize = m;
    while w < n && is_white_char(l[w])
        invariant
            m <= w <= n == l@.len(),
            forall|i: int| m <= i < w ==> is_white(#[trigger] l@[i]),
        decreases n - w,
    {
        w = w + 1;
    }
    let top: usize = if w < n {
        w
    } else {
        n - 1
    };
    let mut j: usize = top;
    while j > m && l[j] == '\n'
        invariant
            m <= j <= top < n == l@.len(),
            top <= w,
            forall|i: int| j < i <= top ==> l@[i] == '\n',
        decreases j,
    {
        j = j - 1;
    }
    proof {
        assert forall|i: int| top - m < i < rest.len() implies !path_start_ok(rest, i) by {
            if path_start_ok(rest, i) {
                assert(rest[w - m] == l@[w as int]);
                assert(is_white(rest[w - m]));
            }
        }
        assert forall|i: int| j - m < i <= top - m implies !path_start_ok(rest, i) by {
            assert(rest[i] == l@[m + i]);
        }
    }
    if j == m {
        return None;
    }
    proof {
        assert(rest[j - m] == l@[j as int]);
        assert forall|i: int| 0 <= i < j - m implies is_white(#[trigger] rest[i]) by {
            assert(rest[i] == l@[m + i]);
        }
    }
    Some(j)
}

/// Reads the path out of a `Destination:` line.
pub fn parse_destination(line: &str) -> (r: Option<String>)
    ensures
        r is Some <==> destination_of(line@) is Some,
        r is Some ==> r->Some_0@ == destination_of(line@)->Some_0,
{
    let l = chars_of(line);
    let marker = "Destination:";
    let ghost p = |k: int| marker_with_path(l@, k);
    let mut k: usize = 0;
    while k < l.len()
        invariant
            k <= l@.len(),
            l@ == line@,
            marker@ == destination_marker(),
            p == (|k: int| marker_with_path(l@, k)),
            first_from(l@.len() as int, p, 0) == first_from(l@.len() as int, p, k as int),
        decreases l@.len() - k,
    {
        if lit_at(&l, k, marker) {
            let m = k + marker.unicode_len();
            match find_path_start(&l, m) {
                Some(j) => {
                    let ghost rest = l@.skip(m as int);
                    proof {
                        let c = path_start(rest);
                        assert(is_last_path_start(rest, (j - m) as int));
                        assert(is_last_path_start(rest, c));
                        if c < j - m {
                            assert(!path_start_ok(rest, (j - m) as int));
                        } else if c > j - m {
                            assert(!path_start_ok(rest, c));
                        }
                        assert(c == j - m);
                        assert(rest.skip(c) =~= l@.skip(j as int));
                    }
                    let mut path = String::new();
                    let mut i: usize = j;
                    let ghost tail = l@.skip(j as int);
                    assert(tail.skip(0) =~= tail);
                    while i < l.len() && l[i] != '\n'
                        invariant
                            j <= i <= l@.len(),
                            tail == l@.skip(j as int),
                            path@ == l@.subrange(j as int, i as int),
                            line_len(tail) == (i - j) + line_len(l@.skip(i as int)),
                        decreases l@.len() - i,
                    {
                        assert(l@.skip(i as int).drop_first() =~= l@.skip(i + 1));
                        push_char(&mut path, l[i]);
                        assert(l@.subrange(j as int, i + 1) =~= l@.subrange(j as int, i as int).push(
                            l@[i as int],
                        ));
                        i = i + 1;
                    }
                    proof {
                        if i < l@.len() {
                            assert(l@.skip(i as int)[0] == l@[i as int]);
                        }
                        assert(tail.take(line_len(tail) as int) =~= l@.subrange(j as int, i as int));
                    }
                    return Some(path);
                },
                None => {},
            }
        }
        k = k + 1;
    }
    None
}

} // verus!
