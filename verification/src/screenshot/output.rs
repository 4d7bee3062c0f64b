//! Output files of the screenshot tool: file names from a template and the clock, the
//! image format of a path, free names in a folder, and the pixels written as JPEG.
use vstd::prelude::*;
use crate::paths::{
    ends_with_component, extends_with, first_free, join_path, path_exists, plain_name, portable_path,
    verbatim_path,
};
use crate::screenshot::config::ImageFormat;
use crate::text::{
    chars_of, decimal, decimal_chars, equals_text, extend_chars, lower_ascii, lowercased,
    replace_all, replaced, string_of, trim, trimmed, zero_padded, zero_padded_chars,
};

verus! {

/// A calendar date and time of day.
#[derive(Clone, Copy, Debug, PartialEq, Eq, Structural)]
pub struct LocalTime {
    pub year: u64,
    pub month: u8,
    pub day: u8,
    pub hour: u8,
    pub minute: u8,
    pub second: u8,
}

/// Whether `y` is a leap year of the Gregorian calendar.
pub open spec fn is_leap(y: int) -> bool {
    (y % 4 == 0 && y % 100 != 0) || y % 400 == 0
}

/// The number of days in year `y`.
pub open spec fn year_length(y: int) -> int {
    if is_leap(y) {
        366
    } else {
        365
    }
}

/// The number of days in month `m` of year `y`.
pub open spec fn month_length(y: int, m: int) -> int {
    if m == 2 {
        if is_leap(y) {
            29
        } else {
            28
        }
    } else if m == 4 || m == 6 || m == 9 || m == 11 {
        30
    } else {
        31
    }
}

/// The days from 1 January 1970 to 1 January of year `y`.
pub open spec fn days_before_year(y: int) -> int
    decreases y - 1970,
{
    if y <= 1970 {
        0
    } else {
        days_before_year(y - 1) + year_length(y - 1)
    }
}

/// The days from 1 January to the first day of month `m` in year `y`.
pub open spec fn days_before_month(y: int, m: int) -> int
    decreases m,
{
    if m <= 1 {
        0
    } else {
        days_before_month(y, m - 1) + month_length(y, m - 1)
    }
}

/// Whether `t` is the calendar time `secs` seconds after 1970-01-01 00:00:00.
pub open spec fn time_of_seconds(t: LocalTime, secs: int) -> bool {
    &&& t.year >= 1970
    &&& 1 <= t.month <= 12
    &&& 1 <= t.day <= month_length(t.year as int, t.month as int)
    &&& t.hour < 24
    &&& t.minute < 60
    &&& t.second < 60
    &&& (days_before_year(t.year as int) + days_before_month(t.year as int, t.month as int) + t.day
        - 1) * 86400 + t.hour * 3600 + t.minute * 60 + t.second == secs
}

fn leap_year(y: u64) -> (r: bool)
    ensures
        r == is_leap(y as int),
{
    (y % 4 == 0 && y % 100 != 0) || y % 400 == 0
}

fn days_in_year(y: u64) -> (r: u64)
    ensures
        r == year_length(y as int),
{
    if leap_year(y) {
        366
    } else {
        365
    }
}

fn days_in_month(y: u64, m: u64) -> (r: u64)
    ensures
        r == month_length(y as int, m as int),
{
    if m == 2 {
        if leap_year(y) {
            29
        } else {
            28
        }
    } else if m == 4 || m == 6 || m == 9 || m == 11 {
        30
    } else {
        31
    }
}

proof fn lemma_months_fill_year(y: int)
    ensures
        days_before_month(y, 13) == year_length(y),
{
    reveal_with_fuel(days_before_month, 13);
}

proof fn lemma_days_before_month_grows(y: int, m: int)
    requires
        1 <= m,
    ensures
        days_before_month(y, m + 1) == days_before_month(y, m) + month_length(y, m),
{
}

/// The calendar time `secs` seconds after 1970-01-01 00:00:00.
pub fn time_from_unix_seconds(secs: u64) -> (t: LocalTime)
    ensures
        time_of_seconds(t, secs as int),
{
    let total_days = secs / 86400;
    let rest = secs % 86400;
    let mut days = total_days;
    let mut year: u64 = 1970;
    while days >= days_in_year(year)
        invariant
            1970 <= year,
            year - 1970 <= total_days - days,
            days <= total_days,
            total_days == secs / 86400,
            days_before_year(year as int) + days == total_days,
        decreases days,
    {
        let length = days_in_year(year);
        days = days - length;
        year = year + 1;
        assert(days_before_year(year as int) == days_before_year(year - 1) + year_length(year - 1));
    }
    let mut month: u64 = 1;
    proof {
        lemma_months_fill_year(year as int);
    }
    while days >= days_in_month(year, month)
        invariant
            1 <= month <= 12,
            days < year_length(year as int) - days_before_month(year as int, month as int),
            days_before_month(year as int, 13) == year_length(year as int),
            days_before_year(year as int) + days_before_month(year as int, month as int) + days
                == total_days,
        decreases 12 - month,
    {
        proof {
            lemma_days_before_month_grows(year as int, month as int);
            if month == 12 {
                assert(days_before_month(year as int, 13) == days_before_month(year as int, 12)
                    + month_length(year as int, 12));
            }
        }
        days = days - days_in_month(year, month);
        month = month + 1;
    }
    let t = LocalTime {
        year,
        month: month as u8,
        day: (days + 1) as u8,
        hour: (rest / 3600) as u8,
        minute: ((rest % 3600) / 60) as u8,
        second: (rest % 60) as u8,
    };
    assert(rest == (rest / 3600) * 3600 + ((rest % 3600) / 60) * 60 + rest % 60) by (nonlinear_arith)
        requires
            rest < 86400,
    ;
    t
}

#[verifier::external_type_specification]
#[verifier::external_body]
pub struct ExSystemTime(std::time::SystemTime);

/// `SystemTime::now`: the system clock's reading, which nothing here can foresee.
#[verifier::external_body]
fn system_now() -> (r: std::time::SystemTime) {
    std::time::SystemTime::now()
}

/// `SystemTime::duration_since(UNIX_EPOCH)` of `t`, as whole seconds (`Duration::as_secs`);
/// none when `t` is before 1970-01-01 00:00:00 UTC. Nothing is stated of the value: the
/// reading is opaque here.
#[verifier::external_body]
fn seconds_since_epoch(t: &std::time::SystemTime) -> (r: Option<u64>) {
    match t.duration_since(std::time::UNIX_EPOCH) {
        Ok(elapsed) => Some(elapsed.as_secs()),
        Err(_) => None,
    }
}

/// The seconds since 1970-01-01 00:00:00 UTC by the system clock, zero when the clock is
/// set before that moment.
fn unix_seconds() -> (r: u64) {
    let now = system_now();
    match seconds_since_epoch(&now) {
        Some(secs) => secs,
        None => 0,
    }
}

/// The current calendar time (UTC) by the system clock.
pub fn current_time() -> (t: LocalTime)
    ensures
        exists|secs: nat| secs <= u64::MAX && time_of_seconds(t, secs as int),
{
    let secs = unix_seconds();
    let t = time_from_unix_seconds(secs);
    assert(time_of_seconds(t, secs as nat as int));
    t
}

/// The seconds since 1970 by the system clock, in decimal: the timestamp in names of
/// recordings.
pub fn unix_timestamp() -> (r: String)
    ensures
        exists|secs: nat| secs <= u64::MAX && r@ == decimal(secs),
{
    let secs = unix_seconds();
    let r = string_of(&decimal_chars(secs));
    assert(r@ == decimal(secs as nat));
    r
}

/// A compact timestamp `yyyyMMdd_HHmmss`.
pub open spec fn compact_timestamp(t: LocalTime) -> Seq<char> {
    zero_padded(t.year as nat, 4) + zero_padded(t.month as nat, 2) + zero_padded(t.day as nat, 2)
        + seq!['_'] + zero_padded(t.hour as nat, 2) + zero_padded(t.minute as nat, 2) + zero_padded(
        t.second as nat,
        2,
    )
}

/// Formats a time as `yyyyMMdd_HHmmss`.
pub fn timestamp_text(t: &LocalTime) -> (r: String)
    ensures
        r@ == compact_timestamp(*t),
{
    let mut v = zero_padded_chars(t.year, 4);
    extend_chars(&mut v, &zero_padded_chars(t.month as u64, 2));
    extend_chars(&mut v, &zero_padded_chars(t.day as u64, 2));
    v.push('_');
    extend_chars(&mut v, &zero_padded_chars(t.hour as u64, 2));
    extend_chars(&mut v, &zero_padded_chars(t.minute as u64, 2));
    extend_chars(&mut v, &zero_padded_chars(t.second as u64, 2));
    assert(v@ =~= compact_timestamp(*t));
    string_of(&v)
}

/// A file name from a template: each of `{yyyy}`, `{MM}`, `{dd}`, `{HH}`, `{mm}` and `{ss}`
/// replaced by the year (four digits) or the month, day, hour, minute and second (two
/// digits) of `t`, in that order, then trimmed.
pub open spec fn filename_for(template: Seq<char>, t: LocalTime) -> Seq<char> {
    let a = replace_all(template, "{yyyy}"@, zero_padded(t.year as nat, 4));
    let b = replace_all(a, "{MM}"@, zero_padded(t.month as nat, 2));
    let c = replace_all(b, "{dd}"@, zero_padded(t.day as nat, 2));
    let d = replace_all(c, "{HH}"@, zero_padded(t.hour as nat, 2));
    let e = replace_all(d, "{mm}"@, zero_padded(t.minute as nat, 2));
    let f = replace_all(e, "{ss}"@, zero_padded(t.second as nat, 2));
    trim(f)
}

/// A template that holds none of the six tokens gives its own text, trimmed, whatever
/// the time.
pub proof fn lemma_tokenless_template_is_trimmed(template: Seq<char>, t: LocalTime)
    requires
        !crate::text::contains_seq(template, "{yyyy}"@),
        !crate::text::contains_seq(template, "{MM}"@),
        !crate::text::contains_seq(template, "{dd}"@),
        !crate::text::contains_seq(template, "{HH}"@),
        !crate::text::contains_seq(template, "{mm}"@),
        !crate::text::contains_seq(template, "{ss}"@),
    ensures
        filename_for(template, t) == trim(template),
{
    crate::text::lemma_replace_absent(template, "{yyyy}"@, zero_padded(t.year as nat, 4));
    crate::text::lemma_replace_absent(template, "{MM}"@, zero_padded(t.month as nat, 2));
    crate::text::lemma_replace_absent(template, "{dd}"@, zero_padded(t.day as nat, 2));
    crate::text::lemma_replace_absent(template, "{HH}"@, zero_padded(t.hour as nat, 2));
    crate::text::lemma_replace_absent(template, "{mm}"@, zero_padded(t.minute as nat, 2));
    crate::text::lemma_replace_absent(template, "{ss}"@, zero_padded(t.second as nat, 2));
}

fn replace_token(s: &[char], token: &str, value: &[char]) -> (r: Vec<char>)
    requires
        token@.len() > 0,
    ensures
        r@ == replace_all(s@, token@, value@),
{
    replaced(s, &chars_of(token), value)
}

/// The file name that `template` gives at time `t`.
pub fn render_filename_at(template: &str, t: &LocalTime) -> (r: String)
    ensures
        r@ == filename_for(template@, *t),
{
    proof {
        reveal_strlit("{yyyy}");
        reveal_strlit("{MM}");
        reveal_strlit("{dd}");
        reveal_strlit("{HH}");
        reveal_strlit("{mm}");
        reveal_strlit("{ss}");
    }
    let s = chars_of(template);
    let s = replace_token(&s, "{yyyy}", &zero_padded_chars(t.year, 4));
    let s = replace_token(&s, "{MM}", &zero_padded_chars(t.month as u64, 2));
    let s = replace_token(&s, "{dd}", &zero_padded_chars(t.day as u64, 2));
    let s = replace_token(&s, "{HH}", &zero_padded_chars(t.hour as u64, 2));
    let s = replace_token(&s, "{mm}", &zero_padded_chars(t.minute as u64, 2));
    let s = replace_token(&s, "{ss}", &zero_padded_chars(t.second as u64, 2));
    string_of(&trimmed(&s))
}

/// The file name that `template` gives at the current calendar time (UTC).
pub fn render_filename(template: &str) -> (r: String)
    ensures
        exists|t: LocalTime, secs: nat|
            secs <= u64::MAX && time_of_seconds(t, secs as int) && r@ == filename_for(template@, t),
{
    let now = current_time();
    let r = render_filename_at(template, &now);
    proof {
        let secs = choose|secs: nat| secs <= u64::MAX && time_of_seconds(now, secs as int);
        assert(secs <= u64::MAX && time_of_seconds(now, secs as int) && r@ == filename_for(template@, now));
    }
    r
}

/// The extension that screenshots in a format are saved with.
pub fn extension(format: ImageFormat) -> (r: &'static str)
    ensures
        r@ == match format {
            ImageFormat::Png => "png"@,
            ImageFormat::Jpeg => "jpg"@,
        },
{
    match format {
        ImageFormat::Png => "png",
        ImageFormat::Jpeg => "jpg",
    }
}

/// The JPEG quality that an image is encoded with: the setting, limited to 1 to 100.
pub fn jpeg_quality(setting: u8) -> (r: u8)
    ensures
        r == crate::screenshot::config::clamped(setting, 1, 100),
{
    if setting < 1 {
        1
    } else if setting > 100 {
        100
    } else {
        setting
    }
}

/// The image format that an extension names, in any letter case: `png`, or `jpg` and `jpeg`.
pub open spec fn format_of_extension(extension: Option<Seq<char>>) -> Option<ImageFormat> {
    match extension {
        None => None,
        Some(e) => if lower_ascii(e) == "png"@ {
            Some(ImageFormat::Png)
        } else if lower_ascii(e) == "jpg"@ || lower_ascii(e) == "jpeg"@ {
            Some(ImageFormat::Jpeg)
        } else {
            None
        },
    }
}

/// The image format that an extension names.
pub fn format_from_extension(extension: Option<&str>) -> (r: Option<ImageFormat>)
    ensures
        r == format_of_extension(
            match extension {
                None => None,
                Some(e) => Some(e@),
            },
        ),
{
    match extension {
        None => None,
        Some(e) => {
            let lower = lowercased(&chars_of(e));
            if equals_text(&lower, "png") {
                Some(ImageFormat::Png)
            } else if equals_text(&lower, "jpg") || equals_text(&lower, "jpeg") {
                Some(ImageFormat::Jpeg)
            } else {
                None
            }
        },
    }
}

/// The position of the last `c` in `s`, or -1 when there is none.
pub open spec fn last_index_of(s: Seq<char>, c: char) -> int
    decreases s.len(),
{
    if s.len() == 0 {
        -1
    } else if s.last() == c {
        s.len() - 1
    } else {
        last_index_of(s.drop_last(), c)
    }
}

/// The extension of a file name: what follows its last dot, unless that dot is the name's
/// first character or there is none.
pub open spec fn name_extension(name: Seq<char>) -> Option<Seq<char>> {
    let k = last_index_of(name, '.');
    if k <= 0 {
        None
    } else {
        Some(name.skip(k + 1))
    }
}

/// `Path::extension` of `path`, when it is valid Unicode: the part of the file name after
/// its last dot, none when the file name has no dot other than a leading one. An
/// extension is a dot-free piece of the path that follows a dot; that of a portable path
/// holds no `/`, and for a portable path whose last component is a plain name it is that
/// name's extension. How other paths split into
/// components depends on the platform, and is not stated.
#[verifier::external_body]
fn path_extension(path: &str) -> (r: Option<String>)
    ensures
        r matches Some(e) ==> (exists|k: int|
            0 < k && k + e@.len() <= path@.len() && path@[k - 1] == '.' && #[trigger] path@.subrange(
                k,
                k + e@.len(),
            ) == e@) && (forall|i: int| 0 <= i < e@.len() ==> e@[i] != '.') && (portable_path(path@)
            ==> forall|i: int| 0 <= i < e@.len() ==> e@[i] != '/'),
        r is None ==> forall|name: Seq<char>|
            (plain_name(name) && #[trigger] ends_with_component(path@, name) && portable_path(path@))
                ==> name_extension(name) is None,
        r matches Some(e) ==> forall|name: Seq<char>|
            (plain_name(name) && #[trigger] ends_with_component(path@, name) && portable_path(path@))
                ==> name_extension(name) == Some(e@),
{
    match std::path::Path::new(path).extension() {
        Some(extension) => extension.to_str().map(str::to_owned),
        None => None,
    }
}

/// The image format that the extension of `path` names.
pub fn format_from_path(path: &str) -> (r: Option<ImageFormat>)
    ensures
        r is Some ==> exists|k: int, n: int|
            0 < k && k + n <= path@.len() && path@[k - 1] == '.' && format_of_extension(
                Some(#[trigger] path@.subrange(k, k + n)),
            ) == r,
        forall|name: Seq<char>|
            (plain_name(name) && #[trigger] ends_with_component(path@, name) && portable_path(path@))
                ==> r == format_of_extension(name_extension(name)),
{
    let extension = path_extension(path);
    match extension {
        None => format_from_extension(None),
        Some(e) => format_from_extension(Some(e.as_str())),
    }
}


/// The name of the `index`-th candidate for a new file: `stem.ext`, then `stem_1.ext`,
/// `stem_2.ext` and so on.
pub open spec fn candidate_name(stem: Seq<char>, extension: Seq<char>, index: nat) -> Seq<char> {
    if index == 0 {
        stem + seq!['.'] + extension
    } else {
        stem + seq!['_'] + decimal(index) + seq!['.'] + extension
    }
}

/// The name used when all candidates are taken: `stem_{process id}.ext`.
pub open spec fn fallback_name(stem: Seq<char>, extension: Seq<char>, process_id: nat) -> Seq<char> {
    stem + seq!['_'] + decimal(process_id) + seq!['.'] + extension
}

fn candidate_name_exec(stem: &str, extension: &str, index: u64) -> (r: String)
    ensures
        r@ == candidate_name(stem@, extension@, index as nat),
{
    let mut v = chars_of(stem);
    if index != 0 {
        v.push('_');
        extend_chars(&mut v, &decimal_chars(index));
    }
    v.push('.');
    extend_chars(&mut v, &chars_of(extension));
    string_of(&v)
}

/// A path in `directory` for a new file: the first of `stem.ext`, `stem_1.ext` … `stem_9999.ext`
/// that does not exist, else `stem_{process id}.ext`. The candidates are probed in order
/// until one is free, and `first_free` picks the answer from what the probes said.
pub fn unique_path(directory: &str, stem: &str, extension: &str, process_id: u32) -> (r: String)
    ensures
        !verbatim_path(directory@) ==> (exists|i: nat|
            i < 10000 && (plain_name(candidate_name(stem@, extension@, i)) ==> extends_with(
                directory@,
                #[trigger] candidate_name(stem@, extension@, i),
                r@,
            ))) || (plain_name(fallback_name(stem@, extension@, process_id as nat)) ==> extends_with(
            directory@,
            fallback_name(stem@, extension@, process_id as nat),
            r@,
        )),
{
    let mut taken: Vec<bool> = Vec::new();
    let mut candidates: Vec<String> = Vec::new();
    let mut found = false;
    let mut index: u64 = 0;
    while index < 10000 && !found
        invariant
            index <= 10000,
            taken@.len() == candidates@.len(),
            found ==> taken@.len() > 0,
            !found ==> taken@.len() == index,
            taken@.len() <= 10000,
            forall|k: int| 0 <= k < taken@.len() ==> (plain_name(candidate_name(stem@, extension@, k as nat))
                && !verbatim_path(directory@)) ==> extends_with(
                directory@,
                candidate_name(stem@, extension@, k as nat),
                #[trigger] candidates@[k]@,
            ),
        decreases 10000 - index + (if found { 0int } else { 1int }),
    {
        let name = candidate_name_exec(stem, extension, index);
        let candidate = join_path(directory, name.as_str());
        let exists = path_exists(candidate.as_str());
        taken.push(exists);
        candidates.push(candidate);
        if exists {
            index = index + 1;
        } else {
            found = true;
        }
    }
    match first_free(taken.as_slice()) {
        Some(i) => {
            let chosen = candidates[i].clone();
            assert(i < 10000 && (plain_name(candidate_name(stem@, extension@, i as nat))
                && !verbatim_path(directory@) ==> extends_with(
                directory@,
                candidate_name(stem@, extension@, i as nat),
                candidates@[i as int]@,
            )));
            chosen
        },
        None => {
            let mut v = chars_of(stem);
            v.push('_');
            extend_chars(&mut v, &decimal_chars(process_id as u64));
            v.push('.');
            extend_chars(&mut v, &chars_of(extension));
            let name = string_of(&v);
            assert(name@ =~= fallback_name(stem@, extension@, process_id as nat));
            join_path(directory, name.as_str())
        },
    }
}

/// The name of the temporary file that an image is written to before it replaces
/// `file_name`: `.{file_name}.{process id}.{sequence number}.tmp`, with `image` when the
/// path has no file name.
pub open spec fn temporary_name(file_name: Option<Seq<char>>, process_id: nat, sequence: nat) -> Seq<char> {
    seq!['.'] + (match file_name {
        Some(f) => f,
        None => "image"@,
    }) + seq!['.'] + decimal(process_id) + seq!['.'] + decimal(sequence) + ".tmp"@
}

/// The name of the temporary file for `file_name`.
pub fn temporary_file_name(file_name: Option<&str>, process_id: u32, sequence: u64) -> (r: String)
    ensures
        r@ == temporary_name(
            match file_name {
                Some(f) => Some(f@),
                None => None,
            },
            process_id as nat,
            sequence as nat,
        ),
{
    let mut v: Vec<char> = Vec::new();
    v.push('.');
    match file_name {
        Some(f) => extend_chars(&mut v, &chars_of(f)),
        None => extend_chars(&mut v, &chars_of("image")),
    }
    v.push('.');
    extend_chars(&mut v, &decimal_chars(process_id as u64));
    v.push('.');
    extend_chars(&mut v, &decimal_chars(sequence));
    extend_chars(&mut v, &chars_of(".tmp"));
    assert(v@ =~= temporary_name(
        match file_name {
            Some(f) => Some(f@),
            None => None,
        },
        process_id as nat,
        sequence as nat,
    ));
    string_of(&v)
}

/// The temporary file that an image is written to before it replaces `path`: a hidden
/// name next to it, made of the file name, the process number and a sequence number.
pub fn temporary_path(path: &str, process_id: u32, sequence: u64) -> (r: String)
    ensures
        forall|name: Seq<char>|
            (plain_name(name) && #[trigger] ends_with_component(path@, name) && portable_path(path@)
                && plain_name(temporary_name(Some(name), process_id as nat, sequence as nat)))
                ==> exists|prefix: Seq<char>|
                r@ == prefix + temporary_name(Some(name), process_id as nat, sequence as nat),
{
    let name = crate::paths::file_name(path);
    let temporary = match &name {
        Some(n) => temporary_file_name(Some(n.as_str()), process_id, sequence),
        None => temporary_file_name(None, process_id, sequence),
    };
    crate::paths::with_file_name(path, temporary.as_str())
}

/// One colour channel drawn over white with the pixel's alpha.
pub open spec fn over_white(channel: u8, alpha: u8) -> u8 {
    ((channel as int * alpha as int + 255 * (255 - alpha as int)) / 255) as u8
}

/// RGBA pixels drawn over white as RGB, for JPEG, which has no alpha: each pixel's colour
/// channels in order, blended with white by its alpha.
pub open spec fn flattened(rgba: Seq<u8>) -> Seq<u8> {
    Seq::new(
        ((rgba.len() / 4) * 3) as nat,
        |k: int| over_white(rgba[(k / 3) * 4 + k % 3], rgba[(k / 3) * 4 + 3]),
    )
}

fn blend_over_white(channel: u8, alpha: u8) -> (r: u8)
    ensures
        r == over_white(channel, alpha),
{
    let c = channel as u32;
    let a = alpha as u32;
    assert(c * a <= 255 * 255) by (nonlinear_arith)
        requires
            c <= 255,
            a <= 255,
    ;
    let v = (c * a + 255 * (255 - a)) / 255;
    assert(v <= 255) by (nonlinear_arith)
        requires
            v == (c * a + 255 * (255 - a)) / 255,
            c <= 255,
            a <= 255,
    ;
    v as u8
}

/// The RGB bytes of RGBA pixels drawn over white; a trailing partial pixel is dropped.
pub fn flatten_alpha(rgba: &[u8]) -> (r: Vec<u8>)
    ensures
        r@ == flattened(rgba@),
{
    let n = rgba.len();
    let pixels = n / 4;
    let mut r: Vec<u8> = Vec::new();
    let mut p: usize = 0;
    while p < pixels
        invariant
            n == rgba@.len(),
            pixels == n / 4,
            p <= pixels,
            r@.len() == p * 3,
            forall|k: int| 0 <= k < p * 3 ==> #[trigger] r@[k] == over_white(
                rgba@[(k / 3) * 4 + k % 3],
                rgba@[(k / 3) * 4 + 3],
            ),
        decreases pixels - p,
    {
        let base = p * 4;
        let alpha = rgba[base + 3];
        let ghost before = r@;
        r.push(blend_over_white(rgba[base], alpha));
        r.push(blend_over_white(rgba[base + 1], alpha));
        r.push(blend_over_white(rgba[base + 2], alpha));
        assert forall|k: int| 0 <= k < (p + 1) * 3 implies #[trigger] r@[k] == over_white(
            rgba@[(k / 3) * 4 + k % 3],
            rgba@[(k / 3) * 4 + 3],
        ) by {
            if k >= p * 3 {
                assert(k / 3 == p);
            } else {
                assert(r@[k] == before[k]);
            }
        }
        p = p + 1;
    }
    assert(r@ =~= flattened(rgba@));
    r
}

} // verus!
