//! Output file naming: filename templates, their validation, and the choice
//! of a path that does not collide with an existing file.
use vstd::prelude::*;
use chrono::{Datelike, Timelike};
use crate::config::OutputConfig;
use crate::paths::{build_file_path, file_path};
use crate::text::{
    lemma_decimal_digits, lemma_decimal_injective, lemma_decimal_nonempty, append_chars, chars_of, contains_char, decimal, pad_zeros, push_decimal,
    push_padded_decimal, push_signed_decimal, replace_all, replace_chars, signed_decimal,
    string_of,
};

verus! {

/// Why an output path could not be produced.
#[derive(Debug, PartialEq, Eq)]
pub enum StorageError {
    Io(String),
    InvalidTemplate(String),
    RevealFailed(String),
}

/// What is being captured; decides the `{type}` token and the extension.
#[derive(Debug, Clone, Copy, PartialEq, Eq)]
pub enum CaptureType {
    Screenshot,
    Recording,
    RegionScreenshot,
}

impl CaptureType {
    /// The text that replaces `{type}` in a filename template.
    pub open spec fn token(self) -> Seq<char> {
        match self {
            CaptureType::Screenshot => "screenshot"@,
            CaptureType::Recording => "recording"@,
            CaptureType::RegionScreenshot => "region"@,
        }
    }

    /// The configured extension for this kind of capture.
    pub open spec fn extension_in(self, config: OutputConfig) -> Seq<char> {
        match self {
            CaptureType::Screenshot | CaptureType::RegionScreenshot => config.screenshot_format@,
            CaptureType::Recording => config.video_format@,
        }
    }

    pub fn type_token(&self) -> (r: &'static str)
        ensures
            r@ == self.token(),
    {
        proof {
            reveal_strlit("screenshot");
            reveal_strlit("recording");
            reveal_strlit("region");
        }
        match self {
            CaptureType::Screenshot => "screenshot",
            CaptureType::Recording => "recording",
            CaptureType::RegionScreenshot => "region",
        }
    }

    pub fn extension<'a>(&self, config: &'a OutputConfig) -> (r: &'a str)
        ensures
            r@ == self.extension_in(*config),
    {
        match self {
            CaptureType::Screenshot | CaptureType::RegionScreenshot => {
                config.screenshot_format.as_str()
            },
            CaptureType::Recording => config.video_format.as_str(),
        }
    }
}

/// A filename template with every token expanded, in the order `{type}`,
/// `{date}`, `{time}`, `{timestamp}`, `{index}` (the index zero-padded to
/// three digits).
pub open spec fn expand_template(
    template: Seq<char>,
    token: Seq<char>,
    date: Seq<char>,
    time: Seq<char>,
    timestamp: int,
    index: nat,
) -> Seq<char> {
    let a = replace_all(template, "{type}"@, token);
    let b = replace_all(a, "{date}"@, date);
    let c = replace_all(b, "{time}"@, time);
    let d = replace_all(c, "{timestamp}"@, signed_decimal(timestamp));
    replace_all(d, "{index}"@, pad_zeros(decimal(index), 3))
}

/// A file name that can be used inside the output folder: not empty and
/// free of `/` and NUL.
pub open spec fn valid_file_name(name: Seq<char>) -> bool {
    &&& name.len() > 0
    &&& !name.contains('/')
    &&& !name.contains('\0')
}

/// The message of the error for a rejected file name.
pub open spec fn invalid_name_message(name: Seq<char>) -> Seq<char> {
    if name.len() == 0 {
        "template produced empty filename"@
    } else {
        "template produced invalid filename: "@ + name
    }
}

/// The file name for collision attempt `n`: the name itself for `n == 0`,
/// and `name_n` otherwise.
pub open spec fn numbered_name(name: Seq<char>, n: nat) -> Seq<char> {
    if n == 0 {
        name
    } else {
        name + seq!['_'] + decimal(n)
    }
}

/// The candidate path for collision attempt `n`.
pub open spec fn candidate_path(folder: Seq<char>, name: Seq<char>, ext: Seq<char>, n: nat) -> Seq<
    char,
> {
    file_path(folder, numbered_name(name, n), ext)
}

/// The attempts the path search makes: the bare name, then `_2`, `_3`, ...
pub open spec fn attempt_number(n: nat) -> bool {
    n == 0 || 2 <= n <= u32::MAX
}

/// Characters that a `%Y-%m-%d` rendering consists of.
pub open spec fn date_chars(s: Seq<char>) -> bool {
    forall|i: int| 0 <= i < s.len() ==> (('0' <= #[trigger] s[i] <= '9') || s[i] == '-' || s[i] == '+')
}

/// Characters that a `%H-%M-%S` rendering consists of.
pub open spec fn time_chars(s: Seq<char>) -> bool {
    forall|i: int| 0 <= i < s.len() ==> (('0' <= #[trigger] s[i] <= '9') || s[i] == '-')
}

/// The result of naming a capture from its template, before any path is built.
pub open spec fn file_name_result(
    template: Seq<char>,
    capture_type: CaptureType,
    date: Seq<char>,
    time: Seq<char>,
    timestamp: int,
    index: nat,
    r: Result<String, StorageError>,
) -> bool {
    let name = expand_template(template, capture_type.token(), date, time, timestamp, index);
    match r {
        Ok(s) => valid_file_name(name) && s@ == name,
        Err(StorageError::InvalidTemplate(m)) => !valid_file_name(name) && m@ == invalid_name_message(
            name,
        ),
        Err(_) => false,
    }
}

/// One reading of the local wall clock: the date and time parts as chrono's
/// `Datelike` and `Timelike` report them, and the same instant as seconds
/// since the Unix epoch.
#[derive(Debug, Clone, Copy, PartialEq, Eq)]
pub struct ClockReading {
    pub year: i32,
    pub month: u32,
    pub day: u32,
    pub hour: u32,
    pub minute: u32,
    pub second: u32,
    pub nanosecond: u32,
    pub timestamp: i64,
}

/// The ranges chrono documents for the parts of a date and time (a
/// nanosecond count of a second or more marks a leap second).
pub open spec fn clock_valid(t: ClockReading) -> bool {
    &&& -262143 <= t.year <= 262142
    &&& 1 <= t.month <= 12
    &&& 1 <= t.day <= 31
    &&& t.hour <= 23
    &&& t.minute <= 59
    &&& t.second <= 59
    &&& t.nanosecond < 2_000_000_000
}

/// A number rendered with at least two digits.
pub open spec fn two_digits(v: nat) -> Seq<char> {
    pad_zeros(decimal(v), 2)
}

/// A year as `%Y` renders it: four digits, zero-padded, and a sign before
/// years outside `0..=9999`.
pub open spec fn year_text(y: int) -> Seq<char> {
    if 0 <= y <= 9999 {
        pad_zeros(decimal(y as nat), 4)
    } else if y < 0 {
        seq!['-'] + pad_zeros(decimal((-y) as nat), 4)
    } else {
        seq!['+'] + pad_zeros(decimal(y as nat), 4)
    }
}

/// The `%Y-%m-%d` rendering of a clock reading.
pub open spec fn ymd_text(t: ClockReading) -> Seq<char> {
    year_text(t.year as int) + seq!['-'] + two_digits(t.month as nat) + seq!['-'] + two_digits(
        t.day as nat,
    )
}

/// The `%H-%M-%S` rendering of a clock reading; a leap second shows as 60.
pub open spec fn hms_text(t: ClockReading) -> Seq<char> {
    two_digits(t.hour as nat) + seq!['-'] + two_digits(t.minute as nat) + seq!['-'] + two_digits(
        (t.second + t.nanosecond / 1_000_000_000) as nat,
    )
}

/// The `{date}` text of a clock reading.
pub fn ymd_string(t: &ClockReading) -> (s: String)
    ensures
        s@ == ymd_text(*t),
{
    let mut out: Vec<char> = Vec::new();
    let y = t.year;
    if 0 <= y && y <= 9999 {
        push_padded_decimal(y as u64, 4, &mut out);
    } else if y < 0 {
        out.push('-');
        let magnitude: u64 = (0i64 - y as i64) as u64;
        push_padded_decimal(magnitude, 4, &mut out);
    } else {
        out.push('+');
        push_padded_decimal(y as u64, 4, &mut out);
    }
    assert(out@ =~= year_text(t.year as int));
    out.push('-');
    push_padded_decimal(t.month as u64, 2, &mut out);
    out.push('-');
    push_padded_decimal(t.day as u64, 2, &mut out);
    assert(out@ =~= ymd_text(*t));
    string_of(&out)
}

/// The `{time}` text of a clock reading.
pub fn hms_string(t: &ClockReading) -> (s: String)
    ensures
        s@ == hms_text(*t),
{
    let mut out: Vec<char> = Vec::new();
    push_padded_decimal(t.hour as u64, 2, &mut out);
    out.push('-');
    push_padded_decimal(t.minute as u64, 2, &mut out);
    out.push('-');
    let shown: u64 = t.second as u64 + (t.nanosecond / 1_000_000_000) as u64;
    push_padded_decimal(shown, 2, &mut out);
    assert(out@ =~= hms_text(*t));
    string_of(&out)
}

/// `chrono::Local::now`: the current local date and time, read once and
/// broken into the parts that `Datelike` and `Timelike` report, with the same
/// instant as seconds since the Unix epoch (`DateTime::timestamp`). The
/// ranges are those chrono documents for each part; which instant is read
/// is the clock's and the time zone's.
#[verifier::external_body]
fn local_now() -> (t: ClockReading)
    ensures
        clock_valid(t),
{
    let now = chrono::Local::now();
    let local = now.naive_local();
    ClockReading {
        year: local.year(),
        month: local.month(),
        day: local.day(),
        hour: local.hour(),
        minute: local.minute(),
        second: local.second(),
        nanosecond: local.nanosecond(),
        timestamp: now.timestamp(),
    }
}

/// `Path::exists`: whether something is at `path` on disk. Nothing is claimed
/// of the answer, which depends on the file system.
#[verifier::external_body]
fn path_exists(path: &[char]) -> bool {
    let text: String = path.iter().collect();
    std::path::Path::new(&text).exists()
}

/// The current local date and time, read once from the clock.
pub fn read_clock() -> (t: ClockReading)
    ensures
        clock_valid(t),
{
    local_now()
}

fn lit(s: &str) -> (v: Vec<char>)
    ensures
        v@ == s@,
{
    chars_of(s)
}

fn check_file_name(name: &Vec<char>) -> (ok: bool)
    ensures
        ok == valid_file_name(name@),
{
    name.len() > 0 && !contains_char(name, '/') && !contains_char(name, '\0')
}

/// Expands `template` for a capture and checks the resulting file name.
/// The date, time, timestamp and index are the values the caller read for
/// this capture.
pub fn resolve_file_name(
    template: &str,
    capture_type: CaptureType,
    date: &str,
    time: &str,
    timestamp: i64,
    index: u32,
) -> (r: Result<String, StorageError>)
    ensures
        file_name_result(template@, capture_type, date@, time@, timestamp as int, index as nat, r),
{
    proof {
        reveal_strlit("{type}");
        reveal_strlit("{date}");
        reveal_strlit("{time}");
        reveal_strlit("{timestamp}");
        reveal_strlit("{index}");
    }
    let t = chars_of(template);
    let a = replace_chars(&t, &lit("{type}"), &lit(capture_type.type_token()));
    let b = replace_chars(&a, &lit("{date}"), &chars_of(date));
    let c = replace_chars(&b, &lit("{time}"), &chars_of(time));
    let mut stamp: Vec<char> = Vec::new();
    push_signed_decimal(timestamp, &mut stamp);
    assert(stamp@ =~= signed_decimal(timestamp as int));
    let d = replace_chars(&c, &lit("{timestamp}"), &stamp);
    let mut idx: Vec<char> = Vec::new();
    push_padded_decimal(index as u64, 3, &mut idx);
    assert(idx@ =~= pad_zeros(decimal(index as nat), 3));
    let name = replace_chars(&d, &lit("{index}"), &idx);
    if check_file_name(&name) {
        Ok(string_of(&name))
    } else if name.len() == 0 {
        Err(StorageError::InvalidTemplate(String::from_str("template produced empty filename")))
    } else {
        let mut msg = lit("template produced invalid filename: ");
        append_chars(&mut msg, &name);
        Err(StorageError::InvalidTemplate(string_of(&msg)))
    }
}

/// The name for collision attempt `n`.
pub fn numbered(name: &Vec<char>, n: u32) -> (r: Vec<char>)
    ensures
        r@ == numbered_name(name@, n as nat),
{
    let mut out: Vec<char> = Vec::new();
    append_chars(&mut out, name);
    if n > 0 {
        out.push('_');
        push_decimal(n as u64, &mut out);
        assert(out@ =~= name@ + seq!['_'] + decimal(n as nat));
    } else {
        assert(out@ =~= name@);
    }
    out
}

/// What the path search does once it knows whether attempt `n` is taken.
#[derive(Debug, Clone, Copy, PartialEq, Eq)]
pub enum CollisionStep {
    /// Attempt `n` is free: its path is the answer.
    Use(u32),
    /// Attempt `n` is taken: ask about the next one.
    Try(u32),
    /// The last attempt is taken too: no free name is left.
    GiveUp,
}

/// The step after attempt `n` of the search `0, 2, 3, ..., u32::MAX`.
pub open spec fn collision_step_spec(n: u32, taken: bool) -> CollisionStep {
    if !taken {
        CollisionStep::Use(n)
    } else if n == u32::MAX {
        CollisionStep::GiveUp
    } else if n == 0 {
        CollisionStep::Try(2)
    } else {
        CollisionStep::Try((n + 1) as u32)
    }
}

pub fn collision_step(n: u32, taken: bool) -> (s: CollisionStep)
    ensures
        s == collision_step_spec(n, taken),
{
    if !taken {
        CollisionStep::Use(n)
    } else if n == u32::MAX {
        CollisionStep::GiveUp
    } else if n == 0 {
        CollisionStep::Try(2)
    } else {
        CollisionStep::Try(n + 1)
    }
}

/// The first attempt, in the order `0, 2, 3, ..., u32::MAX`, that `taken`
/// reports free; `None` when every attempt is reported taken.
pub fn first_free<F: Fn(u32) -> bool>(taken: F) -> (r: Option<u32>)
    requires
        forall|k: u32| taken.requires((k,)),
    ensures
        match r {
            Some(n) => attempt_number(n as nat) && taken.ensures((n,), false) && forall|k: u32|
                attempt_number(k as nat) && k < n ==> #[trigger] taken.ensures((k,), true),
            None => forall|k: u32| attempt_number(k as nat) ==> #[trigger] taken.ensures((k,), true),
        },
{
    let mut n: u32 = 0;
    loop
        invariant
            forall|k: u32| taken.requires((k,)),
            n == 0 || 2 <= n,
            forall|k: u32| attempt_number(k as nat) && k < n ==> #[trigger] taken.ensures((k,), true),
        decreases u32::MAX - n,
    {
        let t = taken(n);
        match collision_step(n, t) {
            CollisionStep::Use(k) => {
                return Some(k);
            },
            CollisionStep::Try(m) => {
                n = m;
            },
            CollisionStep::GiveUp => {
                return None;
            },
        }
    }
}

/// Turns out paths for a capture in its output folder.
pub struct StorageManager {
    config: OutputConfig,
}

impl StorageManager {
    /// The output settings in use.
    pub closed spec fn output(self) -> OutputConfig {
        self.config
    }

    pub fn new(config: OutputConfig) -> (m: Self)
        ensures
            m.output() == config,
    {
        StorageManager { config }
    }

    /// Update the config (e.g. after a config reload).
    pub fn update_config(&mut self, config: OutputConfig)
        ensures
            final(self).output() == config,
    {
        self.config = config;
    }

    /// The output settings in use.
    pub fn config(&self) -> (c: &OutputConfig)
        ensures
            *c == self.output(),
    {
        &self.config
    }

    /// Resolve a full output path for the given capture type, with `index`
    /// as the value of the `{index}` token (the caller keeps the
    /// process-wide counter), `now` as the reading of the clock for the
    /// `{date}`, `{time}` and `{timestamp}` tokens, and `is_taken` as the
    /// check whether a path is taken. The first candidate reported free is
    /// returned. The output folder is not created here.
    pub fn resolve_path_in<F: Fn(&[char]) -> bool>(
        &self,
        capture_type: CaptureType,
        index: u32,
        now: &ClockReading,
        is_taken: F,
    ) -> (r: Result<String, StorageError>)
        requires
            !capture_type.extension_in(self.output()).contains('/'),
            forall|p: &[char]| is_taken.requires((p,)),
        ensures
            path_resolved(self.output(), capture_type, index, *now, is_taken, r),
    {
        broadcast use vstd::slice::group_slice_axioms;
        let date = ymd_string(now);
        let time = hms_string(now);
        let ghost config = self.config;
        let named = resolve_file_name(
            self.config.filename_template.as_str(),
            capture_type,
            date.as_str(),
            time.as_str(),
            now.timestamp,
            index,
        );
        let ghost name = expand_template(
            config.filename_template@,
            capture_type.token(),
            date@,
            time@,
            now.timestamp as int,
            index as nat,
        );
        let file_name = match named {
            Ok(f) => f,
            Err(e) => {
                return Err(e);
            },
        };
        let folder = chars_of(self.config.folder.as_str());
        let base = chars_of(file_name.as_str());
        let ext = chars_of(capture_type.extension(&self.config));
        assert(ext@ == capture_type.extension_in(config));
        let check = &is_taken;
        let taken = |k: u32| -> (b: bool)
            requires
                forall|p: &[char]| check.requires((p,)),
            ensures
                reported(*check, candidate_path(folder@, base@, ext@, k as nat), b),
            {
                let path = build_file_path(&folder, &numbered(&base, k), &ext);
                let asked = path.as_slice();
                let answer = check(asked);
                proof {
                    assert forall|p: &[char]| #[trigger] p@ == path@ implies check.ensures((p,), answer) by {
                        assert(p =~= asked);
                    }
                }
                answer
            };
        match first_free(taken) {
            Some(n) => {
                let path = string_of(&build_file_path(&folder, &numbered(&base, n), &ext));
                proof {
                    assert(attempt_number(n as nat) && path@ == candidate_path(folder@, name, ext@, n as nat));
                    assert(reported(is_taken, path@, false));
                    assert forall|k: nat| attempt_number(k) && k < n implies #[trigger] reported(
                        is_taken,
                        candidate_path(folder@, name, ext@, k),
                        true,
                    ) by {
                        assert(taken.ensures(((k as u32),), true));
                    }
                }
                Ok(path)
            },
            None => {
                proof {
                    reveal_strlit("no free file name left for this template");
                    assert forall|k: nat| attempt_number(k) implies #[trigger] reported(
                        is_taken,
                        candidate_path(folder@, name, ext@, k),
                        true,
                    ) by {
                        assert(taken.ensures(((k as u32),), true));
                    }
                }
                Err(StorageError::Io(String::from_str("no free file name left for this template")))
            },
        }
    }

    /// Resolve a full output path for the given capture type, with `index`
    /// as the value of the `{index}` token: the clock is read once, and the
    /// first candidate that is not on disk is returned (see
    /// `resolve_path_in`, which this calls with the clock's reading and the
    /// disk's answers). The output folder is not created here.
    pub fn resolve_path(&self, capture_type: CaptureType, index: u32) -> (r: Result<
        String,
        StorageError,
    >)
        requires
            !capture_type.extension_in(self.output()).contains('/'),
        ensures
            resolves_to(self.output(), capture_type, index, r),
    {
        let now = local_now();
        let on_disk = |p: &[char]| -> (b: bool) { path_exists(p) };
        let r = self.resolve_path_in(capture_type, index, &now, on_disk);
        proof {
            lemma_resolved_is_an_outcome(self.output(), capture_type, index, now, on_disk, r);
        }
        r
    }
}

/// Whether `is_taken` answered `answer` when asked about `path`, whichever
/// slice held it.
pub open spec fn reported<F: Fn(&[char]) -> bool>(is_taken: F, path: Seq<char>, answer: bool) -> bool {
    forall|p: &[char]| #[trigger] p@ == path ==> is_taken.ensures((p,), answer)
}

/// What resolving a path gives for the clock reading `now` and the answers
/// of `is_taken`: the template error when the expanded name is not a valid
/// file name; otherwise the candidate path of the first attempt (the bare
/// name, then `_2`, `_3`, ...) reported free, with every earlier attempt
/// reported taken; or, when every attempt up to `_4294967295` is reported
/// taken, an I/O error.
pub open spec fn path_resolved<F: Fn(&[char]) -> bool>(
    config: OutputConfig,
    capture_type: CaptureType,
    index: u32,
    now: ClockReading,
    is_taken: F,
    r: Result<String, StorageError>,
) -> bool {
    let name = expand_template(
        config.filename_template@,
        capture_type.token(),
        ymd_text(now),
        hms_text(now),
        now.timestamp as int,
        index as nat,
    );
    let ext = capture_type.extension_in(config);
    match r {
        Ok(p) => valid_file_name(name) && exists|n: nat|
            #![trigger candidate_path(config.folder@, name, ext, n)]
            attempt_number(n) && p@ == candidate_path(config.folder@, name, ext, n) && reported(
                is_taken,
                p@,
                false,
            ) && forall|k: nat|
                attempt_number(k) && k < n ==> reported(
                    is_taken,
                    #[trigger] candidate_path(config.folder@, name, ext, k),
                    true,
                ),
        Err(StorageError::InvalidTemplate(m)) => !valid_file_name(name) && m@
            == invalid_name_message(name),
        Err(StorageError::Io(m)) => valid_file_name(name) && m@
            == "no free file name left for this template"@ && forall|k: nat|
            attempt_number(k) ==> reported(
                is_taken,
                #[trigger] candidate_path(config.folder@, name, ext, k),
                true,
            ),
        Err(StorageError::RevealFailed(_)) => false,
    }
}

/// A path resolved for a valid clock reading is one of the outcomes
/// `resolves_to` allows.
pub proof fn lemma_resolved_is_an_outcome<F: Fn(&[char]) -> bool>(
    config: OutputConfig,
    capture_type: CaptureType,
    index: u32,
    now: ClockReading,
    is_taken: F,
    r: Result<String, StorageError>,
)
    requires
        clock_valid(now),
        path_resolved(config, capture_type, index, now, is_taken, r),
    ensures
        resolves_to(config, capture_type, index, r),
{
    assert(resolve_outcome(config, capture_type, index, ymd_text(now), hms_text(now), now.timestamp, r));
}

/// What resolving a path gives for one reading of the clock (see
/// `resolve_outcome`).
pub open spec fn resolves_to(
    config: OutputConfig,
    capture_type: CaptureType,
    index: u32,
    r: Result<String, StorageError>,
) -> bool {
    exists|t: ClockReading|
        #![trigger clock_valid(t)]
        clock_valid(t) && resolve_outcome(
            config,
            capture_type,
            index,
            ymd_text(t),
            hms_text(t),
            t.timestamp,
            r,
        )
}

/// What resolving a path may give, for the date, time and timestamp read
/// from the clock: a candidate path for the expanded name when it is valid,
/// the template error when it is not, or an I/O error once every numbered
/// candidate was taken.
pub open spec fn resolve_outcome(
    config: OutputConfig,
    capture_type: CaptureType,
    index: u32,
    date: Seq<char>,
    time: Seq<char>,
    timestamp: i64,
    r: Result<String, StorageError>,
) -> bool {
    let name = expand_template(
        config.filename_template@,
        capture_type.token(),
        date,
        time,
        timestamp as int,
        index as nat,
    );
    match r {
        Ok(p) => valid_file_name(name) && exists|n: nat|
            attempt_number(n) && p@ == candidate_path(
                config.folder@,
                name,
                capture_type.extension_in(config),
                n,
            ),
        Err(StorageError::InvalidTemplate(m)) => !valid_file_name(name) && m@
            == invalid_name_message(name),
        Err(StorageError::Io(m)) => valid_file_name(name) && m@
            == "no free file name left for this template"@,
        Err(StorageError::RevealFailed(_)) => false,
    }
}

proof fn lemma_no_dot_stem(name: Seq<char>)
    requires
        !name.contains('.'),
    ensures
        crate::paths::last_dot(name) == -1,
    decreases name.len(),
{
    if name.len() > 0 {
        assert(name.last() != '.') by {
            assert(name[name.len() - 1] == name.last());
        }
        assert(!name.drop_last().contains('.')) by {
            if name.drop_last().contains('.') {
                let k = choose|k: int| 0 <= k < name.drop_last().len() && name.drop_last()[k] == '.';
                assert(name[k] == '.');
            }
        }
        lemma_no_dot_stem(name.drop_last());
    }
}

/// For a file name without `.`, the path search never tries the same path
/// twice: distinct attempts give distinct candidate paths.
pub proof fn lemma_candidates_distinct(
    folder: Seq<char>,
    name: Seq<char>,
    ext: Seq<char>,
    n: nat,
    m: nat,
)
    requires
        valid_file_name(name),
        !name.contains('.'),
        attempt_number(n),
        attempt_number(m),
        n != m,
    ensures
        candidate_path(folder, name, ext, n) != candidate_path(folder, name, ext, m),
{
    let a = numbered_name(name, n);
    let b = numbered_name(name, m);
    lemma_decimal_digits(n);
    lemma_decimal_digits(m);
    lemma_decimal_nonempty(n);
    lemma_decimal_nonempty(m);
    assert(!a.contains('.')) by {
        if a.contains('.') {
            let k = choose|k: int| 0 <= k < a.len() && a[k] == '.';
            if n != 0 && k >= name.len() + 1 {
                assert(a[k] == decimal(n)[k - name.len() - 1]);
            }
            if k < name.len() {
                assert(a[k] == name[k]);
            }
        }
    }
    assert(!b.contains('.')) by {
        if b.contains('.') {
            let k = choose|k: int| 0 <= k < b.len() && b[k] == '.';
            if m != 0 && k >= name.len() + 1 {
                assert(b[k] == decimal(m)[k - name.len() - 1]);
            }
            if k < name.len() {
                assert(b[k] == name[k]);
            }
        }
    }
    lemma_no_dot_stem(a);
    lemma_no_dot_stem(b);
    assert(a != seq!['.', '.']) by {
        if a == seq!['.', '.'] {
            assert(a.contains('.')) by {
                assert(a[0] == '.');
            }
        }
    }
    assert(b != seq!['.', '.']) by {
        if b == seq!['.', '.'] {
            assert(b.contains('.')) by {
                assert(b[0] == '.');
            }
        }
    }
    assert(a != b) by {
        if a == b {
            if n == 0 {
                assert(a.len() < b.len());
            } else if m == 0 {
                assert(b.len() < a.len());
            } else {
                assert(decimal(n) =~= a.skip(name.len() as int + 1));
                assert(decimal(m) =~= b.skip(name.len() as int + 1));
                lemma_decimal_injective(n, m);
            }
        }
    }
    let pa = crate::paths::with_extension(a, ext);
    let pb = crate::paths::with_extension(b, ext);
    assert(pa != pb) by {
        if pa == pb {
            if ext.len() == 0 {
                assert(pa == a);
            } else {
                assert(pa.len() == a.len() + 1 + ext.len());
                assert(pb.len() == b.len() + 1 + ext.len());
                assert(a.len() == b.len());
                assert(a =~= pa.take(a.len() as int));
                assert(b =~= pb.take(b.len() as int));
            }
        }
    }
    let ja = crate::paths::join_path(folder, pa);
    let jb = crate::paths::join_path(folder, pb);
    assert(ja != jb) by {
        if ja == jb {
            if folder.len() == 0 {
            } else if folder.last() == '/' {
                assert(pa =~= ja.skip(folder.len() as int));
                assert(pb =~= jb.skip(folder.len() as int));
            } else {
                assert(pa =~= ja.skip(folder.len() as int + 1));
                assert(pb =~= jb.skip(folder.len() as int + 1));
            }
        }
    }
}

/// Replacing every occurrence of a pattern by text free of `c` cannot
/// introduce `c`.
pub proof fn lemma_replace_keeps_char_out(s: Seq<char>, pat: Seq<char>, rep: Seq<char>, c: char)
    requires
        !s.contains(c),
        !rep.contains(c),
    ensures
        !replace_all(s, pat, rep).contains(c),
    decreases s.len(),
{
    if pat.len() == 0 || s.len() < pat.len() {
    } else {
        let rest = if s.take(pat.len() as int) == pat {
            s.skip(pat.len() as int)
        } else {
            s.skip(1)
        };
        assert(!rest.contains(c)) by {
            if rest.contains(c) {
                let k = choose|k: int| 0 <= k < rest.len() && rest[k] == c;
                if s.take(pat.len() as int) == pat {
                    assert(s[k + pat.len()] == c);
                } else {
                    assert(s[k + 1] == c);
                }
            }
        }
        lemma_replace_keeps_char_out(rest, pat, rep, c);
        let r = replace_all(s, pat, rep);
        let tail = replace_all(rest, pat, rep);
        assert(!r.contains(c)) by {
            if r.contains(c) {
                let k = choose|k: int| 0 <= k < r.len() && r[k] == c;
                if s.take(pat.len() as int) == pat {
                    if k < rep.len() {
                        assert(rep[k] == c);
                    } else {
                        assert(tail[k - rep.len()] == c);
                    }
                } else {
                    if k == 0 {
                        assert(s[0] == c);
                    } else {
                        assert(tail[k - 1] == c);
                    }
                }
            }
        }
    }
}

proof fn lemma_signed_decimal_plain(i: int, c: char)
    requires
        c != '-',
        !('0' <= c <= '9'),
    ensures
        !crate::text::signed_decimal(i).contains(c),
{
    let s = crate::text::signed_decimal(i);
    let d = if i < 0 {
        decimal((-i) as nat)
    } else {
        decimal(i as nat)
    };
    lemma_decimal_digits(if i < 0 {
        (-i) as nat
    } else {
        i as nat
    });
    if s.contains(c) {
        let k = choose|k: int| 0 <= k < s.len() && s[k] == c;
        if i < 0 {
            if k > 0 {
                assert(s[k] == d[k - 1]);
            }
        } else {
            assert(s[k] == d[k]);
        }
    }
}

proof fn lemma_padded_plain(n: nat, c: char)
    requires
        c != '0',
        !('0' <= c <= '9'),
    ensures
        !pad_zeros(decimal(n), 3).contains(c),
{
    lemma_decimal_digits(n);
    let d = decimal(n);
    let p = pad_zeros(d, 3);
    if p.contains(c) {
        let k = choose|k: int| 0 <= k < p.len() && p[k] == c;
        if d.len() < 3 {
            let fill = (3 - d.len()) as nat;
            if k >= fill {
                assert(p[k] == d[k - fill]);
            }
        } else {
            assert(p[k] == d[k]);
        }
    }
}

proof fn lemma_padded_digits(n: nat, w: nat)
    ensures
        forall|i: int| 0 <= i < pad_zeros(decimal(n), w).len() ==> '0' <= #[trigger] pad_zeros(decimal(n), w)[i] <= '9',
{
    lemma_decimal_digits(n);
    let d = decimal(n);
    let p = pad_zeros(d, w);
    assert forall|i: int| 0 <= i < p.len() implies '0' <= #[trigger] p[i] <= '9' by {
        if d.len() < w {
            let fill = (w - d.len()) as nat;
            if i >= fill {
                assert(p[i] == d[i - fill]);
            }
        } else {
            assert(p[i] == d[i]);
        }
    }
}

/// The date and time texts of a clock reading hold only digits, `-` and a
/// year sign.
pub proof fn lemma_clock_text_chars(t: ClockReading)
    ensures
        date_chars(ymd_text(t)),
        time_chars(hms_text(t)),
{
    let y = t.year as int;
    let yn: nat = if y < 0 { (-y) as nat } else { y as nat };
    lemma_padded_digits(yn, 4);
    lemma_padded_digits(t.month as nat, 2);
    lemma_padded_digits(t.day as nat, 2);
    lemma_padded_digits(t.hour as nat, 2);
    lemma_padded_digits(t.minute as nat, 2);
    lemma_padded_digits((t.second + t.nanosecond / 1_000_000_000) as nat, 2);
    let yt = year_text(y);
    assert forall|i: int| 0 <= i < yt.len() implies ('0' <= #[trigger] yt[i] <= '9') || yt[i] == '-' || yt[i] == '+' by {
        if !(0 <= y <= 9999) && i > 0 {
            assert(yt[i] == pad_zeros(decimal(yn), 4)[i - 1]);
        }
    }
    let m = two_digits(t.month as nat);
    let d = two_digits(t.day as nat);
    let ymd = ymd_text(t);
    assert forall|i: int| 0 <= i < ymd.len() implies ('0' <= #[trigger] ymd[i] <= '9') || ymd[i] == '-' || ymd[i] == '+' by {
        if i < yt.len() {
            assert(ymd[i] == yt[i]);
        } else if i > yt.len() && i < yt.len() + 1 + m.len() {
            assert(ymd[i] == m[i - yt.len() - 1]);
        } else if i > yt.len() + 1 + m.len() {
            assert(ymd[i] == d[i - yt.len() - 2 - m.len()]);
        }
    }
    let h = two_digits(t.hour as nat);
    let mi = two_digits(t.minute as nat);
    let se = two_digits((t.second + t.nanosecond / 1_000_000_000) as nat);
    let hms = hms_text(t);
    assert forall|i: int| 0 <= i < hms.len() implies ('0' <= #[trigger] hms[i] <= '9') || hms[i] == '-' by {
        if i < h.len() {
            assert(hms[i] == h[i]);
        } else if i > h.len() && i < h.len() + 1 + mi.len() {
            assert(hms[i] == mi[i - h.len() - 1]);
        } else if i > h.len() + 1 + mi.len() {
            assert(hms[i] == se[i - h.len() - 2 - mi.len()]);
        }
    }
}

/// A template free of `/` and NUL expands, for any reading of the clock, to
/// a file name free of both: such a template is only refused when it expands
/// to an empty name.
pub proof fn lemma_clean_template_expands_clean(
    template: Seq<char>,
    capture_type: CaptureType,
    t: ClockReading,
    index: nat,
)
    requires
        !template.contains('/'),
        !template.contains('\0'),
    ensures
        ({
            let name = expand_template(
                template,
                capture_type.token(),
                ymd_text(t),
                hms_text(t),
                t.timestamp as int,
                index,
            );
            !name.contains('/') && !name.contains('\0')
        }),
{
    lemma_clock_text_chars(t);
    lemma_clean_expansion(template, capture_type, ymd_text(t), hms_text(t), t.timestamp as int, index);
}

proof fn lemma_clean_expansion(
    template: Seq<char>,
    capture_type: CaptureType,
    date: Seq<char>,
    time: Seq<char>,
    timestamp: int,
    index: nat,
)
    requires
        !template.contains('/'),
        !template.contains('\0'),
        date_chars(date),
        time_chars(time),
    ensures
        ({
            let name = expand_template(template, capture_type.token(), date, time, timestamp, index);
            !name.contains('/') && !name.contains('\0')
        }),
{
    reveal_strlit("screenshot");
    reveal_strlit("recording");
    reveal_strlit("region");
    let token = capture_type.token();
    let digits = pad_zeros(decimal(index), 3);
    let stamp = crate::text::signed_decimal(timestamp);
    assert forall|c: char| c == '/' || c == '\0' implies !token.contains(c) && !date.contains(c)
        && !time.contains(c) && !stamp.contains(c) && !digits.contains(c) by {
        if token.contains(c) {
            let k = choose|k: int| 0 <= k < token.len() && token[k] == c;
        }
        if date.contains(c) {
            let k = choose|k: int| 0 <= k < date.len() && date[k] == c;
            assert(('0' <= date[k] <= '9') || date[k] == '-' || date[k] == '+');
        }
        if time.contains(c) {
            let k = choose|k: int| 0 <= k < time.len() && time[k] == c;
            assert(('0' <= time[k] <= '9') || time[k] == '-');
        }
        lemma_signed_decimal_plain(timestamp, c);
        lemma_padded_plain(index, c);
    }
    let a = replace_all(template, "{type}"@, token);
    let b = replace_all(a, "{date}"@, date);
    let c2 = replace_all(b, "{time}"@, time);
    let d = replace_all(c2, "{timestamp}"@, stamp);
    lemma_replace_keeps_char_out(template, "{type}"@, token, '/');
    lemma_replace_keeps_char_out(a, "{date}"@, date, '/');
    lemma_replace_keeps_char_out(b, "{time}"@, time, '/');
    lemma_replace_keeps_char_out(c2, "{timestamp}"@, stamp, '/');
    lemma_replace_keeps_char_out(d, "{index}"@, digits, '/');
    lemma_replace_keeps_char_out(template, "{type}"@, token, '\0');
    lemma_replace_keeps_char_out(a, "{date}"@, date, '\0');
    lemma_replace_keeps_char_out(b, "{time}"@, time, '\0');
    lemma_replace_keeps_char_out(c2, "{timestamp}"@, stamp, '\0');
    lemma_replace_keeps_char_out(d, "{index}"@, digits, '\0');
}

/// Both kinds of screenshot are written in the configured screenshot format,
/// and recordings in the configured video format, whatever the settings.
pub proof fn lemma_extension_follows_the_settings(config: OutputConfig)
    ensures
        CaptureType::Screenshot.extension_in(config) == config.screenshot_format@,
        CaptureType::RegionScreenshot.extension_in(config) == config.screenshot_format@,
        CaptureType::RegionScreenshot.extension_in(config) == CaptureType::Screenshot.extension_in(
            config,
        ),
        CaptureType::Recording.extension_in(config) == config.video_format@,
{
}

} // verus!
