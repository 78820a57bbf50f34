//! Single-instance locking: where the lock file lives, how the process id
//! stored in it is read back, and when an existing lock blocks start-up.
use vstd::prelude::*;
use crate::config::{config_dir_path, home_dir_path, opt_view, or_empty};
use crate::paths::join_path;
use crate::text::{append_chars, chars_of, decimal, push_decimal, string_of, trim, trimmed};

verus! {

/// Location of the lock file: `captura/captura.lock` inside the
/// configuration folder, or inside `.config` under the home folder.
pub open spec fn lock_path_spec(config: Option<Seq<char>>, home: Option<Seq<char>>) -> Seq<char> {
    let base = match config {
        Some(c) => c,
        None => join_path(or_empty(home), ".config"@),
    };
    join_path(join_path(base, "captura"@), "captura.lock"@)
}

/// The lock file location, given what the platform reports for the
/// configuration folder and the home folder.
pub fn lock_file_path_from(config: Option<String>, home: Option<String>) -> (r: String)
    ensures
        r@ == lock_path_spec(opt_view(config), opt_view(home)),
{
    let base = match config {
        Some(c) => c,
        None => crate::config::join_str(&crate::config::home_or_empty(home), ".config"),
    };
    crate::config::join_str(&crate::config::join_str(&base, "captura"), "captura.lock")
}

/// Where the lock file of this user lives.
pub fn lock_file_path() -> (r: String)
    ensures
        exists|config: Option<Seq<char>>, home: Option<Seq<char>>| r@ == lock_path_spec(config, home),
{
    let config = config_dir_path();
    let home = if config.is_none() {
        home_dir_path()
    } else {
        None
    };
    let ghost (c, h) = (opt_view(config), opt_view(home));
    lock_file_path_from(config, home)
}

/// Value of a string of ASCII digits, most significant first.
pub open spec fn digits_value(s: Seq<char>) -> nat
    decreases s.len(),
{
    if s.len() == 0 {
        0
    } else {
        digits_value(s.drop_last()) * 10 + (s.last() as int - '0' as int) as nat
    }
}

pub open spec fn all_digits(s: Seq<char>) -> bool {
    forall|i: int| 0 <= i < s.len() ==> '0' <= #[trigger] s[i] <= '9'
}

/// What `u32::from_str` accepts: an optional `+`, then one or more ASCII
/// digits whose value fits in a `u32`.
pub open spec fn parse_u32_spec(s: Seq<char>) -> Option<u32> {
    let digits = if s.len() > 0 && s[0] == '+' {
        s.skip(1)
    } else {
        s
    };
    if digits.len() > 0 && all_digits(digits) && digits_value(digits) <= u32::MAX {
        Some(digits_value(digits) as u32)
    } else {
        None
    }
}

proof fn lemma_digits_value_grows(s: Seq<char>, c: char)
    requires
        all_digits(s),
        '0' <= c <= '9',
    ensures
        digits_value(s.push(c)) >= digits_value(s),
{
    assert(s.push(c).drop_last() =~= s);
}

proof fn lemma_digits_value_monotone(s: Seq<char>, i: int)
    requires
        all_digits(s),
        0 <= i <= s.len(),
    ensures
        digits_value(s.take(i)) <= digits_value(s),
    decreases s.len() - i,
{
    if i < s.len() {
        lemma_digits_value_monotone(s, i + 1);
        assert(s.take(i + 1) =~= s.take(i).push(s[i]));
        assert(all_digits(s.take(i)));
        lemma_digits_value_grows(s.take(i), s[i]);
    } else {
        assert(s.take(i) =~= s);
    }
}

/// Reads a `u32` the way `u32::from_str` does.
pub fn parse_u32(s: &Vec<char>) -> (r: Option<u32>)
    ensures
        r == parse_u32_spec(s@),
{
    let start: usize = if s.len() > 0 && s[0] == '+' {
        1
    } else {
        0
    };
    let ghost digits = s@.skip(start as int);
    assert(s@.skip(0) =~= s@);
    if start >= s.len() {
        return None;
    }
    let mut value: u64 = 0;
    let mut i: usize = start;
    while i < s.len()
        invariant
            start <= i <= s.len(),
            start < s.len(),
            start == (if s@.len() > 0 && s@[0] == '+' {
                1int
            } else {
                0int
            }),
            digits == s@.skip(start as int),
            s@.skip(0) == s@,
            all_digits(digits.take(i - start)),
            value == digits_value(digits.take(i - start)),
            value <= u32::MAX,
        decreases s.len() - i,
    {
        let c = s[i];
        if c < '0' || c > '9' {
            assert(digits[i - start] == c);
            assert(!all_digits(digits));
            return None;
        }
        let ghost prefix = digits.take(i - start);
        assert(digits.take(i - start + 1) =~= prefix.push(c));
        assert(prefix.push(c).drop_last() =~= prefix);
        value = value * 10 + (c as u64 - '0' as u64);
        i = i + 1;
        assert(value == digits_value(digits.take(i - start)));
        assert(all_digits(digits.take(i - start))) by {
            assert forall|k: int| 0 <= k < digits.take(i - start).len() implies '0' <= #[trigger] digits.take(i - start)[k] <= '9' by {
                if k < i - start - 1 {
                    assert(digits.take(i - start)[k] == prefix[k]);
                }
            }
        }
        if value > u32::MAX as u64 {
            proof {
                if all_digits(digits) {
                    lemma_digits_value_monotone(digits, i - start);
                    assert(digits_value(digits) > u32::MAX);
                }
            }
            return None;
        }
    }
    assert(digits.take(i - start) =~= digits);
    assert(digits.len() > 0);
    assert(all_digits(digits));
    assert(parse_u32_spec(s@) == Some(digits_value(digits) as u32));
    Some(value as u32)
}

/// The process id recorded in a lock file's contents, if they hold one.
pub fn parse_lock_pid(contents: &str) -> (r: Option<u32>)
    ensures
        r == parse_u32_spec(trimmed(contents@)),
{
    let trimmed = trim(contents);
    parse_u32(&chars_of(trimmed.as_str()))
}

/// Whether an existing lock blocks start-up: it does when it names a process
/// that is still running; the message then says which.
pub fn lock_conflict(recorded_pid: Option<u32>, pid_alive: bool) -> (r: Option<String>)
    ensures
        match r {
            Some(m) => recorded_pid is Some && pid_alive && m@ == "another instance is running (PID "@
                + decimal(recorded_pid->0 as nat) + ")"@,
            None => recorded_pid is None || !pid_alive,
        },
{
    match recorded_pid {
        Some(pid) if pid_alive => {
            let mut msg = chars_of("another instance is running (PID ");
            push_decimal(pid as u64, &mut msg);
            append_chars(&mut msg, &chars_of(")"));
            assert(msg@ =~= "another instance is running (PID "@ + decimal(pid as nat) + ")"@);
            Some(string_of(&msg))
        },
        _ => None,
    }
}

/// The lock file's contents for process `pid`.
pub fn lock_contents(pid: u32) -> (r: String)
    ensures
        r@ == decimal(pid as nat),
{
    let mut v: Vec<char> = Vec::new();
    push_decimal(pid as u64, &mut v);
    assert(v@ =~= decimal(pid as nat));
    string_of(&v)
}

} // verus!
