//! The server's own log: where it goes, and how long it is kept.
use vstd::prelude::*;

use crate::mail::MailConfig;
#[allow(unused_imports)]
use crate::mail::in_the_clear;
#[allow(unused_imports)]
use crate::text::{has_prefix, is_digit, number_in, text_in, trimmed, text_at};
use crate::text::{chars_of, join2, join3, parse_u64, same_text, starts_with, strip_prefix, trim};

verus! {

/// Days of rotated logs to keep.
pub const DEFAULT_LOG_KEEP_DAYS: u64 = 30;

/// Seconds of a day.
pub const DAY_SECONDS: u64 = 86_400;

/// Whether a text is a date, such as `2026-08-02`.
pub open spec fn is_date(text: Seq<char>) -> bool {
    &&& text.len() == 10
    &&& forall|i: int|
        0 <= i < 10 ==> (if i == 4 || i == 7 {
            #[trigger] text[i] == '-'
        } else {
            is_digit(text[i])
        })
}

/// Whether a file is a log that this server rotated.
pub open spec fn is_rotated(prefix: Seq<char>, file: Seq<char>) -> bool {
    has_prefix(file, prefix + "."@) && is_date(file.skip(prefix.len() as int + 1))
}

/// The days of rotated logs that are kept, going by the setting; nothing where
/// they are kept forever.
pub open spec fn days_kept(setting: Option<Seq<char>>) -> Option<u64> {
    let days = match setting {
        Some(text) => match number_in(trimmed(text)) {
            Some(n) if n <= u64::MAX => n as u64,
            _ => DEFAULT_LOG_KEEP_DAYS,
        },
        None => DEFAULT_LOG_KEEP_DAYS,
    };
    if days == 0 {
        None
    } else {
        Some(days)
    }
}

/// Whether a file is older than the retention window. There is no such file
/// before the window is over for the first time.
pub open spec fn is_expired(modified: u64, now: u64, keep_days: u64) -> bool {
    keep_days * DAY_SECONDS <= now && modified < now - keep_days * DAY_SECONDS
}

/// The days of rotated logs that are kept.
pub fn keep_days(setting: Option<&str>) -> (days: Option<u64>)
    ensures
        days == days_kept(text_at(setting)),
{
    let days: u64 = match setting {
        Some(text) => match parse_u64(&trim(text)) {
            Some(n) => n,
            None => DEFAULT_LOG_KEEP_DAYS,
        },
        None => DEFAULT_LOG_KEEP_DAYS,
    };
    if days == 0 {
        None
    } else {
        Some(days)
    }
}

/// Whether a text is a date.
fn reads_as_date(text: &str) -> (yes: bool)
    ensures
        yes == is_date(text@),
{
    let chars = chars_of(text);
    if chars.len() != 10 {
        return false;
    }
    let mut i: usize = 0;
    while i < 10
        invariant
            chars@ == text@,
            chars@.len() == 10,
            i <= 10,
            forall|j: int|
                0 <= j < i ==> (if j == 4 || j == 7 {
                    #[trigger] text@[j] == '-'
                } else {
                    is_digit(text@[j])
                }),
        decreases 10 - i,
    {
        let c: char = chars[i];
        let fine = if i == 4 || i == 7 {
            c == '-'
        } else {
            '0' <= c && c <= '9'
        };
        if !fine {
            assert(!(if i == 4 || i == 7 {
                text@[i as int] == '-'
            } else {
                is_digit(text@[i as int])
            }));
            return false;
        }
        i = i + 1;
    }
    true
}

/// Whether a file is to be deleted: only files this server rotated, never anything
/// else that happens to share the folder, and only once they are old enough.
pub fn should_prune(prefix: &str, file: &str, modified: u64, now: u64, keep_days: u64) -> (yes: bool)
    ensures
        yes == (is_rotated(prefix@, file@) && is_expired(modified, now, keep_days)),
{
    let front = join2(prefix, ".");
    proof {
        reveal_strlit(".");
        assert(front@.len() == prefix@.len() + 1);
    }
    let rotated = match strip_prefix(file, &front) {
        Some(date) => reads_as_date(&date),
        None => false,
    };
    if !rotated {
        return false;
    }
    let window: u128 = keep_days as u128 * DAY_SECONDS as u128;
    if window > now as u128 {
        return false;
    }
    (modified as u128) < now as u128 - window
}

/// The name of the log of a day.
pub open spec fn log_name(prefix: Seq<char>, day: Seq<char>) -> Seq<char> {
    prefix + "."@ + day
}

/// The file to open, where the one of another day, or none, is open.
pub fn next_log(prefix: &str, open_day: Option<&str>, today: &str) -> (name: Option<String>)
    ensures
        text_in(name) == (if text_at(open_day) == Some(today@) {
            None
        } else {
            Some(log_name(prefix@, today@))
        }),
{
    let current = match open_day {
        Some(day) => same_text(day, today),
        None => false,
    };
    if current {
        None
    } else {
        Some(join3(prefix, ".", today))
    }
}

/// Only logs of a day are ever deleted, and a log of today never is.
pub proof fn only_old_rotated_logs_go(prefix: Seq<char>, day: Seq<char>, now: u64, keep_days: u64)
    ensures
        is_rotated(prefix, log_name(prefix, day)) == is_date(day),
        !is_expired(now, now, keep_days),
{
    let name = log_name(prefix, day);
    reveal_strlit(".");
    assert(name.take(prefix.len() as int + 1) =~= prefix + "."@);
    assert(name.skip(prefix.len() as int + 1) =~= day);
}

/// What weakens a deployment that is reachable from outside the machine.
#[derive(Clone, Copy, Debug, PartialEq, Eq, Structural)]
pub enum StartupWarning {
    /// Codes are echoed: development only.
    EchoCode,
    /// Nobody can verify their account.
    NoMail,
    /// Mail will not be sent.
    MailInTheClear,
    /// The log records who messaged whom.
    DebugLog,
}

/// Whether an address is reachable from outside the machine.
pub open spec fn is_public(addr: Seq<char>) -> bool {
    !has_prefix(addr, "127."@) && !has_prefix(addr, "localhost"@)
}

/// Whether a text stands somewhere in another.
pub open spec fn stands_in(part: Seq<char>, text: Seq<char>) -> bool {
    exists|i: int| 0 <= i && has_prefix(#[trigger] text.skip(i), part) && i <= text.len()
}

/// Whether a text stands somewhere in another.
fn does_stand_in(part: &str, text: &str) -> (yes: bool)
    ensures
        yes == stands_in(part@, text@),
{
    let chars = chars_of(text);
    let mut i: usize = 0;
    while i <= chars.len()
        invariant
            chars@ == text@,
            i <= chars@.len() + 1,
            forall|j: int| 0 <= j < i ==> !has_prefix(#[trigger] text@.skip(j), part@),
        decreases chars@.len() + 1 - i,
    {
        let rest = crate::text::slice_text(&chars, i, chars.len());
        assert(rest@ =~= text@.skip(i as int));
        if starts_with(&rest, part) {
            assert(has_prefix(text@.skip(i as int), part@));
            return true;
        }
        if i == chars.len() {
            return false;
        }
        i = i + 1;
    }
    false
}

/// Whether something is to be warned of.
pub open spec fn is_due(
    warning: StartupWarning,
    addr: Seq<char>,
    echo: bool,
    mail: Option<MailConfig>,
    log: Option<Seq<char>>,
) -> bool {
    is_public(addr) && match warning {
        StartupWarning::EchoCode => echo,
        StartupWarning::NoMail => mail is None,
        StartupWarning::MailInTheClear => mail is Some && in_the_clear(mail->0),
        StartupWarning::DebugLog => log is Some && stands_in("debug"@, log->0),
    }
}

/// What is warned of when the server starts: each of these silently weakens a
/// deployment that is reachable from outside the machine.
pub fn startup_warnings(addr: &str, echo: bool, mail: &Option<MailConfig>, log: Option<&str>) -> (list:
    Vec<StartupWarning>)
    ensures
        forall|w: StartupWarning|
            list@.contains(w) == #[trigger] is_due(w, addr@, echo, *mail, text_at(log)),
{
    let mut list: Vec<StartupWarning> = Vec::new();
    if starts_with(addr, "127.") || starts_with(addr, "localhost") {
        return list;
    }
    let missing = mail.is_none();
    let clear = match mail {
        Some(config) => config.credentials_in_the_clear(),
        None => false,
    };
    let debug = match log {
        Some(level) => does_stand_in("debug", level),
        None => false,
    };
    if echo {
        list.push(StartupWarning::EchoCode);
    }
    if missing {
        list.push(StartupWarning::NoMail);
    }
    if clear {
        list.push(StartupWarning::MailInTheClear);
    }
    if debug {
        list.push(StartupWarning::DebugLog);
    }
    proof {
        assert forall|w: StartupWarning| list@.contains(w) == #[trigger] is_due(
            w,
            addr@,
            echo,
            *mail,
            text_at(log),
        ) by {
            let a: int = if echo { 1 } else { 0 };
            let b: int = if missing { 1 } else { 0 };
            let c: int = if clear { 1 } else { 0 };
            match w {
                StartupWarning::EchoCode => {
                    if echo {
                        assert(list@[0] == w);
                    }
                },
                StartupWarning::NoMail => {
                    if missing {
                        assert(list@[a] == w);
                    }
                },
                StartupWarning::MailInTheClear => {
                    if clear {
                        assert(list@[a + b] == w);
                    }
                },
                StartupWarning::DebugLog => {
                    if debug {
                        assert(list@[a + b + c] == w);
                    }
                },
            }
        }
    }
    list
}

/// Logs are kept for as many days as were set, for 30 where nothing sensible was,
/// and for ever where it was none.
pub proof fn logs_are_kept_as_long_as_was_set(n: nat)
    requires
        n <= u64::MAX,
    ensures
        n > 0 ==> days_kept(Some(crate::text::decimal(n))) == Some(n as u64),
        n == 0 ==> days_kept(Some(crate::text::decimal(n))) is None,
        days_kept(None) == Some(30u64),
        days_kept(Some(Seq::empty())) == Some(30u64),
{
    let text = crate::text::decimal(n);
    crate::text::written_numbers_read_back(n as int);
    crate::text::lemma_decimal_has_no_space(n);
    assert(text =~= Seq::<char>::empty() + text + Seq::<char>::empty());
    crate::text::trimming_takes_the_space_at_the_ends(Seq::empty(), text, Seq::empty());
}

/// A log is old once it was last written more than so many days ago.
pub proof fn a_log_gets_old_after_its_days(modified: u64, now: u64, days: u64)
    requires
        modified <= now,
    ensures
        is_expired(modified, now, days) <==> now - modified > days * 86_400,
{
}

/// A log of a day is a date behind the prefix and a dot; the log itself is none.
pub proof fn a_rotated_log_has_its_date(prefix: Seq<char>, file: Seq<char>)
    requires
        is_rotated(prefix, file),
    ensures
        file.len() == prefix.len() + 11,
        file.take(prefix.len() as int) == prefix,
        file[prefix.len() as int] == '.',
        file[prefix.len() as int + 5] == '-',
        file[prefix.len() as int + 8] == '-',
        is_digit(file[prefix.len() as int + 1]),
        is_digit(file[prefix.len() as int + 10]),
        file != prefix,
{
    reveal_strlit(".");
    let head = prefix + "."@;
    let date = file.skip(prefix.len() as int + 1);
    assert(file.take(head.len() as int) == head);
    assert(file[prefix.len() as int] == head[prefix.len() as int]);
    assert(file.take(prefix.len() as int) =~= head.take(prefix.len() as int));
    assert(head.take(prefix.len() as int) =~= prefix);
    assert(date[4] == '-' && date[7] == '-');
    assert(is_digit(date[0]) && is_digit(date[9]));
}

/// Nothing is warned of on this machine alone; elsewhere each warning comes where
/// it is due.
pub proof fn warnings_come_where_they_are_due(
    addr: Seq<char>,
    echo: bool,
    mail: Option<MailConfig>,
    log: Option<Seq<char>>,
    w: StartupWarning,
)
    ensures
        has_prefix(addr, "127."@) || has_prefix(addr, "localhost"@) ==> !is_due(
            w,
            addr,
            echo,
            mail,
            log,
        ),
        !has_prefix(addr, "127."@) && !has_prefix(addr, "localhost"@) ==> {
            &&& is_due(StartupWarning::EchoCode, addr, echo, mail, log) == echo
            &&& is_due(StartupWarning::NoMail, addr, echo, mail, log) == mail is None
            &&& is_due(StartupWarning::MailInTheClear, addr, echo, mail, log) == (mail is Some
                && mail->0.user is Some && mail->0.pass is Some && !mail->0.starttls
                && !mail->0.tls)
            &&& log is None ==> !is_due(StartupWarning::DebugLog, addr, echo, mail, log)
        },
{
}

/// A log that names "debug" anywhere is warned of.
pub proof fn a_debug_log_is_warned_of(
    front: Seq<char>,
    back: Seq<char>,
    addr: Seq<char>,
    mail: Option<MailConfig>,
)
    requires
        !has_prefix(addr, "127."@) && !has_prefix(addr, "localhost"@),
    ensures
        is_due(StartupWarning::DebugLog, addr, false, mail, Some(front + "debug"@ + back)),
        !is_due(StartupWarning::DebugLog, addr, false, mail, Some(Seq::empty())),
{
    let text = front + "debug"@ + back;
    let i = front.len() as int;
    assert(text.skip(i).take("debug"@.len() as int) =~= "debug"@);
    assert(has_prefix(text.skip(i), "debug"@));
    reveal_strlit("debug");
    assert forall|j: int| 0 <= j && j <= 0 implies !has_prefix(
        #[trigger] Seq::<char>::empty().skip(j),
        "debug"@,
    ) by {
        assert(Seq::<char>::empty().skip(j).len() == 0);
    }
}

} // verus!
