//! What is logged how, and which logs are kept.

use crate::text::{contains, same_text, starts_with};
use vstd::prelude::*;

verus! {

#[derive(Debug, Clone, Copy, PartialEq, Eq, Structural)]
pub enum LogLevel {
    Error,
    Warn,
    Info,
}

/// A fault that the page reports is an error whatever level it came with.
pub open spec fn level_of(level: Seq<char>, message: Seq<char>) -> LogLevel {
    if level == "error"@ || crate::text::contains_text(message, "station-ui fault"@) {
        LogLevel::Error
    } else if level == "warn"@ {
        LogLevel::Warn
    } else {
        LogLevel::Info
    }
}

/// The level at which a console line of the page is logged.
pub fn log_ui_console(level: &str, message: &str) -> (logged: LogLevel)
    ensures
        logged == level_of(level@, message@),
{
    if contains(message, "station-ui fault") || same_text(level, "error") {
        LogLevel::Error
    } else if same_text(level, "warn") {
        LogLevel::Warn
    } else {
        LogLevel::Info
    }
}

/// How long shell logs are kept.
pub const LOG_KEEP_DAYS: u64 = 14;

/// A file in the log directory. The time of its last change is in nanoseconds
/// after the Unix epoch, `None` where it cannot be read.
#[derive(Debug)]
pub struct LogFile {
    pub name: String,
    pub modified_ns: Option<i128>,
}

/// Only shell logs are swept, and of those the ones that were last changed
/// more than `keep_days` ago. The supervisor's records stay.
pub open spec fn is_swept(file: LogFile, now_ns: i128, keep_days: u64) -> bool {
    &&& crate::text::occurs_at(file.name@, "shell.log"@, 0)
    &&& file.modified_ns matches Some(t) && t < now_ns - keep_days * 24 * 60 * 60 * 1_000_000_000
}

/// The positions of the files to remove, in order.
pub open spec fn swept(files: Seq<LogFile>, now_ns: i128, keep_days: u64) -> Seq<int>
    decreases files.len(),
{
    if files.len() == 0 {
        Seq::empty()
    } else {
        let rest = swept(files.drop_last(), now_ns, keep_days);
        if is_swept(files.last(), now_ns, keep_days) {
            rest.push(files.len() - 1)
        } else {
            rest
        }
    }
}

/// Which of the files in the log directory go.
pub fn sweep_old_logs(files: &Vec<LogFile>, now_ns: i128, keep_days: u64) -> (remove: Vec<usize>)
    requires
        i128::MIN / 2 <= now_ns,
    ensures
        remove.len() == swept(files@, now_ns, keep_days).len(),
        forall|i: int|
            0 <= i < remove.len() ==> #[trigger] remove[i] == swept(files@, now_ns, keep_days)[i],
{
    let kept_ns: i128 = keep_days as i128 * 86_400_000_000_000;
    let cutoff: i128 = now_ns - kept_ns;
    let mut remove: Vec<usize> = Vec::new();
    let mut i: usize = 0;
    while i < files.len()
        invariant
            i <= files.len(),
            cutoff == now_ns - keep_days * 24 * 60 * 60 * 1_000_000_000,
            remove.len() == swept(files@.take(i as int), now_ns, keep_days).len(),
            forall|j: int|
                0 <= j < remove.len() ==> #[trigger] remove[j] == swept(
                    files@.take(i as int),
                    now_ns,
                    keep_days,
                )[j],
        decreases files.len() - i,
    {
        assert(files@.take(i + 1).drop_last() =~= files@.take(i as int));
        let old = match files[i].modified_ns {
            Some(t) => t < cutoff,
            None => false,
        };
        if old && starts_with(files[i].name.as_str(), "shell.log") {
            remove.push(i);
        }
        i = i + 1;
    }
    assert(files@.take(i as int) =~= files@);
    remove
}

/// A console line is an error if it was logged as one or reports a fault of the
/// page, a warning if it was logged as one and reports none, and information
/// otherwise.
pub proof fn law_a_page_fault_is_an_error(level: Seq<char>, message: Seq<char>)
    ensures
        ({
            let fault = exists|i: int|
                crate::text::occurs_at(message, "station-ui fault"@, i);
            &&& level_of(level, message) == LogLevel::Error <==> fault || level == "error"@
            &&& level_of(level, message) == LogLevel::Warn <==> !fault && level == "warn"@
            &&& level_of(level, message) == LogLevel::Info <==> !fault && level != "error"@
                && level != "warn"@
        }),
{
    reveal_strlit("error");
    reveal_strlit("warn");
    assert("error"@.len() != "warn"@.len());
}

/// A file goes exactly if it is a shell log and was last changed more than so
/// many days ago; one whose time cannot be read stays. Each goes once, in
/// order.
pub proof fn law_old_shell_logs_go_and_nothing_else(
    files: Seq<LogFile>,
    now_ns: i128,
    keep_days: u64,
)
    ensures
        forall|i: int|
            0 <= i < files.len() ==> (#[trigger] swept(files, now_ns, keep_days).contains(i) <==> {
                &&& files[i].name@.len() >= 9
                &&& files[i].name@.take(9) == "shell.log"@
                &&& files[i].modified_ns matches Some(t) && now_ns - t > keep_days
                    * 86_400_000_000_000
            }),
        forall|k: int|
            0 <= k < swept(files, now_ns, keep_days).len() ==> 0 <= #[trigger] swept(
                files,
                now_ns,
                keep_days,
            )[k] < files.len(),
        forall|j: int, k: int|
            0 <= j < k < swept(files, now_ns, keep_days).len() ==> swept(files, now_ns, keep_days)[j]
                < swept(files, now_ns, keep_days)[k],
        LOG_KEEP_DAYS == 14,
    decreases files.len(),
{
    reveal_strlit("shell.log");
    if files.len() > 0 {
        let rest = files.drop_last();
        let before = swept(rest, now_ns, keep_days);
        let all = swept(files, now_ns, keep_days);
        let last = files.len() - 1;
        law_old_shell_logs_go_and_nothing_else(rest, now_ns, keep_days);
        assert(keep_days * 24 * 60 * 60 * 1_000_000_000 == keep_days * 86_400_000_000_000)
            by (nonlinear_arith);
        if files[last].name@.len() >= 9 {
            assert(files[last].name@.subrange(0, 9) =~= files[last].name@.take(9));
        }
        assert forall|i: int| 0 <= i < files.len() implies (#[trigger] all.contains(i) <==> {
            &&& files[i].name@.len() >= 9
            &&& files[i].name@.take(9) == "shell.log"@
            &&& files[i].modified_ns matches Some(t) && now_ns - t > keep_days
                * 86_400_000_000_000
        }) by {
            if i < last {
                assert(rest[i] == files[i]);
                assert(before.contains(i) <==> all.contains(i)) by {
                    if before.contains(i) {
                        let k = choose|k: int| 0 <= k < before.len() && before[k] == i;
                        assert(all[k] == i);
                    }
                    if all.contains(i) {
                        let k = choose|k: int| 0 <= k < all.len() && all[k] == i;
                        assert(k < before.len());
                        assert(before[k] == i);
                    }
                }
            } else {
                if is_swept(files[last], now_ns, keep_days) {
                    assert(all[all.len() - 1] == last);
                } else if all.contains(i) {
                    let k = choose|k: int| 0 <= k < all.len() && all[k] == i;
                    assert(before[k] == i);
                }
            }
        }
    }
}

}
