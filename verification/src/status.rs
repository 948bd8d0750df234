//! The closed set of tunnel statuses, classification of the external client's
//! diagnostic output, and the exit conditions of the client process.

use vstd::prelude::*;
use vstd::string::{StrSliceExecFns, StringExecFns};

use crate::text::{contains_seq, contains_str, matches_at};

verus! {

/// The set of statuses an ssh tunnel can have.
///
/// `Unknown`, `ConfigError` and `AppError` carry the diagnostic detail; all
/// other statuses carry none.
#[derive(Debug)]
pub enum SshStatus {
    /// The tunnel is ready to connect: it has either never connected, or it
    /// has disconnected cleanly.
    Ready,
    /// The tunnel is connecting.
    Connecting,
    /// The tunnel is connected.
    Connected,
    /// The server is unreachable.
    Unreachable,
    /// The server has denied access.
    Denied,
    /// The tunnel has dropped.
    Dropped,
    /// The tunnel is trying to reconnect.
    Reconnecting,
    /// An unclassified ssh error, with the diagnostic text preserved.
    Unknown(String),
    /// An error in the tunnel configuration.
    ConfigError(String),
    /// An internal failure of the application around the tunnel.
    AppError(String),
}

/// The mathematical model of an [`SshStatus`]: the same variants, with the
/// payload strings abstracted to character sequences.
pub enum StatusView {
    Ready,
    Connecting,
    Connected,
    Unreachable,
    Denied,
    Dropped,
    Reconnecting,
    Unknown(Seq<char>),
    ConfigError(Seq<char>),
    AppError(Seq<char>),
}

impl View for SshStatus {
    type V = StatusView;

    open spec fn view(&self) -> StatusView {
        match self {
            SshStatus::Ready => StatusView::Ready,
            SshStatus::Connecting => StatusView::Connecting,
            SshStatus::Connected => StatusView::Connected,
            SshStatus::Unreachable => StatusView::Unreachable,
            SshStatus::Denied => StatusView::Denied,
            SshStatus::Dropped => StatusView::Dropped,
            SshStatus::Reconnecting => StatusView::Reconnecting,
            SshStatus::Unknown(msg) => StatusView::Unknown(msg@),
            SshStatus::ConfigError(msg) => StatusView::ConfigError(msg@),
            SshStatus::AppError(msg) => StatusView::AppError(msg@),
        }
    }
}

impl Clone for SshStatus {
    fn clone(&self) -> (res: Self)
        ensures
            res@ == self@,
    {
        match self {
            SshStatus::Ready => SshStatus::Ready,
            SshStatus::Connecting => SshStatus::Connecting,
            SshStatus::Connected => SshStatus::Connected,
            SshStatus::Unreachable => SshStatus::Unreachable,
            SshStatus::Denied => SshStatus::Denied,
            SshStatus::Dropped => SshStatus::Dropped,
            SshStatus::Reconnecting => SshStatus::Reconnecting,
            SshStatus::Unknown(msg) => SshStatus::Unknown(msg.clone()),
            SshStatus::ConfigError(msg) => SshStatus::ConfigError(msg.clone()),
            SshStatus::AppError(msg) => SshStatus::AppError(msg.clone()),
        }
    }
}

/// The fixed server-timeout pattern matches: its two literal pieces occur
/// in order, with no newline between them.
pub open spec fn dropped_timeout_match(s: Seq<char>) -> bool {
    exists|i: int, j: int|
        {
            &&& matches_at(s, "Timeout, server "@, i)
            &&& matches_at(s, " not responding"@, j)
            &&& i + "Timeout, server "@.len() <= j
            &&& forall|k: int| i + "Timeout, server "@.len() <= k < j ==> s[k] != '\n'
        }
}

/// The stderr message means the established connection was lost: the
/// server-timeout pattern or a connection-reset phrase.
pub open spec fn is_dropped_msg(s: Seq<char>) -> bool {
    dropped_timeout_match(s) || contains_seq(s, "Connection reset"@)
}

/// The stderr message means the server could not be reached at all.
pub open spec fn is_unreachable_msg(s: Seq<char>) -> bool {
    ||| contains_seq(s, "timed out"@)
    ||| contains_seq(s, "Network is unreachable"@)
    ||| contains_seq(s, "Unknown error"@)
    ||| contains_seq(s, "Could not resolve hostname"@)
}

/// The stderr message means the server denied access.
pub open spec fn is_denied_msg(s: Seq<char>) -> bool {
    contains_seq(s, "Permission denied"@) || contains_seq(s, "Connection refused"@)
}

/// The stderr message means the local forwarding specification was invalid.
pub open spec fn is_config_error_msg(s: Seq<char>) -> bool {
    contains_seq(s, "Bad local forwarding specification"@)
}

/// Classification of a block of diagnostic text, first match wins: empty
/// text is `Ready`; then dropped, unreachable and denied phrases; then the
/// bad-forwarding message as `ConfigError`; anything else is `Unknown`, with
/// the text preserved exactly.
pub open spec fn spec_classify(s: Seq<char>) -> StatusView {
    if s.len() == 0 {
        StatusView::Ready
    } else if is_dropped_msg(s) {
        StatusView::Dropped
    } else if is_unreachable_msg(s) {
        StatusView::Unreachable
    } else if is_denied_msg(s) {
        StatusView::Denied
    } else if is_config_error_msg(s) {
        StatusView::ConfigError(s)
    } else {
        StatusView::Unknown(s)
    }
}

/// The well-formedness of a status: the error variants that carry a detail
/// string never carry an empty one.
pub open spec fn status_wf(v: StatusView) -> bool {
    match v {
        StatusView::ConfigError(msg) => msg.len() > 0,
        StatusView::AppError(msg) => msg.len() > 0,
        _ => true,
    }
}

/// Classification never produces an error variant with an empty detail:
/// empty text is `Ready`, so the payload-bearing results always carry the
/// text that triggered them.
pub proof fn lemma_classify_wf(s: Seq<char>)
    ensures
        status_wf(spec_classify(s)),
{
}

/// Relies on regex's `Regex::new` and `Regex::is_match`: the fixed pattern
/// `Timeout, server .* not responding` matches exactly when both literal
/// pieces occur in order with no newline between them.
#[verifier::external_body]
fn dropped_pattern_match(msg: &str) -> (found: bool)
    ensures
        found == dropped_timeout_match(msg@),
{
    match regex::Regex::new("Timeout, server .* not responding") {
        Ok(re) => re.is_match(msg),
        Err(_) => false,
    }
}

impl SshStatus {
    /// Parses the stderr text captured from the ssh process into the status
    /// it signifies.
    pub fn from_stderr(msg: &str) -> (status: Self)
        ensures
            status@ == spec_classify(msg@),
    {
        if msg.is_empty() {
            SshStatus::Ready
        } else if dropped_pattern_match(msg) || contains_str(msg, "Connection reset") {
            SshStatus::Dropped
        } else if contains_str(msg, "timed out") || contains_str(msg, "Network is unreachable")
            || contains_str(msg, "Unknown error") || contains_str(
            msg,
            "Could not resolve hostname",
        ) {
            SshStatus::Unreachable
        } else if contains_str(msg, "Permission denied") || contains_str(
            msg,
            "Connection refused",
        ) {
            SshStatus::Denied
        } else if contains_str(msg, "Bad local forwarding specification") {
            SshStatus::ConfigError(String::from_str(msg))
        } else {
            SshStatus::Unknown(String::from_str(msg))
        }
    }

    /// Converts the status to its "signal" string, the vocabulary crossing
    /// the external API boundary.
    pub fn to_signal(&self) -> (signal: String)
        ensures
            signal@ == spec_signal(self@),
    {
        match self {
            SshStatus::Ready => String::from_str("READY"),
            SshStatus::Connecting => String::from_str("CONNECTING"),
            SshStatus::Connected => String::from_str("CONNECTED"),
            SshStatus::Unreachable => String::from_str("UNREACHABLE"),
            SshStatus::Denied => String::from_str("DENIED"),
            SshStatus::Dropped => String::from_str("DROPPED"),
            SshStatus::Reconnecting => String::from_str("RETRYING"),
            SshStatus::Unknown(msg) => {
                let mut signal = String::from_str("UNKNOWN: ");
                signal.append(msg.as_str());
                signal
            },
            SshStatus::ConfigError(msg) => {
                let mut signal = String::from_str("BAD_CONFIG: ");
                signal.append(msg.as_str());
                signal
            },
            SshStatus::AppError(msg) => {
                let mut signal = String::from_str("ERROR: ");
                signal.append(msg.as_str());
                signal
            },
        }
    }

    /// Decides whether two statuses are the same, by variant and, for the
    /// payload-bearing variants, by the payload text.
    pub fn same(&self, other: &Self) -> (eq: bool)
        ensures
            eq == (self@ == other@),
    {
        match self {
            SshStatus::Ready => match other {
                SshStatus::Ready => true,
                _ => false,
            },
            SshStatus::Connecting => match other {
                SshStatus::Connecting => true,
                _ => false,
            },
            SshStatus::Connected => match other {
                SshStatus::Connected => true,
                _ => false,
            },
            SshStatus::Unreachable => match other {
                SshStatus::Unreachable => true,
                _ => false,
            },
            SshStatus::Denied => match other {
                SshStatus::Denied => true,
                _ => false,
            },
            SshStatus::Dropped => match other {
                SshStatus::Dropped => true,
                _ => false,
            },
            SshStatus::Reconnecting => match other {
                SshStatus::Reconnecting => true,
                _ => false,
            },
            SshStatus::Unknown(x) => match other {
                SshStatus::Unknown(y) => *x == *y,
                _ => false,
            },
            SshStatus::ConfigError(x) => match other {
                SshStatus::ConfigError(y) => *x == *y,
                _ => false,
            },
            SshStatus::AppError(x) => match other {
                SshStatus::AppError(y) => *x == *y,
                _ => false,
            },
        }
    }
}

/// The signal string for each status.
pub open spec fn spec_signal(v: StatusView) -> Seq<char> {
    match v {
        StatusView::Ready => "READY"@,
        StatusView::Connecting => "CONNECTING"@,
        StatusView::Connected => "CONNECTED"@,
        StatusView::Unreachable => "UNREACHABLE"@,
        StatusView::Denied => "DENIED"@,
        StatusView::Dropped => "DROPPED"@,
        StatusView::Reconnecting => "RETRYING"@,
        StatusView::Unknown(msg) => "UNKNOWN: "@ + msg,
        StatusView::ConfigError(msg) => "BAD_CONFIG: "@ + msg,
        StatusView::AppError(msg) => "ERROR: "@ + msg,
    }
}

/// The position of the first newline in `s`, or `s.len()` when there is
/// none.
pub open spec fn first_newline(s: Seq<char>) -> int
    decreases s.len(),
{
    if s.len() == 0 {
        0
    } else if s[0] == '\n' {
        0
    } else {
        1 + first_newline(s.drop_first())
    }
}

proof fn lemma_first_newline_bounds(s: Seq<char>)
    ensures
        0 <= first_newline(s) <= s.len(),
    decreases s.len(),
{
    if s.len() > 0 && s[0] != '\n' {
        lemma_first_newline_bounds(s.drop_first());
    }
}

/// A position before which no newline stands, and which holds one or is the
/// end, is the first newline.
proof fn lemma_first_newline_at(s: Seq<char>, j: int)
    requires
        0 <= j <= s.len(),
        forall|k: int| 0 <= k < j ==> s[k] != '\n',
        j < s.len() ==> s[j] == '\n',
    ensures
        first_newline(s) == j,
    decreases j,
{
    if s.len() == 0 {
    } else if j == 0 {
    } else {
        assert(s[0] != '\n');
        let rest = s.drop_first();
        assert(forall|k: int| 0 <= k < j - 1 ==> rest[k] == s[k + 1] && rest[k] != '\n');
        assert(j - 1 < rest.len() ==> rest[j - 1] == '\n');
        lemma_first_newline_at(rest, j - 1);
    }
}

/// The marker of the benign host-key warning lines that are filtered out of
/// diagnostic text before classification.
pub open spec fn warning_marker() -> Seq<char> {
    "Warning: Permanently added"@
}

/// What of one diagnostic line survives filtering: the line itself unless
/// it is empty or carries the benign host-key warning.
pub open spec fn keep_line(l: Seq<char>) -> Seq<char> {
    if l.len() > 0 && !contains_seq(l, warning_marker()) {
        l
    } else {
        Seq::<char>::empty()
    }
}

/// The diagnostic text split at newlines, each line filtered by
/// [`keep_line`], and the survivors joined back together.
pub open spec fn filter_warnings(s: Seq<char>) -> Seq<char>
    decreases s.len(),
    via filter_warnings_decreases
{
    if s.len() == 0 {
        Seq::<char>::empty()
    } else {
        let n = first_newline(s);
        if n == s.len() {
            keep_line(s)
        } else {
            keep_line(s.subrange(0, n)) + filter_warnings(s.subrange(n + 1, s.len() as int))
        }
    }
}

#[via_fn]
proof fn filter_warnings_decreases(s: Seq<char>) {
    lemma_first_newline_bounds(s);
}

/// Writes the filtered form of the diagnostic text from position `i` on to
/// the end of `out`.
fn filter_into(s: &str, i: usize, out: &mut String)
    requires
        i <= s@.len(),
    ensures
        final(out)@ == old(out)@ + filter_warnings(s@.subrange(i as int, s@.len() as int)),
    decreases s@.len() - i,
{
    let len: usize = s.unicode_len();
    let ghost rest = s@.subrange(i as int, s@.len() as int);
    if i == len {
        proof {
            assert(rest =~= Seq::<char>::empty());
            assert(out@ + filter_warnings(rest) =~= out@);
        }
        return;
    }
    let mut j: usize = i;
    while j < len && s.get_char(j) != '\n'
        invariant
            i <= j <= len,
            len == s@.len(),
            forall|k: int| i <= k < j ==> s@[k] != '\n',
        decreases len - j,
    {
        j += 1;
    }
    proof {
        assert(forall|k: int| 0 <= k < j - i ==> rest[k] == s@[i + k] && rest[k] != '\n');
        if j < len {
            assert(rest[j - i] == s@[j as int]);
        }
        lemma_first_newline_at(rest, j - i);
    }
    let line = s.substring_char(i, j);
    proof {
        assert(line@ =~= rest.subrange(0, j - i));
    }
    if j > i && !contains_str(line, "Warning: Permanently added") {
        out.append(line);
        proof {
            assert(keep_line(line@) == line@);
        }
    } else {
        proof {
            assert(keep_line(line@) =~= Seq::<char>::empty());
            assert(out@ + keep_line(line@) =~= out@);
        }
    }
    assert(out@ == old(out)@ + keep_line(line@));
    if j < len {
        filter_into(s, j + 1, out);
        proof {
            let tail = s@.subrange(j + 1, s@.len() as int);
            assert(rest.subrange(j - i + 1, rest.len() as int) =~= tail);
            assert(filter_warnings(rest) == keep_line(rest.subrange(0, j - i)) + filter_warnings(
                tail,
            ));
            assert(old(out)@ + filter_warnings(rest) =~= (old(out)@ + keep_line(line@))
                + filter_warnings(tail));
        }
    } else {
        proof {
            assert(rest.subrange(0, j - i) =~= rest);
            assert(filter_warnings(rest) == keep_line(rest));
        }
    }
}

/// Filters a block of diagnostic text: the benign host-key warning lines
/// and empty lines are removed and the remaining lines joined.
pub fn filter_diagnostics(text: &str) -> (out: String)
    ensures
        out@ == filter_warnings(text@),
{
    let mut out = String::new();
    filter_into(text, 0, &mut out);
    proof {
        assert(text@.subrange(0, text@.len() as int) =~= text@);
    }
    out
}

/// Classifies a process's drained error stream: the benign host-key
/// warnings are filtered out, and what is left is classified as
/// [`SshStatus::from_stderr`] does.
pub fn exit_status_from_stderr(text: &str) -> (status: SshStatus)
    ensures
        status@ == spec_classify(filter_warnings(text@)),
{
    let filtered = filter_diagnostics(text);
    SshStatus::from_stderr(filtered.as_str())
}

/// The set of exit conditions of the tunnel process, each standing for the
/// numeric exit value the supervisor reports from a command-line entry
/// point.
#[derive(Clone, Copy, Debug, PartialEq, Eq, Structural)]
pub enum ExitCondition {
    /// The process exited cleanly.
    Clean,
    /// An error occurred while handling the tunnel's child process, or the
    /// exit code was not recognized.
    ProcError,
    /// The code the ssh client returns when it encounters any error.
    SshError,
    /// No exit code was returned, most likely because the process was
    /// killed.
    Canceled,
}

/// The exit condition for what the operating system reported: `None` (no
/// exit code, the process was terminated by a signal) is `Canceled`; the
/// known codes map to their conditions; any other code counts as a process
/// error.
pub open spec fn spec_exit_condition(code: Option<i32>) -> ExitCondition {
    match code {
        Option::None => ExitCondition::Canceled,
        Option::Some(c) => if c == 0 {
            ExitCondition::Clean
        } else if c == 1 {
            ExitCondition::ProcError
        } else if c == 255 {
            ExitCondition::SshError
        } else {
            ExitCondition::ProcError
        },
    }
}

/// The numeric exit value reported for each condition.
pub open spec fn spec_exit_code(cond: ExitCondition) -> i32 {
    match cond {
        ExitCondition::Clean => 0,
        ExitCondition::ProcError => 1,
        ExitCondition::SshError => 255,
        ExitCondition::Canceled => -1i32,
    }
}

impl ExitCondition {
    /// Maps what the operating system reported at process exit to a
    /// condition.
    pub fn from_exit_code(code: Option<i32>) -> (cond: Self)
        ensures
            cond == spec_exit_condition(code),
    {
        match code {
            Option::None => ExitCondition::Canceled,
            Option::Some(c) => {
                if c == 0 {
                    ExitCondition::Clean
                } else if c == 1 {
                    ExitCondition::ProcError
                } else if c == 255 {
                    ExitCondition::SshError
                } else {
                    ExitCondition::ProcError
                }
            },
        }
    }

    /// The numeric exit value this condition stands for.
    pub fn code(&self) -> (c: i32)
        ensures
            c == spec_exit_code(*self),
    {
        match self {
            ExitCondition::Clean => 0,
            ExitCondition::ProcError => 1,
            ExitCondition::SshError => 255,
            ExitCondition::Canceled => -1,
        }
    }
}

} // verus!
