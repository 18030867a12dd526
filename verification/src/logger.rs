//! The log of the application: the lines it writes, and how untrusted text
//! is cleaned before it is written.
//!
//! The log lives in `~/.local/share/ani-tui/logs/ani-tui-YYYY-MM-DD.log`;
//! finding that directory, reading the clock and appending to the file are
//! done by the caller, which writes each `LogWrite` that a `Logger` method
//! returns. Levels: INFO, WARN, ERROR, CMD (external commands), NET (HTTP
//! requests), SEC (security events).

use vstd::prelude::*;

use crate::text::{
    byte_cut, byte_prefix, chars_of, contains, decimal, fit_count_exec, is_byte_boundary, lemma_byte_cut,
    push_char, push_decimal_padded, push_str, starts_with, str_byte_len, str_byte_prefix, str_contains,
    str_starts_with, string_of, to_string, utf8_len, zero_pad,
};

verus! {

// ————————————————————————————————————————————————
// Cleaning text for the log
// ————————————————————————————————————————————————

/// A control character: general category `Cc`, the code points
/// U+0000–U+001F and U+007F–U+009F (what `char::is_control` tests).
pub open spec fn is_control(c: char) -> bool {
    (c as u32) <= 0x1F || (0x7F <= (c as u32) && (c as u32) <= 0x9F)
}

/// `s` without its control characters, tabs excepted.
pub open spec fn without_controls(s: Seq<char>) -> Seq<char>
    decreases s.len(),
{
    if s.len() == 0 {
        Seq::empty()
    } else {
        without_controls(s.drop_last()) + if !is_control(s.last()) || s.last() == '\t' {
            seq![s.last()]
        } else {
            Seq::empty()
        }
    }
}

/// What `sanitize_for_log` writes for `s`.
pub open spec fn sanitized(s: Seq<char>, max_len: nat) -> Seq<char> {
    let clean = without_controls(s);
    if utf8_len(clean) > max_len {
        byte_cut(clean, max_len) + "...[truncado]"@
    } else {
        clean
    }
}

fn without_controls_exec(s: &str) -> (r: String)
    ensures
        r@ == without_controls(s@),
{
    let v = chars_of(s);
    let mut r = String::new();
    let mut k: usize = 0;
    while k < v.len()
        invariant
            k <= v.len(),
            v@ == s@,
            r@ == without_controls(v@.subrange(0, k as int)),
        decreases v.len() - k,
    {
        let c = v[k];
        let code = c as u32;
        let control = code <= 0x1F || (0x7F <= code && code <= 0x9F);
        let ghost before = r@;
        if !control || c == '\t' {
            push_char(&mut r, c);
        }
        proof {
            assert(v@.subrange(0, k + 1).drop_last() =~= v@.subrange(0, k as int));
            assert(r@ =~= without_controls(v@.subrange(0, k + 1)));
        }
        k += 1;
    }
    assert(v@.subrange(0, v@.len() as int) =~= v@);
    r
}

/// Cleans text for the log: drops control characters (tabs excepted), so
/// that a message cannot forge lines, and cuts it at the last character
/// boundary at or before `max_len` bytes, marking the cut with
/// `...[truncado]`.
pub fn sanitize_for_log(s: &str, max_len: usize) -> (r: String)
    ensures
        r@ == sanitized(s@, max_len as nat),
{
    let clean = without_controls_exec(s);
    if str_byte_len(clean.as_str()) > max_len {
        let v = chars_of(clean.as_str());
        let k = fit_count_exec(&v, max_len);
        proof {
            lemma_byte_cut(v@, max_len as nat);
        }
        let mut r = string_of(&v, 0, k);
        push_str(&mut r, "...[truncado]");
        assert(r@ =~= sanitized(s@, max_len as nat));
        r
    } else {
        clean
    }
}

/// The domains whose URLs may carry access tokens, in the order they are checked.
pub open spec fn sensitive_domains() -> Seq<Seq<char>> {
    seq!["mega.nz"@, "pixeldrain.com"@, "1fichier.com"@]
}

/// The first sensitive domain that `url` holds.
pub open spec fn first_sensitive(url: Seq<char>) -> Option<int> {
    crate::text::first_where(|k: int| 0 <= k < 3 && contains(url, sensitive_domains()[k]), 0, 3)
}

/// What `sanitize_url_for_log` writes for `url`: for a URL of a sensitive
/// domain, only its scheme and that domain; otherwise the URL cleaned and
/// cut at 150 bytes.
pub open spec fn sanitized_url(url: Seq<char>) -> Seq<char> {
    match first_sensitive(url) {
        Some(k) => (if starts_with(url, "https"@) {
            "https"@
        } else {
            "http"@
        }) + "://"@ + sensitive_domains()[k] + "[...redactado por seguridad]"@,
        None => sanitized(url, 150),
    }
}

/// Cleans a URL for the log (see `sanitized_url`).
pub fn sanitize_url_for_log(url: &str) -> (r: String)
    ensures
        r@ == sanitized_url(url@),
{
    let domains: [&str; 3] = ["mega.nz", "pixeldrain.com", "1fichier.com"];
    let ghost p = |k: int| 0 <= k < 3 && contains(url@, sensitive_domains()[k]);
    let mut k: usize = 0;
    while k < 3
        invariant
            k <= 3,
            p == (|k: int| 0 <= k < 3 && contains(url@, sensitive_domains()[k])),
            forall|i: int| 0 <= i < 3 ==> (#[trigger] domains@[i])@ == sensitive_domains()[i],
            forall|i: int| 0 <= i < k ==> !#[trigger] p(i),
        decreases 3 - k,
    {
        let domain = domains[k];
        if str_contains(url, domain) {
            proof {
                crate::text::lemma_first_where_is(p, 0, 3, k as int);
            }
            let mut r = if str_starts_with(url, "https") {
                to_string("https")
            } else {
                to_string("http")
            };
            push_str(&mut r, "://");
            push_str(&mut r, domain);
            push_str(&mut r, "[...redactado por seguridad]");
            return r;
        }
        k += 1;
    }
    proof {
        crate::text::lemma_first_where_none(p, 0, 3);
    }
    sanitize_for_log(url, 150)
}

// ————————————————————————————————————————————————
// Time stamps
// ————————————————————————————————————————————————

/// The time stamp `YYYY-MM-DD hh:mm:ss` for `secs` seconds after the Unix
/// epoch, with the calendar simplified to 365-day years and 30-day months
/// (the month capped at 12).
pub open spec fn timestamp_of(secs: nat) -> Seq<char> {
    let s = secs % 60;
    let m = (secs / 60) % 60;
    let h = (secs / 3600) % 24;
    let days = secs / 86400;
    let year = 1970 + days / 365;
    let doy = days % 365;
    let month = if doy / 30 + 1 > 12 { 12 } else { doy / 30 + 1 };
    let day = doy % 30 + 1;
    zero_pad(decimal(year), 4) + "-"@ + zero_pad(decimal(month), 2) + "-"@ + zero_pad(decimal(day), 2) + " "@
        + zero_pad(decimal(h), 2) + ":"@ + zero_pad(decimal(m), 2) + ":"@ + zero_pad(decimal(s), 2)
}

/// The time stamp of the log for a time given in seconds since the Unix
/// epoch (the caller reads the clock; 0 when the clock is before the epoch).
pub fn chrono_now(secs: u64) -> (r: String)
    ensures
        r@ == timestamp_of(secs as nat),
{
    let s = secs % 60;
    let m = (secs / 60) % 60;
    let h = (secs / 3600) % 24;
    let days = secs / 86400;
    let year = 1970 + days / 365;
    let doy = days % 365;
    let month = if doy / 30 + 1 > 12 { 12 } else { doy / 30 + 1 };
    let day = doy % 30 + 1;
    let mut r = String::new();
    push_decimal_padded(&mut r, year, 4);
    push_str(&mut r, "-");
    push_decimal_padded(&mut r, month, 2);
    push_str(&mut r, "-");
    push_decimal_padded(&mut r, day, 2);
    push_str(&mut r, " ");
    push_decimal_padded(&mut r, h, 2);
    push_str(&mut r, ":");
    push_decimal_padded(&mut r, m, 2);
    push_str(&mut r, ":");
    push_decimal_padded(&mut r, s, 2);
    r
}

// ————————————————————————————————————————————————
// The logger
// ————————————————————————————————————————————————

/// Text to append, followed by a newline, to the log file at `path`.
#[derive(Debug, Clone)]
pub struct LogWrite {
    pub path: String,
    pub text: String,
}

/// Something to record in the log, as the library's operations report it;
/// the caller writes it with `Logger::event`.
#[derive(Debug, Clone)]
pub enum LogEvent {
    /// An INFO line
    Info { module: String, message: String },
    /// A WARN line
    Warn { module: String, message: String },
    /// An ERROR line
    Error { module: String, message: String },
    /// A SEC line
    Security { module: String, message: String },
    /// A NET line for an HTTP request
    Net { method: String, url: String, status: String },
}

/// `LogEvent` with its texts as characters.
pub enum LogEventView {
    Info { module: Seq<char>, message: Seq<char> },
    Warn { module: Seq<char>, message: Seq<char> },
    Error { module: Seq<char>, message: Seq<char> },
    Security { module: Seq<char>, message: Seq<char> },
    Net { method: Seq<char>, url: Seq<char>, status: Seq<char> },
}

impl View for LogEvent {
    type V = LogEventView;

    open spec fn view(&self) -> LogEventView {
        match self {
            LogEvent::Info { module, message } => LogEventView::Info { module: module@, message: message@ },
            LogEvent::Warn { module, message } => LogEventView::Warn { module: module@, message: message@ },
            LogEvent::Error { module, message } => LogEventView::Error { module: module@, message: message@ },
            LogEvent::Security { module, message } => LogEventView::Security {
                module: module@,
                message: message@,
            },
            LogEvent::Net { method, url, status } => LogEventView::Net {
                method: method@,
                url: url@,
                status: status@,
            },
        }
    }
}

/// The line of the log for an event (see the methods of `Logger`).
pub open spec fn event_line(e: LogEventView, timestamp: Seq<char>) -> Seq<char> {
    match e {
        LogEventView::Info { module, message } => log_line(timestamp, "INFO "@, module, message),
        LogEventView::Warn { module, message } => log_line(timestamp, "WARN "@, module, message),
        LogEventView::Error { module, message } => log_line(timestamp, "ERROR"@, module, message),
        LogEventView::Security { module, message } => log_line(timestamp, "SEC  "@, module, message),
        LogEventView::Net { method, url, status } => log_line(
            timestamp,
            "NET  "@,
            "HTTP"@,
            method + " "@ + sanitized_url(url) + " → "@ + status,
        ),
    }
}

/// The log of a session: the file it writes to (none for a logger that
/// writes nothing) and the session id.
#[derive(Debug)]
pub struct Logger {
    log_path: Option<String>,
    session_id: String,
}

/// The line of the log for one message: `[{timestamp}] {level} [{module}] {message}`,
/// the level padded with spaces to five characters, without its control
/// characters (tabs excepted), so that whatever the parts hold it stays
/// one line of the log.
pub open spec fn log_line(timestamp: Seq<char>, level: Seq<char>, module: Seq<char>, message: Seq<char>) -> Seq<char> {
    without_controls(raw_log_line(timestamp, level, module, message))
}

/// The parts of a log line put together, before cleaning.
pub open spec fn raw_log_line(timestamp: Seq<char>, level: Seq<char>, module: Seq<char>, message: Seq<char>) -> Seq<char> {
    "["@ + timestamp + "] "@ + pad_right(level, 5) + " ["@ + module + "] "@ + message
}

/// `t` padded on the right with spaces up to `width` characters (`{:5}`).
pub open spec fn pad_right(t: Seq<char>, width: nat) -> Seq<char> {
    if t.len() >= width {
        t
    } else {
        t + Seq::new((width - t.len()) as nat, |i: int| ' ')
    }
}

/// The name of the log file of the day of `now`: `ani-tui-{date}.log`,
/// the date being the first ten bytes of the time stamp.
pub open spec fn log_file_name_of(now: Seq<char>) -> Seq<char> {
    "ani-tui-"@ + byte_prefix(now, 10) + ".log"@
}

/// The session id of a session started at `now`: the time stamp with `:`
/// turned into `-` and the space into `T`.
pub open spec fn session_id_of(now: Seq<char>) -> Seq<char> {
    crate::text::replace_all(crate::text::replace_all(now, ":"@, "-"@), " "@, "T"@)
}

impl Logger {
    /// A logger that writes nothing, used when the log directory cannot be used.
    pub fn null() -> (r: Logger)
        ensures
            r.path_spec() is None,
            r.session_spec() == "null"@,
    {
        Logger { log_path: None, session_id: to_string("null") }
    }

    /// A logger that writes to `log_path`, for a session started at `now`.
    pub fn open(log_path: String, now: &str) -> (r: Logger)
        ensures
            r.path_spec() == Some(log_path@),
            r.session_spec() == session_id_of(now@),
    {
        let v = chars_of(now);
        proof {
            reveal_strlit(":");
            reveal_strlit(" ");
        }
        let a = crate::text::replace_all_exec(&v, &chars_of(":"), &chars_of("-"));
        let b = crate::text::replace_all_exec(&a, &chars_of(" "), &chars_of("T"));
        Logger { log_path: Some(log_path), session_id: crate::text::string_from(&b) }
    }

    /// The file this logger writes to.
    pub closed spec fn path_spec(&self) -> Option<Seq<char>> {
        match self.log_path {
            Some(p) => Some(p@),
            None => None,
        }
    }

    /// The session id.
    pub closed spec fn session_spec(&self) -> Seq<char> {
        self.session_id@
    }

    /// The session id.
    pub fn session_id(&self) -> (r: &str)
        ensures
            r@ == self.session_spec(),
    {
        self.session_id.as_str()
    }

    /// The file this logger writes to, if any.
    pub fn log_path(&self) -> (r: Option<&String>)
        ensures
            match self.path_spec() {
                Some(p) => r matches Some(x) && x@ == p,
                None => r is None,
            },
    {
        match &self.log_path {
            Some(p) => Some(p),
            None => None,
        }
    }

    /// `w` is the write of `text` to this logger's file (none when it writes nothing).
    pub open spec fn writes(&self, w: Option<LogWrite>, text: Seq<char>) -> bool {
        match self.path_spec() {
            Some(p) => w matches Some(x) && x.path@ == p && x.text@ == text,
            None => w is None,
        }
    }

    fn write_text(&self, text: String) -> (r: Option<LogWrite>)
        ensures
            self.writes(r, text@),
    {
        match &self.log_path {
            Some(p) => Some(LogWrite { path: p.clone(), text }),
            None => None,
        }
    }

    /// The line for a message of the given level (a five-character tag).
    fn log(&self, level: &str, module: &str, message: &str, timestamp: &str) -> (r: Option<LogWrite>)
        requires
            level@.len() == 5,
        ensures
            self.writes(r, log_line(timestamp@, level@, module@, message@)),
    {
        let mut line = to_string("[");
        push_str(&mut line, timestamp);
        push_str(&mut line, "] ");
        push_str(&mut line, level);
        push_str(&mut line, " [");
        push_str(&mut line, module);
        push_str(&mut line, "] ");
        push_str(&mut line, message);
        assert(line@ =~= raw_log_line(timestamp@, level@, module@, message@));
        self.write_text(without_controls_exec(line.as_str()))
    }

    /// An INFO line: normal operation.
    pub fn info(&self, module: &str, message: &str, timestamp: &str) -> (r: Option<LogWrite>)
        ensures
            self.writes(r, log_line(timestamp@, "INFO "@, module@, message@)),
    {
        proof { reveal_strlit("INFO "); }
        self.log("INFO ", module, message, timestamp)
    }

    /// A WARN line: unexpected but not fatal.
    pub fn warn(&self, module: &str, message: &str, timestamp: &str) -> (r: Option<LogWrite>)
        ensures
            self.writes(r, log_line(timestamp@, "WARN "@, module@, message@)),
    {
        proof { reveal_strlit("WARN "); }
        self.log("WARN ", module, message, timestamp)
    }

    /// An ERROR line: a failure the user notices.
    pub fn error(&self, module: &str, message: &str, timestamp: &str) -> (r: Option<LogWrite>)
        ensures
            self.writes(r, log_line(timestamp@, "ERROR"@, module@, message@)),
    {
        proof { reveal_strlit("ERROR"); }
        self.log("ERROR", module, message, timestamp)
    }

    /// A SEC line: a security event (failed validation, suspicious URL...).
    pub fn security(&self, module: &str, message: &str, timestamp: &str) -> (r: Option<LogWrite>)
        ensures
            self.writes(r, log_line(timestamp@, "SEC  "@, module@, message@)),
    {
        proof { reveal_strlit("SEC  "); }
        self.log("SEC  ", module, message, timestamp)
    }

    /// A CMD line for an external command: `$ {program} {args joined by
    /// spaces} → {result}`, the command cleaned and cut at 200 bytes.
    pub fn cmd(&self, program: &str, args: &[&str], result: &str, timestamp: &str) -> (r: Option<LogWrite>)
        ensures
            self.writes(
                r,
                log_line(
                    timestamp@,
                    "CMD  "@,
                    "EXEC"@,
                    "$ "@ + sanitized(command_line(program@, args@.map_values(|a: &str| a@)), 200) + " → "@
                        + result@,
                ),
            ),
    {
        let cmd_str = command_line_exec(program, args);
        let safe_cmd = sanitize_for_log(cmd_str.as_str(), 200);
        let mut message = to_string("$ ");
        push_str(&mut message, safe_cmd.as_str());
        push_str(&mut message, " → ");
        push_str(&mut message, result);
        proof { reveal_strlit("CMD  "); }
        self.log("CMD  ", "EXEC", message.as_str(), timestamp)
    }

    /// A NET line for an HTTP request: `{method} {url} → {status}`, the url
    /// cleaned (see `sanitized_url`).
    pub fn net(&self, method: &str, url: &str, status: &str, timestamp: &str) -> (r: Option<LogWrite>)
        ensures
            self.writes(
                r,
                log_line(timestamp@, "NET  "@, "HTTP"@, method@ + " "@ + sanitized_url(url@) + " → "@ + status@),
            ),
    {
        let safe_url = sanitize_url_for_log(url);
        let mut message = to_string(method);
        push_str(&mut message, " ");
        push_str(&mut message, safe_url.as_str());
        push_str(&mut message, " → ");
        push_str(&mut message, status);
        proof { reveal_strlit("NET  "); }
        self.log("NET  ", "HTTP", message.as_str(), timestamp)
    }

    /// The line for an event (see `event_line`).
    pub fn event(&self, e: &LogEvent, timestamp: &str) -> (r: Option<LogWrite>)
        ensures
            self.writes(r, event_line(e@, timestamp@)),
    {
        match e {
            LogEvent::Info { module, message } => self.info(module.as_str(), message.as_str(), timestamp),
            LogEvent::Warn { module, message } => self.warn(module.as_str(), message.as_str(), timestamp),
            LogEvent::Error { module, message } => self.error(module.as_str(), message.as_str(), timestamp),
            LogEvent::Security { module, message } => self.security(module.as_str(), message.as_str(), timestamp),
            LogEvent::Net { method, url, status } => self.net(method.as_str(), url.as_str(), status.as_str(), timestamp),
        }
    }

    /// The banner written when a session starts, with the first 19 bytes of
    /// the session id.
    pub fn session_header(&self) -> (r: Option<LogWrite>)
        requires
            utf8_len(self.session_spec()) >= 19,
            is_byte_boundary(self.session_spec(), 19),
        ensures
            self.writes(
                r,
                "\n╔══════════════════════════════════════╗\n║  ani-tui — Nueva sesión: "@ + byte_prefix(
                    self.session_spec(),
                    19,
                ) + "  ║\n╚══════════════════════════════════════╝\n"@,
            ),
    {
        let mut text = to_string("\n╔══════════════════════════════════════╗\n║  ani-tui — Nueva sesión: ");
        push_str(&mut text, str_byte_prefix(self.session_id.as_str(), 19));
        push_str(&mut text, "  ║\n╚══════════════════════════════════════╝\n");
        self.write_text(text)
    }
}

/// The command line of a program and its arguments: `{program} {args joined by spaces}`.
pub open spec fn command_line(program: Seq<char>, args: Seq<Seq<char>>) -> Seq<char> {
    program + " "@ + join_spaces(args)
}

/// The arguments joined by single spaces.
pub open spec fn join_spaces(args: Seq<Seq<char>>) -> Seq<char>
    decreases args.len(),
{
    if args.len() == 0 {
        Seq::empty()
    } else if args.len() == 1 {
        args[0]
    } else {
        join_spaces(args.drop_last()) + " "@ + args.last()
    }
}

fn command_line_exec(program: &str, args: &[&str]) -> (r: String)
    ensures
        r@ == command_line(program@, args@.map_values(|a: &str| a@)),
{
    let mut r = to_string(program);
    push_str(&mut r, " ");
    let ghost head = r@;
    let ghost views = args@.map_values(|a: &str| a@);
    let mut k: usize = 0;
    while k < args.len()
        invariant
            k <= args.len(),
            views == args@.map_values(|a: &str| a@),
            r@ == head + join_spaces(views.subrange(0, k as int)),
        decreases args.len() - k,
    {
        if k > 0 {
            push_str(&mut r, " ");
        }
        push_str(&mut r, args[k]);
        proof {
            assert(views.subrange(0, k + 1).drop_last() =~= views.subrange(0, k as int));
            assert(views[k as int] == args@[k as int]@);
            if k == 0 {
                assert(join_spaces(views.subrange(0, 1)) == views[0]);
            }
            assert(r@ =~= head + join_spaces(views.subrange(0, k + 1)));
        }
        k += 1;
    }
    assert(views.subrange(0, args@.len() as int) =~= views);
    r
}

/// The name of the log file of the day of `now` (see `log_file_name_of`).
pub fn log_file_name(now: &str) -> (r: String)
    requires
        utf8_len(now@) >= 10,
        is_byte_boundary(now@, 10),
    ensures
        r@ == log_file_name_of(now@),
{
    let mut r = to_string("ani-tui-");
    push_str(&mut r, str_byte_prefix(now, 10));
    push_str(&mut r, ".log");
    r
}

// ————————————————————————————————————————————————
// Laws
// ————————————————————————————————————————————————

proof fn lemma_without_controls_clean(s: Seq<char>)
    ensures
        forall|i: int|
            0 <= i < without_controls(s).len() ==> !is_control(#[trigger] without_controls(s)[i])
                || without_controls(s)[i] == '\t',
    decreases s.len(),
{
    if s.len() > 0 {
        let rest = without_controls(s.drop_last());
        lemma_without_controls_clean(s.drop_last());
        let tail: Seq<char> = if !is_control(s.last()) || s.last() == '\t' {
            seq![s.last()]
        } else {
            Seq::empty()
        };
        assert(without_controls(s) == rest + tail);
        assert forall|i: int| 0 <= i < without_controls(s).len() implies !is_control(
            #[trigger] without_controls(s)[i],
        ) || without_controls(s)[i] == '\t' by {
            if i < rest.len() {
                assert(without_controls(s)[i] == rest[i]);
            } else {
                assert(without_controls(s)[i] == tail[i - rest.len()]);
            }
        }
    }
}

/// What the cleaning writes holds no control character but tabs, so that a
/// message can neither start a new line in the log nor carry terminal
/// escapes; and it takes at most `max_len` bytes besides the cut marker.
pub proof fn law_sanitized_has_no_controls(s: Seq<char>, max_len: nat)
    ensures
        forall|i: int|
            0 <= i < sanitized(s, max_len).len() ==> !is_control(#[trigger] sanitized(s, max_len)[i])
                || sanitized(s, max_len)[i] == '\t',
        utf8_len(sanitized(s, max_len)) <= max_len + utf8_len("...[truncado]"@),
{
    let clean = without_controls(s);
    lemma_without_controls_clean(s);
    if utf8_len(clean) > max_len {
        let head = byte_cut(clean, max_len);
        let marker = "...[truncado]"@;
        crate::text::lemma_byte_cut(clean, max_len);
        reveal_strlit("...[truncado]");
        assert forall|i: int| 0 <= i < marker.len() implies !is_control(#[trigger] marker[i]) by {}
        let out = head + marker;
        assert forall|i: int| 0 <= i < out.len() implies !is_control(#[trigger] out[i]) || out[i] == '\t' by {
            if i < head.len() {
                assert(out[i] == clean[i]);
            } else {
                assert(out[i] == marker[i - head.len()]);
            }
        }
        crate::text::lemma_encode_concat(head, marker);
    }
}

/// Whatever a message, its module and its time stamp hold, a log line
/// holds no line break and no control character but tabs: a message cannot
/// forge a second line of the log.
pub proof fn law_log_line_is_one_line(timestamp: Seq<char>, level: Seq<char>, module: Seq<char>, message: Seq<char>)
    ensures
        forall|i: int|
            0 <= i < log_line(timestamp, level, module, message).len() ==> {
                let c = #[trigger] log_line(timestamp, level, module, message)[i];
                c != '\n' && c != '\r' && (!is_control(c) || c == '\t')
            },
{
    lemma_without_controls_clean(raw_log_line(timestamp, level, module, message));
}

/// A logger made by `Logger::null` writes nothing: whatever its methods
/// are asked to log, the write they return is none.
pub proof fn law_null_logger_writes_nothing(w: Option<LogWrite>, text: Seq<char>)
    ensures
        forall|l: Logger| #[trigger] l.path_spec() is None ==> (l.writes(w, text) <==> w is None),
{
}

} // verus!
