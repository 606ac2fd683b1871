//! The decisions of the dev-server supervisor: which executable to start,
//! with which arguments, and what each line of the server's output means.

use crate::proxy_vite_options::{
    store_after_update, LogLevel, OptionsStore, OptionsView, ProxyViteOptions,
};
use crate::text::{
    after_last, after_last_of_joined, contains, contains_text, decimal, decimal_is_a_digit_string,
    is_digit, option_text, parse_decimal_u16, parse_u16, push_decimal, result_text, text_after_last,
    trim, trimmed, written_number_is_read_back,
};
use vstd::prelude::*;
use vstd::string::StringExecFns;

verus! {

/// The regular expression that finds the address in a readiness line.
pub const URL_PATTERN: &'static str = "(?P<url>http://localhost:\\d+).*";

/// The capture group of [`URL_PATTERN`] that holds the address.
pub const URL_GROUP: &'static str = "url";

/// The word that marks the line on which the dev server names its address.
pub const LOCAL_MARKER: &'static str = "Local";

/// The start of every address that the dev server announces.
pub const LOCALHOST_PREFIX: &'static str = "http://localhost:";

/// `text` with its ANSI escape sequences removed, as the crate
/// `strip-ansi-escapes` removes them.
pub uninterp spec fn ansi_stripped(text: Seq<char>) -> Seq<char>;

/// The text that the capture group named `group` matched in the first match
/// of the regular expression `pattern` in `text`, as the crate `regex` finds
/// it. `None` where the pattern does not compile, where it matches
/// nowhere, and where no group of that name took part in the match.
pub uninterp spec fn capture_of(pattern: Seq<char>, group: Seq<char>, text: Seq<char>) -> Option<
    Seq<char>,
>;

/// Calls `strip_ansi_escapes::strip_str`, which removes the ANSI escape
/// sequences from a string. The contract only gives the result a name: what
/// is removed is decided by that crate's parser and not restated here.
#[verifier::external_body]
fn strip_ansi(text: &str) -> (plain: String)
    ensures
        plain@ == ansi_stripped(text@),
{
    strip_ansi_escapes::strip_str(text)
}

/// Compiles `pattern` with `regex::Regex::new`, searches `text` with
/// `Regex::captures` and reads the group `group` with `Captures::name`. The
/// contract only gives the result a name; a pattern that does not compile
/// and a search without a match both give `None`.
#[verifier::external_body]
fn capture_group(pattern: &str, group: &str, text: &str) -> (found: Option<String>)
    ensures
        option_text(found) == capture_of(pattern@, group@, text@),
{
    let compiled = regex::Regex::new(pattern).ok()?;
    let captures = compiled.captures(text)?;
    let matched = captures.name(group)?;
    Some(matched.as_str().to_string())
}

/// Why the dev server could not be started.
#[derive(Clone, Copy, Debug, PartialEq, Eq, Structural)]
pub enum StartError {
    /// The search of `PATH` named no executable.
    NotFound,
    /// The operating system could not create the process.
    SpawnFailure,
    /// The process runs, but its standard output could not be attached.
    StdoutCaptureFailure,
}

/// What to run to start the dev server.
#[derive(Clone, Debug, PartialEq, Eq)]
pub struct LaunchPlan {
    /// The path of the executable.
    pub program: String,
    /// The arguments handed to it, in order.
    pub arguments: Vec<String>,
    /// The directory in which it is started.
    pub working_directory: String,
}

/// The mathematical value of a [`LaunchPlan`].
pub struct LaunchPlanView {
    pub program: Seq<char>,
    pub arguments: Seq<Seq<char>>,
    pub working_directory: Seq<char>,
}

impl View for LaunchPlan {
    type V = LaunchPlanView;

    open spec fn view(&self) -> LaunchPlanView {
        LaunchPlanView {
            program: self.program@,
            arguments: Seq::new(self.arguments@.len(), |i: int| self.arguments@[i]@),
            working_directory: self.working_directory@,
        }
    }
}

/// The executable that the output of a `PATH` search names: the last line of
/// the output, with the white space round the output and round that line
/// left out. Output that holds nothing but white space names none.
pub open spec fn located_executable(output: Seq<char>) -> Result<Seq<char>, StartError> {
    let listing = trimmed(output);
    if listing.len() == 0 {
        Err(StartError::NotFound)
    } else {
        Ok(trimmed(after_last(listing, '\n')))
    }
}

/// The arguments for the dev server: `--port` and the port in base ten where
/// a port is wanted, nothing otherwise.
pub open spec fn launch_arguments(port: Option<u16>) -> Seq<Seq<char>> {
    match port {
        Some(port) => seq!["--port"@, decimal(port as nat)],
        None => Seq::empty(),
    }
}

/// The plan that `launch_plan` makes from the output of the `PATH` search and
/// the options, or the error that it returns.
pub open spec fn planned_launch(output: Seq<char>, options: OptionsView) -> Result<
    LaunchPlanView,
    StartError,
> {
    match located_executable(output) {
        Ok(program) => Ok(
            LaunchPlanView {
                program,
                arguments: launch_arguments(options.port),
                working_directory: options.working_directory,
            },
        ),
        Err(error) => Err(error),
    }
}

/// The value of a plan that may stand in place of an error.
pub open spec fn plan_view(plan: Result<LaunchPlan, StartError>) -> Result<
    LaunchPlanView,
    StartError,
> {
    match plan {
        Ok(plan) => Ok(plan@),
        Err(error) => Err(error),
    }
}

/// The short description of a start error.
pub open spec fn start_error_text(error: StartError) -> Seq<char> {
    match error {
        StartError::NotFound => "vite not found"@,
        StartError::SpawnFailure => "Failed to spawn the Vite process"@,
        StartError::StdoutCaptureFailure => "Failed to capture Vite process stdout"@,
    }
}

/// Whether a line, already free of escape sequences, is one on which the dev
/// server names its local address.
pub open spec fn is_readiness_text(plain: Seq<char>) -> bool {
    contains(plain, LOCAL_MARKER@) && contains(plain, LOCALHOST_PREFIX@)
}

/// The port that an address ends in: what follows its last colon, read as a
/// 16-bit number.
pub open spec fn url_port(url: Seq<char>) -> Option<u16> {
    parse_u16(after_last(url, ':'))
}

/// The port that a line announces once it is free of escape sequences and
/// of the white space round it: the port of the first local address in a
/// readiness line, and none in every other line.
pub open spec fn plain_text_port(plain: Seq<char>) -> Option<u16> {
    if is_readiness_text(plain) {
        match capture_of(URL_PATTERN@, URL_GROUP@, plain) {
            Some(url) => url_port(url),
            None => None,
        }
    } else {
        None
    }
}

/// The port that a line of the dev server's output announces, if it
/// announces one.
pub open spec fn announced_port(line: Seq<char>) -> Option<u16> {
    plain_text_port(ansi_stripped(trimmed(line)))
}

/// Picks the executable out of the output of a `PATH` search. Where the
/// search printed several paths, one to a line, the last one is taken.
pub fn select_executable(output: &str) -> (found: Result<String, StartError>)
    ensures
        result_text(found) == located_executable(output@),
{
    let listing = trim(output);
    if listing.is_empty() {
        return Err(StartError::NotFound);
    }
    let last_line = trim(text_after_last(listing, '\n'));
    Ok(String::from_str(last_line))
}

/// The arguments that make the dev server listen on `port`.
pub fn port_arguments(port: Option<u16>) -> (arguments: Vec<String>)
    ensures
        Seq::new(arguments@.len(), |i: int| arguments@[i]@) == launch_arguments(port),
{
    let mut arguments: Vec<String> = Vec::new();
    match port {
        Some(port) => {
            arguments.push(String::from_str("--port"));
            let mut number = String::new();
            push_decimal(&mut number, port);
            assert(number@ == decimal(port as nat));
            arguments.push(number);
            assert(Seq::new(arguments@.len(), |i: int| arguments@[i]@) =~= launch_arguments(
                Some(port),
            ));
        },
        None => {
            assert(Seq::new(arguments@.len(), |i: int| arguments@[i]@) =~= launch_arguments(
                None,
            ));
        },
    }
    arguments
}

/// Decides what to run from the output of the `PATH` search and the
/// committed options. No plan is made where no executable was found.
pub fn launch_plan(output: &str, options: &ProxyViteOptions) -> (plan: Result<
    LaunchPlan,
    StartError,
>)
    ensures
        plan_view(plan) == planned_launch(output@, options@),
{
    match select_executable(output) {
        Ok(program) => Ok(
            LaunchPlan {
                program,
                arguments: port_arguments(options.port),
                working_directory: options.working_directory.clone(),
            },
        ),
        Err(error) => Err(error),
    }
}

/// Whether a line, already free of escape sequences, is one on which the dev
/// server names its local address.
pub fn is_readiness_line(plain: &str) -> (b: bool)
    ensures
        b == is_readiness_text(plain@),
{
    contains_text(plain, LOCAL_MARKER) && contains_text(plain, LOCALHOST_PREFIX)
}

/// Reads the port at the end of an address such as `http://localhost:5173`.
pub fn port_from_url(url: &str) -> (port: Option<u16>)
    ensures
        port == url_port(url@),
{
    parse_decimal_u16(text_after_last(url, ':'))
}

/// Looks for the announcement of the dev server's address in a line that is
/// free of escape sequences. A line that is no readiness line, a readiness
/// line without an address that ends in digits, and an address whose port
/// does not fit in 16 bits all give `None`.
pub fn port_in_plain_text(plain: &str) -> (port: Option<u16>)
    ensures
        port == plain_text_port(plain@),
{
    if !is_readiness_line(plain) {
        return None;
    }
    match capture_group(URL_PATTERN, URL_GROUP, plain) {
        Some(url) => port_from_url(url.as_str()),
        None => None,
    }
}

/// Looks for the announcement of the dev server's address in one line of
/// its output. Colour codes and white space round the line do not matter.
pub fn inspect_line(line: &str) -> (port: Option<u16>)
    ensures
        port == announced_port(line@),
{
    let plain = strip_ansi(trim(line));
    port_in_plain_text(plain.as_str())
}

/// A line of the dev server's output, ready for the log.
#[derive(Clone, Debug, PartialEq, Eq)]
pub struct LogLine {
    /// The level at which the line is logged.
    pub level: LogLevel,
    /// The line, without the white space round it.
    pub text: String,
}

/// What one line of the dev server's output led to.
#[derive(Clone, Debug, PartialEq, Eq)]
pub struct LineReport {
    /// The port that the line announced, which was published to the store.
    pub port: Option<u16>,
    /// What to hand to the log; `None` where logging is switched off.
    pub log: Option<LogLine>,
}

/// What the store holds after a line of output was inspected: a port that
/// the line announced is published, and a line that announced none changes
/// nothing.
pub open spec fn store_after_announcement(
    store: Option<OptionsView>,
    announced: Option<u16>,
) -> Option<OptionsView> {
    match announced {
        Some(port) => store_after_update(store, port),
        None => store,
    }
}

/// Whether `log` is what a line is logged as at `level`: nothing where the
/// level is `None`, and the trimmed line at that level otherwise.
pub open spec fn is_log_of(log: Option<LogLine>, level: Option<LogLevel>, line: Seq<char>) -> bool {
    match level {
        Some(level) => log is Some && log->0.level == level && log->0.text@ == trimmed(line),
        None => log is None,
    }
}

/// Publishes to `store` what the inspection of one line gave.
pub fn record_announcement(store: &mut OptionsStore, announced: Option<u16>)
    ensures
        final(store)@ == store_after_announcement(old(store)@, announced),
{
    match announced {
        Some(port) => {
            let _ = ProxyViteOptions::update_port(store, port);
        },
        None => {},
    }
}

/// Handles one line of the dev server's output: a port that the line
/// announces is published to `store`, and the line is prepared for the log
/// at `log_level`, whether or not it announced a port.
pub fn supervise_line(store: &mut OptionsStore, log_level: Option<LogLevel>, line: &str) -> (report:
    LineReport)
    ensures
        report.port == announced_port(line@),
        final(store)@ == store_after_announcement(old(store)@, announced_port(line@)),
        is_log_of(report.log, log_level, line@),
{
    let port = inspect_line(line);
    record_announcement(store, port);
    let log = match log_level {
        Some(level) => Some(LogLine { level, text: String::from_str(trim(line)) }),
        None => None,
    };
    LineReport { port, log }
}

impl StartError {
    /// A short description of the error.
    pub fn message(&self) -> (text: String)
        ensures
            text@ == start_error_text(*self),
    {
        match self {
            StartError::NotFound => String::from_str("vite not found"),
            StartError::SpawnFailure => String::from_str("Failed to spawn the Vite process"),
            StartError::StdoutCaptureFailure => String::from_str(
                "Failed to capture Vite process stdout",
            ),
        }
    }
}

/// What the store holds after the lines of the output were inspected one
/// after the other; `announced` holds what each line announced.
pub open spec fn store_after_output(
    store: Option<OptionsView>,
    announced: Seq<Option<u16>>,
) -> Option<OptionsView>
    decreases announced.len(),
{
    if announced.len() == 0 {
        store
    } else {
        store_after_announcement(
            store_after_output(store, announced.drop_last()),
            announced.last(),
        )
    }
}

/// Where no executable is found, no launch is planned: the outcome is the
/// error `NotFound`, whatever the options are.
pub proof fn missing_executable_is_never_launched(output: Seq<char>, options: OptionsView)
    requires
        trimmed(output).len() == 0,
    ensures
        planned_launch(output, options) == Err::<LaunchPlanView, StartError>(StartError::NotFound),
{
}

/// The output of the dev server changes nothing in the store but the port:
/// an empty store stays empty, and committed options keep their working
/// directory and their log level.
pub proof fn output_changes_the_port_only(
    store: Option<OptionsView>,
    announced: Seq<Option<u16>>,
)
    ensures
        store is None ==> store_after_output(store, announced) is None,
        store is Some ==> ({
            let after = store_after_output(store, announced);
            &&& after is Some
            &&& after->0.working_directory == store->0.working_directory
            &&& after->0.log_level == store->0.log_level
        }),
    decreases announced.len(),
{
    if announced.len() > 0 {
        output_changes_the_port_only(store, announced.drop_last());
    }
}

/// Of several announcements the last one wins: once options are committed,
/// the port in the store after the output is the port of the last line that
/// announced one.
pub proof fn last_announcement_wins(
    store: Option<OptionsView>,
    announced: Seq<Option<u16>>,
    at: int,
)
    requires
        store is Some,
        0 <= at < announced.len(),
        announced[at] is Some,
        forall|later: int| at < later < announced.len() ==> announced[later] is None,
    ensures
        store_after_output(store, announced) == Some(
            OptionsView { port: announced[at], ..store->0 },
        ),
    decreases announced.len(),
{
    let before = announced.drop_last();
    output_changes_the_port_only(store, before);
    if at < announced.len() - 1 {
        assert(announced[announced.len() - 1] is None);
        last_announcement_wins(store, before, at);
    }
}

/// Output in which no line announces a port leaves the store as it is.
pub proof fn silent_output_changes_nothing(
    store: Option<OptionsView>,
    announced: Seq<Option<u16>>,
)
    requires
        forall|i: int| 0 <= i < announced.len() ==> announced[i] is None,
    ensures
        store_after_output(store, announced) == store,
    decreases announced.len(),
{
    if announced.len() > 0 {
        silent_output_changes_nothing(store, announced.drop_last());
    }
}

/// The address of a dev server on a port, as the forwarding handler writes
/// it, is an address from which that port is read.
pub proof fn address_names_its_port(port: u16)
    ensures
        url_port(LOCALHOST_PREFIX@ + decimal(port as nat)) == Some(port),
{
    reveal_strlit("http://localhost:");
    let digits = decimal(port as nat);
    decimal_is_a_digit_string(port as nat);
    assert forall|i: int| 0 <= i < digits.len() implies digits[i] != ':' by {
        assert(is_digit(digits[i]));
    }
    after_last_of_joined(LOCALHOST_PREFIX@, digits, ':');
    written_number_is_read_back(port);
}

} // verus!
