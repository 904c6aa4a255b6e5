//! Showing the progress of a scan.

use vstd::prelude::*;

use crate::options::Opts;
use crate::progress::ProgressSnapshot;
use crate::text::decimal;
use crate::text::push_decimal;

verus! {

/// How often per second the display is drawn at most.
pub const DRAWS_PER_SECOND: u8 = 10;

/// The pause between two updates of the display.
pub const UPDATE_MILLIS: u64 = 120;

/// Whether progress is shown: unless it is switched off, the output is for a
/// screen reader, or nobody watches a terminal.
pub fn should_show_progress(opts: &Opts, stderr_is_terminal: bool) -> (show: bool)
    ensures
        show == (!opts.disable_progress && !opts.accessible && stderr_is_terminal),
{
    !opts.disable_progress && !opts.accessible && stderr_is_terminal
}

/// How often a port counts as tried in the display: at least once.
pub fn displayed_tries(opts: &Opts) -> (tries: u8)
    ensures
        tries == if opts.tries == 0 {
            1
        } else {
            opts.tries
        },
{
    if opts.tries < 1 {
        1
    } else {
        opts.tries
    }
}

/// The text of a number that may be unknown.
pub open spec fn known_or(number: Option<u64>, otherwise: Seq<char>) -> Seq<char> {
    match number {
        Some(n) => decimal(n as nat),
        None => otherwise,
    }
}

/// The text beside the bar. `last_socket` is the notation of the socket that
/// was tried last, for which a dash stands where there is none.
pub open spec fn progress_text(
    snapshot: ProgressSnapshot,
    last_socket: Seq<char>,
    batch_size: nat,
    timeout_millis: nat,
    tries: nat,
) -> Seq<char> {
    "ips="@ + decimal(snapshot.resolved_ips as nat) + "/"@ + known_or(snapshot.total_ips, "?"@)
        + " ports="@ + decimal(snapshot.ports_total as nat) + " inflight="@ + decimal(
        snapshot.spec_inflight() as nat,
    ) + " open_sockets="@ + decimal(snapshot.open_sockets as nat) + " open_ips="@ + decimal(
        snapshot.open_ips as nat,
    ) + " cur="@ + (if snapshot.last_socket is Some {
        last_socket
    } else {
        "-"@
    }) + " batch="@ + decimal(batch_size) + " timeout="@ + decimal(timeout_millis) + "ms tries="@
        + decimal(tries)
}

/// The text beside the bar.
pub fn format_progress_message(
    snapshot: &ProgressSnapshot,
    last_socket: &str,
    batch_size: usize,
    timeout_millis: u128,
    tries: u8,
) -> (message: String)
    ensures
        message@ == progress_text(
            *snapshot,
            last_socket@,
            batch_size as nat,
            timeout_millis as nat,
            tries as nat,
        ),
{
    let mut message = "ips=".to_owned();
    push_decimal(&mut message, snapshot.resolved_ips as u128);
    message.append("/");
    match snapshot.total_ips {
        Some(total) => push_decimal(&mut message, total as u128),
        None => message.append("?"),
    }
    message.append(" ports=");
    push_decimal(&mut message, snapshot.ports_total as u128);
    message.append(" inflight=");
    push_decimal(&mut message, snapshot.inflight() as u128);
    message.append(" open_sockets=");
    push_decimal(&mut message, snapshot.open_sockets as u128);
    message.append(" open_ips=");
    push_decimal(&mut message, snapshot.open_ips as u128);
    message.append(" cur=");
    match snapshot.last_socket {
        Some(_) => message.append(last_socket),
        None => message.append("-"),
    }
    message.append(" batch=");
    push_decimal(&mut message, batch_size as u128);
    message.append(" timeout=");
    push_decimal(&mut message, timeout_millis);
    message.append("ms tries=");
    push_decimal(&mut message, tries as u128);
    message
}

/// The look of the display.
#[derive(Clone, Copy, Debug)]
pub enum BarLook {
    /// A spinner: there is no end to measure against.
    Spinner { template: &'static str },
    /// A bar up to `length`, drawn with `progress_chars`.
    Bar { length: u64, template: &'static str, progress_chars: &'static str },
}

/// The look of the display: a spinner for a streamed scan, and else a bar up to
/// the number of sockets, which is zero where it is not known.
pub fn bar_look(is_stream: bool, snapshot: &ProgressSnapshot) -> (look: BarLook)
    ensures
        match look {
            BarLook::Spinner { template } => is_stream && template@
                == "{spinner:.green} [{elapsed_precise}] {human_pos:>10} {per_sec} {wide_msg}"@,
            BarLook::Bar { length, template, progress_chars } => {
                &&& !is_stream
                &&& length == match snapshot.total_sockets {
                    Some(total) => total,
                    None => 0,
                }
                &&& template@
                    == "[{elapsed_precise}] {bar:40.cyan/blue} {human_pos:>10}/{human_len:10} {per_sec} eta {eta_precise} {wide_msg}"@
                &&& progress_chars@ == "=>-"@
            },
        },
{
    if is_stream {
        BarLook::Spinner {
            template: "{spinner:.green} [{elapsed_precise}] {human_pos:>10} {per_sec} {wide_msg}",
        }
    } else {
        let length: u64 = match snapshot.total_sockets {
            Some(total) => total,
            None => 0,
        };
        BarLook::Bar {
            length,
            template: "[{elapsed_precise}] {bar:40.cyan/blue} {human_pos:>10}/{human_len:10} {per_sec} eta {eta_precise} {wide_msg}",
            progress_chars: "=>-",
        }
    }
}

/// What to do with the display next.
#[derive(Debug)]
pub enum BarStep {
    /// Show this position and message, advance the spinner if `tick`, and
    /// pause.
    Update { position: u64, message: String, tick: bool },
    /// Leave the display as it is: the scan is over.
    Finish,
}

/// What to do with the display next, until it is told to stop.
pub fn bar_step(
    stopped: bool,
    is_stream: bool,
    snapshot: &ProgressSnapshot,
    last_socket: &str,
    batch_size: usize,
    timeout_millis: u128,
    tries: u8,
) -> (step: BarStep)
    ensures
        match step {
            BarStep::Update { position, message, tick } => {
                &&& !stopped
                &&& position == snapshot.completed_sockets
                &&& message@ == progress_text(
                    *snapshot,
                    last_socket@,
                    batch_size as nat,
                    timeout_millis as nat,
                    tries as nat,
                )
                &&& tick == is_stream
            },
            BarStep::Finish => stopped,
        },
{
    if stopped {
        BarStep::Finish
    } else {
        BarStep::Update {
            position: snapshot.completed_sockets,
            message: format_progress_message(
                snapshot,
                last_socket,
                batch_size,
                timeout_millis,
                tries,
            ),
            tick: is_stream,
        }
    }
}

/// The text beside the bar names each count of the snapshot and each setting
/// under its label, in decimal: the addresses that are resolved and, if known,
/// all of them, the ports, the sockets in flight, the open sockets and hosts, the
/// socket that was tried last, if there is one, and the settings.
pub proof fn lemma_message_names_counts(
    snapshot: ProgressSnapshot,
    last_socket: &str,
    batch_size: usize,
    timeout_millis: u128,
    tries: u8,
    inflight: u64,
    message: String,
)
    requires
        call_ensures(
            format_progress_message,
            (&snapshot, last_socket, batch_size, timeout_millis, tries),
            message,
        ),
        call_ensures(ProgressSnapshot::inflight, (&snapshot,), inflight),
    ensures
        message@ == "ips="@ + decimal(snapshot.resolved_ips as nat) + "/"@ + (
        match snapshot.total_ips {
            Some(total) => decimal(total as nat),
            None => "?"@,
        }) + " ports="@ + decimal(snapshot.ports_total as nat) + " inflight="@ + decimal(
            inflight as nat,
        ) + " open_sockets="@ + decimal(snapshot.open_sockets as nat) + " open_ips="@ + decimal(
            snapshot.open_ips as nat,
        ) + " cur="@ + (match snapshot.last_socket {
            Some(_) => last_socket@,
            None => "-"@,
        }) + " batch="@ + decimal(batch_size as nat) + " timeout="@ + decimal(timeout_millis as nat)
            + "ms tries="@ + decimal(tries as nat),
{
}

/// The display shows the message that belongs to the snapshot and the number of
/// completed sockets, spins exactly in a streamed scan, and ends exactly if it is
/// told to.
pub proof fn lemma_display_shows_message(
    stopped: bool,
    is_stream: bool,
    snapshot: ProgressSnapshot,
    last_socket: &str,
    batch_size: usize,
    timeout_millis: u128,
    tries: u8,
    step: BarStep,
    shown: String,
)
    requires
        call_ensures(
            bar_step,
            (stopped, is_stream, &snapshot, last_socket, batch_size, timeout_millis, tries),
            step,
        ),
        call_ensures(
            format_progress_message,
            (&snapshot, last_socket, batch_size, timeout_millis, tries),
            shown,
        ),
    ensures
        stopped <==> step is Finish,
        step matches BarStep::Update { position, message, tick } ==> message@ == shown@ && position
            == snapshot.completed_sockets && tick == is_stream,
{
}

/// Progress is shown to nobody who does not watch a terminal, uses a screen
/// reader or has switched it off, and to everybody else.
pub proof fn lemma_who_sees_progress(opts: Opts, stderr_is_terminal: bool, show: bool)
    requires
        call_ensures(should_show_progress, (&opts, stderr_is_terminal), show),
    ensures
        show ==> stderr_is_terminal,
        show ==> !opts.accessible,
        show ==> !opts.disable_progress,
        stderr_is_terminal && !opts.accessible && !opts.disable_progress ==> show,
{
}

/// The tries are displayed as they are set, and never as none.
pub proof fn lemma_tries_are_displayed(opts: Opts, tries: u8)
    requires
        call_ensures(displayed_tries, (&opts,), tries),
    ensures
        tries >= 1,
        opts.tries >= 1 ==> tries == opts.tries,
        opts.tries == 0 ==> tries == 1,
{
}

/// A streamed scan has a spinner, and any other a bar, whose length is the number
/// of sockets or, where that is unknown, zero.
pub proof fn lemma_look_of_display(is_stream: bool, snapshot: ProgressSnapshot, look: BarLook)
    requires
        call_ensures(bar_look, (is_stream, &snapshot), look),
    ensures
        look is Spinner <==> is_stream,
        look matches BarLook::Spinner { template } ==> template@
            == "{spinner:.green} [{elapsed_precise}] {human_pos:>10} {per_sec} {wide_msg}"@,
        look matches BarLook::Bar { length, template, progress_chars } ==> {
            &&& snapshot.total_sockets matches Some(total) ==> length == total
            &&& snapshot.total_sockets is None ==> length == 0
            &&& template@
                == "[{elapsed_precise}] {bar:40.cyan/blue} {human_pos:>10}/{human_len:10} {per_sec} eta {eta_precise} {wide_msg}"@
            &&& progress_chars@ == "=>-"@
        },
{
}

} // verus!
