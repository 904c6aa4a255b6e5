//! Handing open ports on to scripts.

use vstd::prelude::*;

use crate::notice::lemma_notice_pushed;
use crate::notice::notice_texts;
use crate::notice::Notice;
use crate::notice::NoticeText;
use crate::options::Opts;
use crate::options::ScriptsRequired;
use crate::text::contents;
use crate::text::is_numeral;
use crate::text::join_ports;
use crate::text::join_strings;
use crate::text::joined;
use crate::text::lemma_joined_grows;
use crate::text::lemma_port_list_reads_back;
use crate::text::number_read;
use crate::text::pieces;
use crate::text::port_list;

verus! {

/// What is done about a host with open ports.
#[derive(Debug)]
pub enum HostReport {
    /// Print this line.
    Line(String),
    /// Show this notice and run the scripts.
    RunScripts(Notice),
}

/// Whether hosts are only listed.
pub open spec fn lists_only(opts: Opts) -> bool {
    opts.greppable || opts.scripts == ScriptsRequired::NoScripts
}

/// The line that lists the open ports of a host, written `ip`.
pub open spec fn host_line(ip: Seq<char>, ports: Seq<u16>) -> Seq<char> {
    ip + " -> ["@ + port_list(ports) + "]"@
}

/// What to do about a host, written `ip`, with open ports.
pub fn host_report(opts: &Opts, ip: &str, ports: &Vec<u16>) -> (report: HostReport)
    ensures
        match report {
            HostReport::Line(line) => lists_only(*opts) && line@ == host_line(ip@, ports@),
            HostReport::RunScripts(notice) => !lists_only(*opts) && notice@ == NoticeText::Detail(
                "Starting Script(s)"@,
            ),
        },
{
    if opts.greppable || opts.scripts == ScriptsRequired::NoScripts {
        let mut line = ip.to_owned();
        line.append(" -> [");
        line.append(join_ports(ports).as_str());
        line.append("]");
        HostReport::Line(line)
    } else {
        HostReport::RunScripts(Notice::Detail("Starting Script(s)".to_owned()))
    }
}

/// The call of a script with the arguments of the user behind it.
pub open spec fn extended_call(call_format: Seq<char>, command: Seq<String>) -> Seq<char> {
    call_format + " "@ + joined(contents(command), " "@)
}

/// A text in quotes with its special characters escaped, as the `Debug` format
/// of `str` in std writes it.
pub uninterp spec fn debug_quoted(text: Seq<char>) -> Seq<char>;

/// Calls `<str as std::fmt::Debug>::fmt` by way of `format!`.
///
/// Claimed of it: what it writes depends on the text alone.
#[verifier::external_body]
fn quote(text: &str) -> (quoted: String)
    ensures
        quoted@ == debug_quoted(text@),
{
    format!("{:?}", text)
}

/// The text that announces a script.
pub open spec fn running_text(quoted_call: Seq<char>, ip: Seq<char>) -> Seq<char> {
    "Running script "@ + quoted_call + " on ip "@ + ip
        + "\nDepending on the complexity of the script, results may take some time to appear."@
}

/// The notice that announces a script, given its call in quotes.
pub fn running_notice(quoted_call: &str, ip: &str) -> (notice: Notice)
    ensures
        notice@ == NoticeText::Output(running_text(quoted_call@, ip@)),
{
    let mut text = "Running script ".to_owned();
    text.append(quoted_call);
    text.append(" on ip ");
    text.append(ip);
    text.append(
        "\nDepending on the complexity of the script, results may take some time to appear.",
    );
    Notice::Output(text)
}

/// The call of a script, with the arguments of the user behind it if there are
/// any. Such a call is announced.
pub fn prepare_call(
    call_format: Option<String>,
    opts: &Opts,
    ip: &str,
    notices: &mut Vec<Notice>,
) -> (call: Option<String>)
    ensures
        match call_format {
            Some(format) => if opts.command@.len() > 0 {
                &&& call matches Some(extended)
                &&& extended@ == extended_call(format@, opts.command@)
                &&& notice_texts(final(notices)@) == notice_texts(old(notices)@).push(
                    NoticeText::Output(running_text(debug_quoted(extended@), ip@)),
                )
            } else {
                call == Some(format) && final(notices)@ == old(notices)@
            },
            None => call is None && final(notices)@ == old(notices)@,
        },
        final(notices)@.take(old(notices)@.len() as int) == old(notices)@,
        call_format is Some && opts.command@.len() > 0 ==> {
            &&& final(notices)@.len() == old(notices)@.len() + 1
            &&& call is Some
            &&& final(notices)@.last() matches Notice::Output(text) && text@ == "Running script "@
                + debug_quoted(call->0@) + " on ip "@ + ip@
                + "\nDepending on the complexity of the script, results may take some time to appear."@
        },
        call_format is Some && opts.command@.len() == 1 ==> call is Some && call->0@
            == call_format->0@ + " "@ + opts.command@[0]@,
{
    match call_format {
        Some(mut call) => {
            if opts.command.len() > 0 {
                call.append(" ");
                call.append(join_strings(&opts.command, " ").as_str());
                let notice = running_notice(quote(call.as_str()).as_str(), ip);
                proof {
                    lemma_notice_pushed(notices@, notice);
                }
                notices.push(notice);
                proof {
                    lemma_call_grows(call_format->0@, opts.command@.drop_last(), opts.command@);
                }
            }
            assert(notices@.take(old(notices)@.len() as int) =~= old(notices)@);
            Some(call)
        },
        None => {
            assert(notices@.take(old(notices)@.len() as int) =~= old(notices)@);
            None
        },
    }
}

/// The notice about a script that has run: what it wrote, or why it failed.
pub fn outcome_notice(outcome: Result<String, String>) -> (notice: Notice)
    ensures
        notice@ == match outcome {
            Ok(output) => NoticeText::Detail(output@),
            Err(error) => NoticeText::Warning("Error "@ + error@),
        },
{
    match outcome {
        Ok(output) => Notice::Detail(output),
        Err(error) => {
            let mut text = "Error ".to_owned();
            text.append(error.as_str());
            Notice::Warning(text)
        },
    }
}

/// The warning that the scripts could not be set up.
pub fn setup_failed_notice(error: &str) -> (notice: Notice)
    ensures
        notice@ == NoticeText::Warning("Initiating scripts failed!\n"@ + error@),
{
    let mut text = "Initiating scripts failed!\n".to_owned();
    text.append(error);
    Notice::Warning(text)
}

/// Without arguments before it, an argument of the user stands behind the call
/// and a space. With others before it, it stands behind the call with those and
/// a space.
pub proof fn lemma_call_grows(call_format: Seq<char>, few: Seq<String>, more: Seq<String>)
    requires
        more.len() == few.len() + 1,
        forall|i: int| 0 <= i < few.len() ==> (#[trigger] few[i])@ == more[i]@,
    ensures
        few.len() == 0 ==> extended_call(call_format, more) == call_format + " "@ + more[0]@,
        few.len() > 0 ==> extended_call(call_format, more) == extended_call(call_format, few) + " "@
            + more[few.len() as int]@,
{
    let last = more[few.len() as int]@;
    lemma_joined_grows(contents(few), " "@, last);
    if few.len() == 0 {
        assert(contents(more) =~= seq![last]);
    } else {
        assert(contents(more) =~= contents(few).push(last));
        assert(extended_call(call_format, more) =~= extended_call(call_format, few) + " "@ + last);
    }
}

/// The place in the extended call, counted from the end of the call, of the space
/// before an argument of the user.
pub open spec fn place_of(command: Seq<String>, index: int) -> int
    decreases index,
{
    if index <= 0 {
        0
    } else {
        place_of(command, index - 1) + 1 + command[index - 1]@.len()
    }
}

proof fn lemma_places(short: Seq<String>, long: Seq<String>, index: int)
    requires
        index <= short.len() <= long.len(),
        forall|i: int| 0 <= i < short.len() ==> #[trigger] short[i] == long[i],
    ensures
        place_of(short, index) == place_of(long, index),
        index >= 0 ==> place_of(short, index) >= 0,
    decreases index,
{
    if index > 0 {
        lemma_places(short, long, index - 1);
        assert(short[index - 1] == long[index - 1]);
    }
}

/// Whether an argument of the user stands in a text that starts with `base`
/// characters of call, behind a space at its place.
pub open spec fn argument_stands(
    text: Seq<char>,
    base: nat,
    command: Seq<String>,
    index: int,
) -> bool {
    let start = base + place_of(command, index);
    &&& 0 <= start
    &&& start + 1 + command[index]@.len() <= text.len()
    &&& text[start] == ' '
    &&& text.subrange(start + 1, start + 1 + command[index]@.len()) == command[index]@
}

proof fn lemma_argument_kept(
    text: Seq<char>,
    more: Seq<char>,
    base: nat,
    few: Seq<String>,
    command: Seq<String>,
    index: int,
)
    requires
        0 <= index < few.len() <= command.len(),
        forall|i: int| 0 <= i < few.len() ==> #[trigger] few[i] == command[i],
        argument_stands(text, base, few, index),
    ensures
        argument_stands(text + more, base, command, index),
{
    lemma_places(few, command, index);
    assert(few[index] == command[index]);
    let start = base + place_of(few, index);
    let end = start + 1 + few[index]@.len();
    assert((text + more).subrange(start + 1, end) =~= text.subrange(start + 1, end));
}

proof fn lemma_argument_added(text: Seq<char>, base: nat, command: Seq<String>, index: int)
    requires
        0 <= index < command.len(),
        text.len() == base + place_of(command, index),
    ensures
        argument_stands(text + " "@ + command[index]@, base, command, index),
{
    reveal_strlit(" ");
    let start = text.len() as int;
    let whole = text + " "@ + command[index]@;
    assert(whole.subrange(start + 1, start + 1 + command[index]@.len()) =~= command[index]@);
}

/// The extended call starts with the call. Each argument of the user stands in
/// it, in order, behind a space, and there is nothing else in it.
pub proof fn lemma_call_holds_arguments(call_format: Seq<char>, command: Seq<String>)
    requires
        command.len() > 0,
    ensures
        extended_call(call_format, command).len() == call_format.len() + place_of(
            command,
            command.len() as int,
        ),
        extended_call(call_format, command).take(call_format.len() as int) == call_format,
        forall|i: int|
            0 <= i < command.len() ==> #[trigger] argument_stands(
                extended_call(call_format, command),
                call_format.len(),
                command,
                i,
            ),
    decreases command.len(),
{
    reveal_strlit(" ");
    let few = command.drop_last();
    let count = few.len() as int;
    let base = call_format.len();
    let before = if count == 0 {
        call_format
    } else {
        extended_call(call_format, few)
    };
    lemma_call_grows(call_format, few, command);
    let tail = " "@ + command[count]@;
    let whole = extended_call(call_format, command);
    assert(whole =~= before + tail);
    if count > 0 {
        lemma_call_holds_arguments(call_format, few);
        lemma_places(few, command, count);
    }
    assert(before.len() == base + place_of(command, count));
    assert(before.take(base as int) =~= call_format);
    assert(whole.take(base as int) =~= before.take(base as int));
    assert forall|i: int| 0 <= i < command.len() implies #[trigger] argument_stands(
        whole,
        base,
        command,
        i,
    ) by {
        if i < count {
            assert(argument_stands(before, base, few, i));
            lemma_argument_kept(before, tail, base, few, command, i);
        } else {
            lemma_argument_added(before, base, command, count);
            assert(before + " "@ + command[count]@ =~= whole);
        }
    }
}

/// Hosts are listed exactly if the output is for machines or no scripts are
/// asked for. The line is the host, an arrow, and in brackets every open port:
/// between the commas stand as many numbers as there are ports, and the numbers
/// are the ports, in their order.
pub proof fn lemma_line_lists_every_port(
    opts: Opts,
    ip: &str,
    ports: Vec<u16>,
    report: HostReport,
)
    requires
        call_ensures(host_report, (&opts, ip, &ports), report),
    ensures
        report is Line <==> opts.greppable || opts.scripts == ScriptsRequired::NoScripts,
        report matches HostReport::Line(line) ==> {
            let list = line@.subrange(ip@.len() as int + 5, line@.len() - 1);
            &&& line@.len() >= ip@.len() + 6
            &&& line@ == ip@ + " -> ["@ + list + "]"@
            &&& ports@.len() == 0 ==> list.len() == 0
            &&& ports@.len() > 0 ==> pieces(list, ',').len() == ports@.len()
            &&& ports@.len() > 0 ==> forall|i: int|
                0 <= i < ports@.len() ==> {
                    let piece = #[trigger] pieces(list, ',')[i];
                    is_numeral(piece) && number_read(piece) == ports@[i]
                }
        },
        report matches HostReport::RunScripts(notice) ==> (notice matches Notice::Detail(text)
            && text@ == "Starting Script(s)"@),
{
    reveal_strlit(" -> [");
    reveal_strlit("]");
    lemma_port_list_reads_back(ports@);
    if let HostReport::Line(line) = report {
        let list = line@.subrange(ip@.len() as int + 5, line@.len() - 1);
        assert(line@ == ip@ + " -> ["@ + port_list(ports@) + "]"@);
        assert(list =~= port_list(ports@));
    }
}

/// The announcement of a script holds its call in quotes and the host.
pub proof fn lemma_announcement_names_call(quoted_call: &str, ip: &str, notice: Notice)
    requires
        call_ensures(running_notice, (quoted_call, ip), notice),
    ensures
        notice matches Notice::Output(text) && text@ == "Running script "@ + quoted_call@
            + " on ip "@ + ip@
            + "\nDepending on the complexity of the script, results may take some time to appear."@,
{
}

/// What a script wrote is shown as it is, and why it failed behind a word.
pub proof fn lemma_outcome_is_shown(outcome: Result<String, String>, notice: Notice)
    requires
        call_ensures(outcome_notice, (outcome,), notice),
    ensures
        outcome matches Ok(output) ==> (notice matches Notice::Detail(text) && text@ == output@),
        outcome matches Err(error) ==> (notice matches Notice::Warning(text) && text@ == "Error "@
            + error@),
{
}

/// Why the scripts could not be set up is part of the warning.
pub proof fn lemma_setup_failure_is_named(error: &str, notice: Notice)
    requires
        call_ensures(setup_failed_notice, (error,), notice),
    ensures
        notice matches Notice::Warning(text) && text@ == "Initiating scripts failed!\n"@ + error@,
{
}

} // verus!
