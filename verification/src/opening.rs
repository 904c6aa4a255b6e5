//! What is shown before a scan starts.

use colorful::Color;
use colorful::Colorful;
use vstd::prelude::*;

use crate::notice::notice_texts;
use crate::notice::Notice;
use crate::notice::NoticeText;
use crate::options::Opts;

verus! {

/// The colour that a gradient starts from.
#[derive(Clone, Copy, Debug, PartialEq, Eq, Structural)]
pub enum Tint {
    Green,
    Yellow,
}

/// Whether every line of a text has a character before its end.
pub open spec fn no_blank_line(text: Seq<char>) -> bool {
    forall|i: int|
        0 <= i < text.len() && #[trigger] text[i] == '\n' ==> i > 0 && text[i - 1] != '\n' && text[i
            - 1] != '\r'
}

/// What `Colorful::gradient` of the `colorful` crate makes of a text: the text
/// with a colour code before each character.
pub uninterp spec fn gradient_text(text: Seq<char>, tint: Tint) -> Seq<char>;

/// Calls `colorful::Colorful::gradient`, and writes out the string that it
/// returns.
///
/// Claimed of it: the outcome depends on the text and the colour alone. It may
/// panic on a blank line, so there must be none.
#[verifier::external_body]
fn gradient(text: &str, tint: Tint) -> (colored: String)
    requires
        no_blank_line(text@),
    ensures
        colored@ == gradient_text(text@, tint),
{
    match tint {
        Tint::Green => text.gradient(Color::Green).to_string(),
        Tint::Yellow => text.gradient(Color::Yellow).to_string(),
    }
}

/// A text between the terminal codes that switch bold type on and all styles
/// off.
pub open spec fn bold_text(text: Seq<char>) -> Seq<char> {
    "\x1B[1m"@ + text + "\x1B[0m"@
}

/// Calls `colorful::Colorful::bold`, and writes out the string that it returns.
///
/// Claimed of it: the text stands between the terminal codes that switch bold
/// type on and all styles off.
#[verifier::external_body]
fn bold(text: &str) -> (styled: String)
    ensures
        styled@ == bold_text(text@),
{
    text.bold().to_string()
}

/// Which of the opening steps are taken.
#[derive(Clone, Copy, Debug, PartialEq, Eq, Structural)]
pub struct StartupPlan {
    /// The opening is shown.
    pub show_opening: bool,
    /// The targets are searched for large networks.
    pub check_large_cidrs: bool,
}

/// The opening is for people at a terminal who did not decline it. A streamed
/// scan copes with large networks, so only others look for them.
pub fn startup_plan(opts: &Opts) -> (plan: StartupPlan)
    ensures
        plan.show_opening == (!opts.greppable && !opts.accessible && !opts.no_banner),
        plan.check_large_cidrs == !opts.stream,
{
    StartupPlan {
        show_opening: !opts.greppable && !opts.accessible && !opts.no_banner,
        check_large_cidrs: !opts.stream,
    }
}

/// The title.
pub const TITLE: &'static str = ".----. .-. .-. .----..---.  .----. .---.   .--.  .-. .-.\n| {}  }| { } |{ {__ {_   _}{ {__  /  ___} / {} \\ |  `| |\n| .-. \\| {_} |.-._} } | |  .-._} }\\     }/  /\\  \\| |\\  |\n`-' `-'`-----'`----'  `-'  `----'  `---' `-'  `-'`-' `-'\nThe Modern Day Port Scanner.";

/// Where to find the project.
pub const LINKS: &'static str = "________________________________________\n: http://discord.skerritt.blog         :\n: https://github.com/RustScan/RustScan :\n --------------------------------------";

/// A text as the opening shows it: in bold type, with a gradient.
pub open spec fn display_text(text: Seq<char>, tint: Tint) -> Seq<char> {
    bold_text(gradient_text(text, tint))
}

/// What is shown before a scan starts, in this order.
#[derive(Debug)]
pub struct Opening {
    /// The title, ready for the terminal.
    pub title: String,
    /// The links, ready for the terminal.
    pub links: String,
    /// Where the configuration is.
    pub notices: Vec<Notice>,
}

/// What there is to say about the configuration file, given the notation of the
/// path that the user chose, if any, and of the default paths.
pub open spec fn config_texts(
    chosen: Option<String>,
    default_config: Seq<char>,
    old_default_config: Seq<char>,
) -> Seq<NoticeText> {
    match chosen {
        Some(path) => seq![
            NoticeText::Detail("The config file is expected to be at "@ + path@),
        ],
        None => seq![
            NoticeText::Detail("The config file is expected to be at "@ + default_config),
            NoticeText::Detail(
                "For backwards compatibility, the config file may also be at "@
                    + old_default_config,
            ),
        ],
    }
}

/// What there is to say about the configuration file.
fn config_notices(opts: &Opts, default_config: &str, old_default_config: &str) -> (notices: Vec<
    Notice,
>)
    ensures
        notice_texts(notices@) == config_texts(
            opts.config_path,
            default_config@,
            old_default_config@,
        ),
{
    let mut notices: Vec<Notice> = Vec::new();
    let mut text = "The config file is expected to be at ".to_owned();
    match &opts.config_path {
        Some(path) => text.append(path.as_str()),
        None => text.append(default_config),
    }
    notices.push(Notice::Detail(text));
    if opts.config_path.is_none() {
        let mut text = "For backwards compatibility, the config file may also be at ".to_owned();
        text.append(old_default_config);
        notices.push(Notice::Detail(text));
    }
    assert(notice_texts(notices@) =~= config_texts(
        opts.config_path,
        default_config@,
        old_default_config@,
    ));
    notices
}

/// What is shown before a scan starts, given the notation of the default paths
/// of the configuration file, the present one and the one of earlier days.
pub fn opening(opts: &Opts, default_config: &str, old_default_config: &str) -> (opening: Opening)
    ensures
        opening.title@ == display_text(TITLE@, Tint::Green),
        opening.links@ == display_text(LINKS@, Tint::Yellow),
        notice_texts(opening.notices@) == config_texts(
            opts.config_path,
            default_config@,
            old_default_config@,
        ),
{
    proof {
        reveal_strlit(
            ".----. .-. .-. .----..---.  .----. .---.   .--.  .-. .-.\n| {}  }| { } |{ {__ {_   _}{ {__  /  ___} / {} \\ |  `| |\n| .-. \\| {_} |.-._} } | |  .-._} }\\     }/  /\\  \\| |\\  |\n`-' `-'`-----'`----'  `-'  `----'  `---' `-'  `-'`-' `-'\nThe Modern Day Port Scanner.",
        );
        reveal_strlit(
            "________________________________________\n: http://discord.skerritt.blog         :\n: https://github.com/RustScan/RustScan :\n --------------------------------------",
        );
    }
    Opening {
        title: bold(gradient(TITLE, Tint::Green).as_str()),
        links: bold(gradient(LINKS, Tint::Yellow).as_str()),
        notices: config_notices(opts, default_config, old_default_config),
    }
}

/// The title and the links are shown whole, in bold type, the one with a gradient
/// from green and the other from yellow.
pub proof fn lemma_opening_shows_title(
    opts: Opts,
    default_config: &str,
    old_default_config: &str,
    shown: Opening,
)
    requires
        call_ensures(opening, (&opts, default_config, old_default_config), shown),
    ensures
        shown.title@ == "\x1B[1m"@ + gradient_text(
            ".----. .-. .-. .----..---.  .----. .---.   .--.  .-. .-.\n| {}  }| { } |{ {__ {_   _}{ {__  /  ___} / {} \\ |  `| |\n| .-. \\| {_} |.-._} } | |  .-._} }\\     }/  /\\  \\| |\\  |\n`-' `-'`-----'`----'  `-'  `----'  `---' `-'  `-'`-' `-'\nThe Modern Day Port Scanner."@,
            Tint::Green,
        ) + "\x1B[0m"@,
        shown.links@ == "\x1B[1m"@ + gradient_text(
            "________________________________________\n: http://discord.skerritt.blog         :\n: https://github.com/RustScan/RustScan :\n --------------------------------------"@,
            Tint::Yellow,
        ) + "\x1B[0m"@,
{
}

/// A configuration file that the user chose is the only one that is named.
/// Otherwise both default paths are, the present one first.
pub proof fn lemma_opening_names_config(
    opts: Opts,
    default_config: &str,
    old_default_config: &str,
    shown: Opening,
)
    requires
        call_ensures(opening, (&opts, default_config, old_default_config), shown),
    ensures
        shown.notices@.len() == if opts.config_path is Some {
            1int
        } else {
            2
        },
        shown.notices@[0] matches Notice::Detail(text) && text@
            == "The config file is expected to be at "@ + (match opts.config_path {
            Some(path) => path@,
            None => default_config@,
        }),
        opts.config_path is None ==> (shown.notices@[1] matches Notice::Detail(text) && text@
            == "For backwards compatibility, the config file may also be at "@
            + old_default_config@),
{
    let texts = notice_texts(shown.notices@);
    assert(texts.len() == shown.notices@.len());
    assert(texts[0] == shown.notices@[0]@);
    if opts.config_path is None {
        assert(texts[1] == shown.notices@[1]@);
    }
}

/// The opening is shown exactly to users who want neither machine readable output
/// nor output for a screen reader and did not decline it. Large networks are
/// looked for exactly if the scan is not streamed.
pub proof fn lemma_steps_before_a_scan(opts: Opts, plan: StartupPlan)
    requires
        call_ensures(startup_plan, (&opts,), plan),
    ensures
        plan.show_opening ==> !opts.greppable,
        plan.show_opening ==> !opts.accessible,
        plan.show_opening ==> !opts.no_banner,
        !plan.show_opening ==> opts.greppable || opts.accessible || opts.no_banner,
        plan.check_large_cidrs <==> !opts.stream,
{
}

} // verus!
