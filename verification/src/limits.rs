//! Keeping the number of open sockets within the limit on open files.

use vstd::prelude::*;

use crate::notice::lemma_notice_pushed;
use crate::notice::notice_texts;
use crate::notice::Notice;
use crate::notice::NoticeText;
use crate::options::Opts;
use crate::text::decimal;
use crate::text::push_decimal;

verus! {

/// A limit on open files that is common on desktop systems.
pub const DEFAULT_FILE_DESCRIPTORS_LIMIT: usize = 8000;

/// A batch size that is safe by experience.
pub const AVERAGE_BATCH_SIZE: usize = 3000;

/// The limit on open files that the system is to be asked for, if any.
pub fn requested_ulimit(opts: &Opts) -> (limit: Option<u64>)
    ensures
        limit == match opts.ulimit {
            Some(limit) => Some(limit as u64),
            None => None,
        },
{
    match opts.ulimit {
        Some(limit) => Some(limit as u64),
        None => None,
    }
}

/// What there is to say about asking the system for a limit.
pub open spec fn ulimit_texts(opts: Opts, granted: bool) -> Seq<NoticeText> {
    match opts.ulimit {
        Some(limit) => if granted {
            seq![
                NoticeText::Detail(
                    "Automatically increasing ulimit value to "@ + decimal(limit as nat) + "."@,
                ),
            ]
        } else {
            seq![NoticeText::Warning("ERROR. Failed to set ulimit value."@)]
        },
        None => Seq::empty(),
    }
}

/// The limit on open files to work with.
///
/// `granted` tells whether the system agreed to the limit that it was asked for,
/// and matters only if there was one. `soft` is the limit in force after that.
pub fn adjust_ulimit_size(
    opts: &Opts,
    granted: bool,
    soft: u64,
    notices: &mut Vec<Notice>,
) -> (limit: usize)
    ensures
        limit == if soft <= usize::MAX {
            soft as int
        } else {
            usize::MAX as int
        },
        notice_texts(final(notices)@) == notice_texts(old(notices)@) + ulimit_texts(*opts, granted),
        final(notices)@.take(old(notices)@.len() as int) == old(notices)@,
        match opts.ulimit {
            None => final(notices)@.len() == old(notices)@.len(),
            Some(asked) => {
                &&& final(notices)@.len() == old(notices)@.len() + 1
                &&& match final(notices)@.last() {
                    Notice::Detail(text) => granted && text@
                        == "Automatically increasing ulimit value to "@ + decimal(asked as nat)
                        + "."@,
                    Notice::Warning(text) => !granted && text@
                        == "ERROR. Failed to set ulimit value."@,
                    Notice::Output(_) => false,
                }
            },
        },
{
    if let Some(limit) = opts.ulimit {
        let notice = if granted {
            let mut text = "Automatically increasing ulimit value to ".to_owned();
            push_decimal(&mut text, limit as u128);
            text.append(".");
            Notice::Detail(text)
        } else {
            Notice::Warning("ERROR. Failed to set ulimit value.".to_owned())
        };
        proof {
            lemma_notice_pushed(notices@, notice);
        }
        notices.push(notice);
    }
    assert(notice_texts(notices@) =~= notice_texts(old(notices)@) + ulimit_texts(*opts, granted));
    if soft <= usize::MAX as u64 {
        soft as usize
    } else {
        usize::MAX
    }
}

/// How the batch size follows from a limit on open files.
#[derive(Clone, Copy, Debug, PartialEq, Eq, Structural)]
pub enum BatchRule {
    /// The desired one: the limit allows it.
    AsDesired,
    /// Half of a limit that is below the average batch size.
    HalfOfLimit,
    /// The average one, under a limit that is above the common one.
    Average,
    /// Slightly less than any other limit.
    BelowLimit,
}

/// How the batch size follows from a limit on open files.
pub fn batch_rule(desired: usize, ulimit: usize) -> (rule: BatchRule)
    ensures
        match rule {
            BatchRule::AsDesired => desired <= ulimit,
            BatchRule::HalfOfLimit => ulimit < desired && ulimit < AVERAGE_BATCH_SIZE,
            BatchRule::Average => ulimit < desired && ulimit > DEFAULT_FILE_DESCRIPTORS_LIMIT,
            BatchRule::BelowLimit => ulimit < desired && AVERAGE_BATCH_SIZE <= ulimit
                <= DEFAULT_FILE_DESCRIPTORS_LIMIT,
        },
{
    if desired <= ulimit {
        BatchRule::AsDesired
    } else if ulimit < AVERAGE_BATCH_SIZE {
        BatchRule::HalfOfLimit
    } else if ulimit > DEFAULT_FILE_DESCRIPTORS_LIMIT {
        BatchRule::Average
    } else {
        BatchRule::BelowLimit
    }
}

/// The batch size under a limit on open files: the desired one if the limit
/// allows it, and otherwise one that leaves other open files some room.
pub open spec fn batch_size_within(desired: nat, ulimit: nat) -> nat {
    if desired <= ulimit {
        desired
    } else if ulimit < AVERAGE_BATCH_SIZE {
        ulimit / 2
    } else if ulimit > DEFAULT_FILE_DESCRIPTORS_LIMIT {
        AVERAGE_BATCH_SIZE as nat
    } else {
        (ulimit - 100) as nat
    }
}

/// What there is to say about the limit on open files and the batch size.
///
/// That the limit would allow more is said where it does, unless the user chose
/// the limit.
pub open spec fn batch_size_texts(opts: Opts, ulimit: usize) -> Seq<NoticeText> {
    if ulimit < opts.batch_size {
        let lower = NoticeText::Warning(
            "File limit is lower than default batch size. Consider upping with --ulimit. May cause harm to sensitive servers"@,
        );
        if ulimit < AVERAGE_BATCH_SIZE {
            seq![
                lower,
                NoticeText::Warning(
                    "Your file limit is very small, which negatively impacts RustScan's speed. Use the Docker image, or up the Ulimit with '--ulimit 5000'. "@,
                ),
            ]
        } else {
            seq![lower]
        }
    } else if ulimit > opts.batch_size && opts.ulimit is None {
        seq![
            NoticeText::Detail(
                "File limit higher than batch size. Can increase speed by increasing batch size '-b "@
                    + decimal((ulimit - 100) as nat) + "'."@,
            ),
        ]
    } else {
        Seq::empty()
    }
}

/// The batch size to work with under a limit on open files.
pub fn infer_batch_size(opts: &Opts, ulimit: usize, notices: &mut Vec<Notice>) -> (batch_size: usize)
    requires
        opts.batch_size < ulimit && opts.ulimit is None ==> ulimit >= 100,
    ensures
        batch_size == batch_size_within(opts.batch_size as nat, ulimit as nat),
        opts.batch_size <= ulimit ==> batch_size == opts.batch_size,
        ulimit < opts.batch_size && ulimit < 3000 ==> 2 * batch_size <= ulimit < 2 * batch_size + 2,
        ulimit < opts.batch_size && 3000 <= ulimit <= 8000 ==> batch_size + 100 == ulimit,
        ulimit < opts.batch_size && 8000 < ulimit ==> batch_size == 3000,
        notice_texts(final(notices)@) == notice_texts(old(notices)@) + batch_size_texts(
            *opts,
            ulimit,
        ),
        final(notices)@.take(old(notices)@.len() as int) == old(notices)@,
        final(notices)@.len() - old(notices)@.len() == (if ulimit < opts.batch_size {
            if ulimit < 3000 {
                2int
            } else {
                1
            }
        } else if ulimit > opts.batch_size && opts.ulimit is None {
            1
        } else {
            0
        }),
        ulimit < opts.batch_size ==> (final(notices)@[old(notices)@.len() as int] matches
            Notice::Warning(text) && text@
            == "File limit is lower than default batch size. Consider upping with --ulimit. May cause harm to sensitive servers"@),
        ulimit < opts.batch_size && ulimit < 3000 ==> (final(notices)@.last() matches
            Notice::Warning(text) && text@
            == "Your file limit is very small, which negatively impacts RustScan's speed. Use the Docker image, or up the Ulimit with '--ulimit 5000'. "@),
        ulimit > opts.batch_size && opts.ulimit is None ==> (final(notices)@.last() matches
            Notice::Detail(text) && text@
            == "File limit higher than batch size. Can increase speed by increasing batch size '-b "@
            + decimal((ulimit - 100) as nat) + "'."@),
{
    if ulimit < opts.batch_size {
        let lower = Notice::Warning(
            "File limit is lower than default batch size. Consider upping with --ulimit. May cause harm to sensitive servers".to_owned(),
        );
        proof {
            lemma_notice_pushed(notices@, lower);
        }
        notices.push(lower);
    }
    let batch_size: usize = match batch_rule(opts.batch_size, ulimit) {
        BatchRule::AsDesired => {
            if ulimit > opts.batch_size && opts.ulimit.is_none() {
                let mut text =
                    "File limit higher than batch size. Can increase speed by increasing batch size '-b ".to_owned();
                push_decimal(&mut text, (ulimit - 100) as u128);
                text.append("'.");
                let higher = Notice::Detail(text);
                proof {
                    lemma_notice_pushed(notices@, higher);
                }
                notices.push(higher);
            }
            opts.batch_size
        },
        BatchRule::HalfOfLimit => {
            let small = Notice::Warning(
                "Your file limit is very small, which negatively impacts RustScan's speed. Use the Docker image, or up the Ulimit with '--ulimit 5000'. ".to_owned(),
            );
            proof {
                lemma_notice_pushed(notices@, small);
            }
            notices.push(small);
            ulimit / 2
        },
        BatchRule::Average => AVERAGE_BATCH_SIZE,
        BatchRule::BelowLimit => ulimit - 100,
    };
    assert(notice_texts(notices@) =~= notice_texts(old(notices)@) + batch_size_texts(
        *opts,
        ulimit,
    ));
    batch_size
}

/// The hint that the limit allows more is given exactly to users who did not
/// choose the limit and whose limit is higher than the batch size.
pub proof fn lemma_hint_only_if_higher(opts: Opts, ulimit: usize)
    ensures
        (exists|i: int|
            0 <= i < batch_size_texts(opts, ulimit).len() && (#[trigger] batch_size_texts(
                opts,
                ulimit,
            )[i]) is Detail) <==> ulimit > opts.batch_size && opts.ulimit is None,
{
    if ulimit > opts.batch_size && opts.ulimit is None {
        assert(batch_size_texts(opts, ulimit)[0] is Detail);
    }
}

/// The batch size never exceeds the limit on open files nor what was desired,
/// is what was desired whenever the limit allows that, and is smaller whenever
/// it does not.
pub proof fn lemma_batch_size_fits(desired: nat, ulimit: nat)
    ensures
        batch_size_within(desired, ulimit) <= ulimit,
        batch_size_within(desired, ulimit) <= desired,
        batch_size_within(desired, ulimit) == desired <==> desired <= ulimit,
{
}

/// What the batch size is under a limit that is too low for the desired one:
/// half of a limit below 3000, rounded down, 100 less than a limit up to 8000,
/// and 3000 under a higher one, whatever was desired.
pub proof fn lemma_batch_size_under_low_limit(desired: nat, ulimit: nat)
    requires
        ulimit < desired,
    ensures
        ulimit < 3000 ==> 2 * batch_size_within(desired, ulimit) <= ulimit < 2 * batch_size_within(
            desired,
            ulimit,
        ) + 2,
        3000 <= ulimit <= 8000 ==> batch_size_within(desired, ulimit) + 100 == ulimit,
        ulimit > 8000 ==> batch_size_within(desired, ulimit) == 3000,
        ulimit >= 2 ==> batch_size_within(desired, ulimit) > 0,
{
}

/// Under a limit that is too low it does not matter how much more was desired,
/// and under one that is not it does not matter how high it is.
pub proof fn lemma_batch_size_depends_on_less(
    desired: nat,
    other_desired: nat,
    ulimit: nat,
    other_ulimit: nat,
)
    ensures
        ulimit < desired && ulimit < other_desired ==> batch_size_within(desired, ulimit)
            == batch_size_within(other_desired, ulimit),
        desired <= ulimit && desired <= other_ulimit ==> batch_size_within(desired, ulimit)
            == batch_size_within(desired, other_ulimit),
{
}

/// A warning is given exactly if the limit is lower than the batch size, and a
/// second one exactly if the limit is also below 3000.
pub proof fn lemma_warnings_only_if_lower(opts: Opts, ulimit: usize)
    ensures
        batch_size_texts(opts, ulimit).len() > 0 && batch_size_texts(opts, ulimit)[0] is Warning
            <==> ulimit < opts.batch_size,
        batch_size_texts(opts, ulimit).len() > 1 <==> ulimit < opts.batch_size && ulimit < 3000,
        batch_size_texts(opts, ulimit).len() == 0 <==> ulimit >= opts.batch_size && (ulimit
            == opts.batch_size || opts.ulimit is Some),
{
}

/// Without a limit to ask for nothing is said, and otherwise one thing, which is
/// a warning exactly if the system refused.
pub proof fn lemma_refusal_is_a_warning(opts: Opts, granted: bool)
    ensures
        opts.ulimit is None ==> ulimit_texts(opts, granted).len() == 0,
        opts.ulimit is Some ==> ulimit_texts(opts, granted).len() == 1,
        opts.ulimit is Some ==> (ulimit_texts(opts, granted)[0] is Warning <==> !granted),
        opts.ulimit is Some ==> (ulimit_texts(opts, granted)[0] is Detail <==> granted),
{
}

/// The system is asked for the limit that the user asks for, and for none where
/// the user asks for none.
pub proof fn lemma_asked_limit_is_requested(opts: Opts, limit: Option<u64>)
    requires
        call_ensures(requested_ulimit, (&opts,), limit),
    ensures
        limit is Some <==> opts.ulimit is Some,
        limit is Some ==> limit->0 == opts.ulimit->0,
{
}

/// The rule that is named is the one that the batch size follows.
pub proof fn lemma_rule_gives_batch_size(desired: usize, ulimit: usize, rule: BatchRule)
    requires
        call_ensures(batch_rule, (desired, ulimit), rule),
    ensures
        rule == BatchRule::AsDesired <==> desired <= ulimit,
        ({
            let size = batch_size_within(desired as nat, ulimit as nat);
            match rule {
                BatchRule::AsDesired => size == desired,
                BatchRule::HalfOfLimit => ulimit < 3000 && 2 * size <= ulimit < 2 * size + 2,
                BatchRule::Average => ulimit > 8000 && size == 3000,
                BatchRule::BelowLimit => 3000 <= ulimit <= 8000 && size + 100 == ulimit,
            }
        }),
{
}

} // verus!
