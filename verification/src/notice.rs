//! Messages for the user.

use vstd::prelude::*;

verus! {

/// A message and the manner in which it is shown.
///
/// Whether a message reaches the terminal at all, and in what colours, depends
/// on the output mode and is up to whoever shows it.
#[derive(Debug)]
pub enum Notice {
    /// Something the user may want to act on.
    Warning(String),
    /// Something that is good to know.
    Detail(String),
    /// Progress of work that is under way.
    Output(String),
}

/// What a notice says, without the storage of its text.
pub enum NoticeText {
    Warning(Seq<char>),
    Detail(Seq<char>),
    Output(Seq<char>),
}

impl View for Notice {
    type V = NoticeText;

    open spec fn view(&self) -> NoticeText {
        match self {
            Notice::Warning(text) => NoticeText::Warning(text@),
            Notice::Detail(text) => NoticeText::Detail(text@),
            Notice::Output(text) => NoticeText::Output(text@),
        }
    }
}

/// What each notice of a list says.
pub open spec fn notice_texts(notices: Seq<Notice>) -> Seq<NoticeText> {
    Seq::new(notices.len(), |i: int| notices[i]@)
}

/// Adding a notice to a list adds what it says.
pub(crate) proof fn lemma_notice_pushed(notices: Seq<Notice>, notice: Notice)
    ensures
        notice_texts(notices.push(notice)) == notice_texts(notices).push(notice@),
{
    assert(notice_texts(notices.push(notice)) =~= notice_texts(notices).push(notice@));
}

/// What a notice says is its text, said in the manner of the notice.
pub proof fn lemma_notice_says(notice: Notice)
    ensures
        match notice {
            Notice::Warning(text) => notice@ == NoticeText::Warning(text@),
            Notice::Detail(text) => notice@ == NoticeText::Detail(text@),
            Notice::Output(text) => notice@ == NoticeText::Output(text@),
        },
{
}

/// A list of notices says what its notices say, one for one.
pub proof fn lemma_notices_say(notices: Seq<Notice>)
    ensures
        notice_texts(notices).len() == notices.len(),
        forall|i: int| 0 <= i < notices.len() ==> #[trigger] notice_texts(notices)[i] == notices[i]@,
{
}

} // verus!
