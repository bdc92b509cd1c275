//! Whether desktop notifications are wanted, and what they say.
//!
//! Nothing here talks to a desktop: a [`Notice`] is handed to the caller,
//! which delivers it and does not wait for the outcome.

use vstd::prelude::*;

verus! {

/// The switch for desktop notifications.
#[derive(Clone, Copy, Debug)]
pub struct Notifier {
    pub enabled: bool,
}

/// A notification to deliver.
#[derive(Debug)]
pub struct Notice {
    pub summary: String,
    pub body: String,
}

/// Mathematical value of a [`Notice`].
pub struct NoticeView {
    pub summary: Seq<char>,
    pub body: Seq<char>,
}

impl View for Notice {
    type V = NoticeView;

    open spec fn view(&self) -> NoticeView {
        NoticeView { summary: self.summary@, body: self.body@ }
    }
}

impl Notifier {
    /// A notifier that is switched off.
    pub fn new() -> (r: Notifier)
        ensures
            !r.enabled,
    {
        Notifier { enabled: false }
    }
}

/// Switches notifications off.
pub fn disable(notifier: &mut Notifier)
    ensures
        !final(notifier).enabled,
{
    notifier.enabled = false;
}

/// Switches notifications on.
pub fn enable(notifier: &mut Notifier)
    ensures
        final(notifier).enabled,
{
    notifier.enabled = true;
}

/// The notice to deliver for `sum` and `msg`: one with exactly these texts
/// while notifications are on, none while they are off.
pub fn send(notifier: &Notifier, sum: &str, msg: &str) -> (r: Option<Notice>)
    ensures
        r is Some <==> notifier.enabled,
        r is Some ==> r->0@ == (NoticeView { summary: sum@, body: msg@ }),
{
    if notifier.enabled {
        Some(Notice { summary: sum.to_owned(), body: msg.to_owned() })
    } else {
        None
    }
}

} // verus!
