//! The notification message sent for one matching notice: a fixed subject and
//! a body carrying the notice's title and link. The SMTP transport that
//! delivers it lives in the surrounding application.

use vstd::prelude::*;

verus! {

/// The body text for one notice: its title, then its link.
pub open spec fn body_text(title: Seq<char>, link: Seq<char>) -> Seq<char> {
    "Titlu anunt: "@ + title + "\n\nLink: "@ + link
}

/// The subject line of every notification.
pub fn notification_subject() -> (s: String)
    ensures
        s@ == "A aparut un anunt nou!"@,
{
    String::from_str("A aparut un anunt nou!")
}

/// Builds the notification body for one notice's title and link.
pub fn notification_body(title: &str, link: &str) -> (s: String)
    ensures
        s@ == body_text(title@, link@),
{
    let mut s = String::from_str("Titlu anunt: ");
    s.append(title);
    s.append("\n\nLink: ");
    s.append(link);
    proof {
        assert(s@ =~= body_text(title@, link@));
    }
    s
}

} // verus!
