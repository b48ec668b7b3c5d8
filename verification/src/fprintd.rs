//! What the fingerprint reader reports, and what it is shown as.

use vstd::prelude::*;

use crate::text::same;

verus! {

/// How a reader wants to be given a finger, which is all the difference between
/// the two prompts that can be shown.
#[derive(Clone, Copy, Debug, PartialEq, Eq, Structural)]
pub enum ScanType {
    Press,
    Swipe,
}

impl ScanType {
    /// The scan type that a reader names; one that is not known is taken for a
    /// press.
    pub open spec fn named(scan_type: Seq<char>) -> ScanType {
        if scan_type == "swipe"@ {
            ScanType::Swipe
        } else {
            ScanType::Press
        }
    }

    pub fn parse(scan_type: &str) -> (r: Self)
        ensures
            r == ScanType::named(scan_type@),
    {
        if same(scan_type, "swipe") {
            ScanType::Swipe
        } else {
            ScanType::Press
        }
    }

    /// The scan type of a reader that may not have said.
    pub fn from_reply(reply: Option<String>) -> (r: Self)
        ensures
            r == (match reply {
                Some(scan_type) => ScanType::named(scan_type@),
                None => ScanType::Press,
            }),
    {
        match reply {
            Some(scan_type) => ScanType::parse(&scan_type),
            None => ScanType::Press,
        }
    }

    pub fn prompt(self) -> (r: String)
        ensures
            r@ == (match self {
                ScanType::Press => "Place your finger on the reader"@,
                ScanType::Swipe => "Swipe your finger on the reader"@,
            }),
    {
        match self {
            ScanType::Press => "Place your finger on the reader".to_owned(),
            ScanType::Swipe => "Swipe your finger on the reader".to_owned(),
        }
    }
}

/// What the reader reported about a running verification.
#[derive(Debug)]
pub enum VerifyStatus {
    /// The finger matched one of the enrolled prints.
    Match,
    /// The finger did not match any enrolled print.
    NoMatch,
    /// The scan was unusable and the user should try again. Carries the reason,
    /// phrased for display.
    Retry(String),
    /// The reader errored out or went away; it must not be used again.
    Failed(String),
}

/// A [`VerifyStatus`] as a value.
pub enum VerifyStatusView {
    Match,
    NoMatch,
    Retry(Seq<char>),
    Failed(Seq<char>),
}

impl View for VerifyStatus {
    type V = VerifyStatusView;

    open spec fn view(&self) -> VerifyStatusView {
        match self {
            VerifyStatus::Match => VerifyStatusView::Match,
            VerifyStatus::NoMatch => VerifyStatusView::NoMatch,
            VerifyStatus::Retry(hint) => VerifyStatusView::Retry(hint@),
            VerifyStatus::Failed(message) => VerifyStatusView::Failed(message@),
        }
    }
}

/// One status update of a running verification.
#[derive(Debug)]
pub struct VerifyUpdate {
    pub status: VerifyStatus,
    /// Set once the verification has ended. The reader then has to be stopped
    /// before it accepts another attempt, and no further updates will arrive for
    /// this one.
    pub done: bool,
}

/// What a result that the reader reports stands for. One that is not known is a
/// failure of the reader.
pub open spec fn verify_status(result: Seq<char>) -> VerifyStatusView {
    if result == "verify-match"@ {
        VerifyStatusView::Match
    } else if result == "verify-no-match"@ {
        VerifyStatusView::NoMatch
    } else if result == "verify-retry-scan"@ {
        VerifyStatusView::Retry("Couldn't read that, try again"@)
    } else if result == "verify-swipe-too-short"@ {
        VerifyStatusView::Retry("Swipe was too short, try again"@)
    } else if result == "verify-finger-not-centered"@ {
        VerifyStatusView::Retry("Center your finger on the reader"@)
    } else if result == "verify-remove-and-retry"@ {
        VerifyStatusView::Retry("Remove your finger and try again"@)
    } else if result == "verify-too-fast"@ {
        VerifyStatusView::Retry("That was too fast, try again"@)
    } else if result == "verify-disconnected"@ {
        VerifyStatusView::Failed("The fingerprint reader was disconnected"@)
    } else {
        VerifyStatusView::Failed("The fingerprint reader failed"@)
    }
}

impl VerifyUpdate {
    pub fn parse(result: &str, done: bool) -> (r: Self)
        ensures
            r.status@ == verify_status(result@),
            r.done == done,
    {
        let status = if same(result, "verify-match") {
            VerifyStatus::Match
        } else if same(result, "verify-no-match") {
            VerifyStatus::NoMatch
        } else if same(result, "verify-retry-scan") {
            VerifyStatus::Retry("Couldn't read that, try again".to_owned())
        } else if same(result, "verify-swipe-too-short") {
            VerifyStatus::Retry("Swipe was too short, try again".to_owned())
        } else if same(result, "verify-finger-not-centered") {
            VerifyStatus::Retry("Center your finger on the reader".to_owned())
        } else if same(result, "verify-remove-and-retry") {
            VerifyStatus::Retry("Remove your finger and try again".to_owned())
        } else if same(result, "verify-too-fast") {
            VerifyStatus::Retry("That was too fast, try again".to_owned())
        } else if same(result, "verify-disconnected") {
            VerifyStatus::Failed("The fingerprint reader was disconnected".to_owned())
        } else {
            VerifyStatus::Failed("The fingerprint reader failed".to_owned())
        };
        VerifyUpdate { status, done }
    }
}

/// Whether a reader has anything to verify against: it answers with the fingers
/// that are enrolled, and there are some.
pub fn has_prints(enrolled: &Option<Vec<String>>) -> (r: bool)
    ensures
        r == (enrolled matches Some(fingers) && fingers@.len() > 0),
{
    match enrolled {
        Some(fingers) => fingers.len() > 0,
        None => false,
    }
}

/// Only a reader that is swiped asks for a swipe.
pub proof fn law_only_swipes_are_swiped(scan_type: Seq<char>)
    ensures
        ScanType::named(scan_type) is Swipe <==> scan_type == "swipe"@,
        ScanType::named(scan_type) is Press <==> scan_type != "swipe"@,
{
}

/// One result alone means that the finger is known, and one alone that it is another. The
/// reader asks for another try in the words that belong to what went wrong, and any result
/// that is not among these is a failure.
pub proof fn law_results_are_told_apart(result: Seq<char>)
    ensures
        verify_status(result) is Match <==> result == "verify-match"@,
        verify_status(result) is NoMatch <==> result == "verify-no-match"@,
        result == "verify-retry-scan"@ ==> verify_status(result) == VerifyStatusView::Retry(
            "Couldn't read that, try again"@,
        ),
        result == "verify-swipe-too-short"@ ==> verify_status(result) == VerifyStatusView::Retry(
            "Swipe was too short, try again"@,
        ),
        result == "verify-finger-not-centered"@ ==> verify_status(result)
            == VerifyStatusView::Retry("Center your finger on the reader"@),
        result == "verify-remove-and-retry"@ ==> verify_status(result) == VerifyStatusView::Retry(
            "Remove your finger and try again"@,
        ),
        result == "verify-too-fast"@ ==> verify_status(result) == VerifyStatusView::Retry(
            "That was too fast, try again"@,
        ),
        result == "verify-disconnected"@ ==> verify_status(result) == VerifyStatusView::Failed(
            "The fingerprint reader was disconnected"@,
        ),
        verify_status(result) is Retry <==> {
            ||| result == "verify-retry-scan"@
            ||| result == "verify-swipe-too-short"@
            ||| result == "verify-finger-not-centered"@
            ||| result == "verify-remove-and-retry"@
            ||| result == "verify-too-fast"@
        },
        verify_status(result) is Failed && result != "verify-disconnected"@ ==> verify_status(
            result,
        ) == VerifyStatusView::Failed("The fingerprint reader failed"@),
{
    lemma_results_differ();
}

proof fn lemma_results_differ()
    ensures
        "verify-match"@.len() == 12,
        "verify-no-match"@.len() == 15,
        "verify-too-fast"@.len() == 15,
        "verify-no-match"@[7] != "verify-too-fast"@[7],
        "verify-retry-scan"@.len() == 17,
        "verify-disconnected"@.len() == 19,
        "verify-swipe-too-short"@.len() == 22,
        "verify-remove-and-retry"@.len() == 23,
        "verify-finger-not-centered"@.len() == 26,
{
    reveal_strlit("verify-match");
    reveal_strlit("verify-no-match");
    reveal_strlit("verify-too-fast");
    reveal_strlit("verify-retry-scan");
    reveal_strlit("verify-disconnected");
    reveal_strlit("verify-swipe-too-short");
    reveal_strlit("verify-remove-and-retry");
    reveal_strlit("verify-finger-not-centered");
}

} // verus!
