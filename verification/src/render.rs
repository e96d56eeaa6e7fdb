//! Compute support for the terminal view: the markdown page that frames the
//! question and the reply, and the scroll position arithmetic. Drawing is
//! the binary's business.

use vstd::prelude::*;
use vstd::string::StringExecFns;

verus! {

/// The markdown page shown for a question and the reply text so far.
pub open spec fn markdown_page_text(question: Seq<char>, reply: Seq<char>) -> Seq<char> {
    "# [Question]\n\n"@ + question + "\n\n---\n\n# [Response]\n\n"@ + reply
}

/// Compose the markdown page for a question and the reply text so far.
pub fn compose_markdown(question: &str, reply: &str) -> (r: String)
    ensures
        r@ == markdown_page_text(question@, reply@),
{
    let mut out = String::new();
    out.append("# [Question]\n\n");
    out.append(question);
    out.append("\n\n---\n\n# [Response]\n\n");
    out.append(reply);
    proof {
        assert(out@ =~= markdown_page_text(question@, reply@));
    }
    out
}

/// One step up; the top stays the top.
pub fn scroll_up(scroll: u16) -> (r: u16)
    ensures
        r == if scroll > 0 {
            (scroll - 1) as u16
        } else {
            0u16
        },
{
    if scroll > 0 {
        scroll - 1
    } else {
        0
    }
}

/// One step down; the position saturates rather than wrapping.
pub fn scroll_down(scroll: u16) -> (r: u16)
    ensures
        r == if scroll < u16::MAX {
            (scroll + 1) as u16
        } else {
            u16::MAX
        },
{
    if scroll < u16::MAX {
        scroll + 1
    } else {
        u16::MAX
    }
}

} // verus!
