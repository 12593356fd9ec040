//! The documents that a finished log is exported to: each action's image
//! inline, as a base64 data URL, followed by a line that stands for the key
//! that was pressed; and the names of the files that the images are written to.
//!
//! The documents are made here; writing them is left to the caller.

use crate::action_log::{action_views, Action, ActionView};
use vstd::prelude::*;

verus! {

/// The text that `base64::encode` gives for `bytes`: the standard alphabet,
/// with padding.
pub uninterp spec fn base64_text(bytes: Seq<u8>) -> Seq<char>;

/// Calls `base64::encode`, which encodes with the crate's standard engine.
/// The contract only gives the text its name, `base64_text`.
#[allow(deprecated)]
#[verifier::external_body]
fn base64_of(bytes: &[u8]) -> (text: String)
    ensures
        text@ == base64_text(bytes@),
{
    base64::encode(bytes)
}

/// Calls `String::push_str`: `text` is appended to `document`.
#[verifier::external_body]
fn push_text(document: &mut String, text: &str)
    ensures
        final(document)@ == old(document)@ + text@,
{
    document.push_str(text)
}

/// The line that stands for the key that triggered an action.
pub open spec fn key_line() -> Seq<char> {
    "Press <key>\n"@
}

/// The entry of one action in the Markdown document: its image, inline.
pub open spec fn markdown_entry(action: ActionView) -> Seq<char> {
    "![](data:image/png;base64,"@ + base64_text(action.image) + ")\n"@ + key_line()
}

/// The Markdown document of `actions`: their entries in the order of the log.
pub open spec fn markdown_document(actions: Seq<ActionView>) -> Seq<char>
    decreases actions.len(),
{
    if actions.len() == 0 {
        Seq::empty()
    } else {
        markdown_document(actions.drop_last()) + markdown_entry(actions.last())
    }
}

/// The entry of one action in the HTML document: its image, inline.
pub open spec fn html_entry(action: ActionView) -> Seq<char> {
    "<img src=\"data:image/png;base64,"@ + base64_text(action.image) + "\"/>"@
        + key_line()
}

/// The entries of `actions` in the HTML document, in the order of the log.
pub open spec fn html_entries(actions: Seq<ActionView>) -> Seq<char>
    decreases actions.len(),
{
    if actions.len() == 0 {
        Seq::empty()
    } else {
        html_entries(actions.drop_last()) + html_entry(actions.last())
    }
}

/// The HTML document of `actions`.
pub open spec fn html_document(actions: Seq<ActionView>) -> Seq<char> {
    "<html><body>"@ + html_entries(actions) + "</body></html>"@
}

/// Makes the Markdown document of `actions`.
pub fn markdown(actions: &[Action]) -> (document: String)
    ensures
        document@ == markdown_document(action_views(actions@)),
{
    let mut document = String::new();
    let mut i: usize = 0;
    while i < actions.len()
        invariant
            i <= actions@.len(),
            document@ == markdown_document(action_views(actions@).take(i as int)),
        decreases actions@.len() - i,
    {
        proof {
            assert(action_views(actions@).take(i + 1).drop_last() =~= action_views(actions@).take(i as int));
        }
        let text = base64_of(actions[i].image.as_slice());
        push_text(&mut document, "![](data:image/png;base64,");
        push_text(&mut document, text.as_str());
        push_text(&mut document, ")\n");
        push_text(&mut document, "Press <key>\n");
        i += 1;
    }
    proof {
        assert(action_views(actions@).take(i as int) =~= action_views(actions@));
    }
    document
}

/// Makes the HTML document of `actions`.
pub fn html(actions: &[Action]) -> (document: String)
    ensures
        document@ == html_document(action_views(actions@)),
{
    let mut document = String::new();
    push_text(&mut document, "<html><body>");
    let mut i: usize = 0;
    while i < actions.len()
        invariant
            i <= actions@.len(),
            document@ == "<html><body>"@ + html_entries(action_views(actions@).take(i as int)),
        decreases actions@.len() - i,
    {
        proof {
            assert(action_views(actions@).take(i + 1).drop_last() =~= action_views(actions@).take(i as int));
        }
        let text = base64_of(actions[i].image.as_slice());
        push_text(&mut document, "<img src=\"data:image/png;base64,");
        push_text(&mut document, text.as_str());
        push_text(&mut document, "\"/>");
        push_text(&mut document, "Press <key>\n");
        i += 1;
    }
    proof {
        assert(action_views(actions@).take(i as int) =~= action_views(actions@));
    }
    push_text(&mut document, "</body></html>");
    document
}

/// The decimal digit of `d`.
pub open spec fn digit_char(d: int) -> char {
    if d == 0 {
        '0'
    } else if d == 1 {
        '1'
    } else if d == 2 {
        '2'
    } else if d == 3 {
        '3'
    } else if d == 4 {
        '4'
    } else if d == 5 {
        '5'
    } else if d == 6 {
        '6'
    } else if d == 7 {
        '7'
    } else if d == 8 {
        '8'
    } else {
        '9'
    }
}

/// `n` in decimal, without leading zeros.
pub open spec fn decimal(n: nat) -> Seq<char>
    decreases n,
{
    if n < 10 {
        seq![digit_char(n as int)]
    } else {
        decimal(n / 10).push(digit_char((n % 10) as int))
    }
}

/// `n` in decimal, with zeros in front up to a length of `width`.
pub open spec fn zero_padded(n: nat, width: nat) -> Seq<char> {
    let digits = decimal(n);
    if digits.len() >= width {
        digits
    } else {
        Seq::new((width - digits.len()) as nat, |i: int| '0') + digits
    }
}

/// The name of the file that the image of the action at `index` is written
/// to: the index in at least three digits, and the extension of the format.
pub open spec fn spec_frame_file_name(index: nat) -> Seq<char> {
    zero_padded(index, 3) + ".png"@
}

/// The digit of `d` as text.
fn digit_text(d: usize) -> (text: &'static str)
    requires
        d < 10,
    ensures
        text@ == seq![digit_char(d as int)],
{
    proof {
        reveal_strlit("0");
        reveal_strlit("1");
        reveal_strlit("2");
        reveal_strlit("3");
        reveal_strlit("4");
        reveal_strlit("5");
        reveal_strlit("6");
        reveal_strlit("7");
        reveal_strlit("8");
        reveal_strlit("9");
    }
    if d == 0 {
        "0"
    } else if d == 1 {
        "1"
    } else if d == 2 {
        "2"
    } else if d == 3 {
        "3"
    } else if d == 4 {
        "4"
    } else if d == 5 {
        "5"
    } else if d == 6 {
        "6"
    } else if d == 7 {
        "7"
    } else if d == 8 {
        "8"
    } else {
        "9"
    }
}

/// Appends `n` in decimal to `text`.
fn push_decimal(text: &mut String, n: usize)
    ensures
        final(text)@ == old(text)@ + decimal(n as nat),
    decreases n,
{
    if n >= 10 {
        push_decimal(text, n / 10);
    }
    push_text(text, digit_text(n % 10));
}

/// A number below ten has one digit, one below a hundred has two at most, and
/// every other has three or more.
proof fn lemma_decimal_len(n: nat)
    ensures
        n < 10 ==> decimal(n).len() == 1,
        10 <= n < 100 ==> decimal(n).len() == 2,
        100 <= n ==> decimal(n).len() >= 3,
    decreases n,
{
    if n >= 10 {
        lemma_decimal_len(n / 10);
    }
}

/// Makes the name of the file for the image of the action at `index`.
pub fn frame_file_name(index: usize) -> (name: String)
    ensures
        name@ == spec_frame_file_name(index as nat),
{
    let mut name = String::new();
    proof {
        reveal_strlit("00");
        reveal_strlit("0");
        lemma_decimal_len(index as nat);
    }
    if index < 10 {
        push_text(&mut name, "00");
    } else if index < 100 {
        push_text(&mut name, "0");
    }
    push_decimal(&mut name, index);
    push_text(&mut name, ".png");
    name
}

} // verus!
