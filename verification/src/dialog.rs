//! Native dialog decisions: assembling the message text, choosing the
//! flag each dialog tool needs, and mapping a tool's answer back to the
//! index of the chosen button. The shell spawns the tools and hands their
//! answers here.

use vstd::prelude::*;

use crate::chars::str_eq;

verus! {

/// What kind of dialog to show.
#[derive(Clone, Copy, Debug, PartialEq, Eq, Structural)]
pub enum DialogKind {
    Error,
    Warning,
    Info,
}

/// What a dialog shows: its kind, a title, a message, an optional detail
/// text, and the labels of its buttons, first button first.
#[derive(Debug)]
pub struct DialogOptions {
    pub kind: DialogKind,
    pub title: String,
    pub message: String,
    pub detail: Option<String>,
    pub buttons: Vec<String>,
}

/// The text a dialog displays: the message and the detail joined by a
/// blank line; the detail alone when the message is empty; the message
/// alone when there is no detail.
pub open spec fn dialog_message_spec(message: Seq<char>, detail: Option<Seq<char>>) -> Seq<char> {
    match detail {
        Some(d) => if message.len() > 0 {
            message + "\n\n"@ + d
        } else {
            d
        },
        None => message,
    }
}

/// Assemble the text a dialog displays.
pub fn build_message(options: &DialogOptions) -> (r: String)
    ensures
        r@ == dialog_message_spec(
            options.message@,
            (match options.detail {
                Some(d) => Some(d@),
                None => None,
            }),
        ),
{
    match &options.detail {
        Some(detail) => {
            if options.message.as_str().unicode_len() > 0 {
                let mut out = String::new();
                out.append(options.message.as_str());
                out.append("\n\n");
                out.append(detail.as_str());
                out
            } else {
                let mut out = String::new();
                out.append(detail.as_str());
                proof {
                    assert(Seq::<char>::empty() + detail@ =~= detail@);
                }
                out
            }
        },
        None => {
            let mut out = String::new();
            out.append(options.message.as_str());
            proof {
                assert(Seq::<char>::empty() + options.message@ =~= options.message@);
            }
            out
        },
    }
}

/// The mode flag the `zenity` tool takes for a single-button dialog of a
/// kind.
pub open spec fn zenity_flag_spec(kind: DialogKind) -> Seq<char> {
    match kind {
        DialogKind::Error => "--error"@,
        DialogKind::Warning => "--warning"@,
        DialogKind::Info => "--info"@,
    }
}

/// Choose the `zenity` mode flag for a dialog kind.
pub fn zenity_kind_flag(kind: DialogKind) -> (r: &'static str)
    ensures
        r@ == zenity_flag_spec(kind),
{
    match kind {
        DialogKind::Error => "--error",
        DialogKind::Warning => "--warning",
        DialogKind::Info => "--info",
    }
}

/// The mode flag the `kdialog` tool takes for a single-button dialog of a
/// kind.
pub open spec fn kdialog_flag_spec(kind: DialogKind) -> Seq<char> {
    match kind {
        DialogKind::Error => "--error"@,
        DialogKind::Warning => "--sorry"@,
        DialogKind::Info => "--msgbox"@,
    }
}

/// Choose the `kdialog` mode flag for a dialog kind.
pub fn kdialog_kind_flag(kind: DialogKind) -> (r: &'static str)
    ensures
        r@ == kdialog_flag_spec(kind),
{
    match kind {
        DialogKind::Error => "--error",
        DialogKind::Warning => "--sorry",
        DialogKind::Info => "--msgbox",
    }
}

/// The button index a `kdialog` exit code stands for: codes zero to two
/// name the first three buttons; anything else falls back to the first.
pub open spec fn kdialog_index_spec(code: Option<i32>) -> int {
    match code {
        Some(0) => 0,
        Some(1) => 1,
        Some(2) => 2,
        _ => 0,
    }
}

/// Map a `kdialog` exit code to the chosen button index.
pub fn kdialog_code_to_index(code: Option<i32>) -> (r: usize)
    ensures
        r == kdialog_index_spec(code),
{
    match code {
        Some(0) => 0,
        Some(1) => 1,
        Some(2) => 2,
        _ => 0,
    }
}

/// The labels of a button list, as character sequences.
pub open spec fn button_labels(buttons: Seq<String>) -> Seq<Seq<char>> {
    buttons.map_values(|b: String| b@)
}

/// The button index a multi-button `zenity` run stands for: success means
/// the first button; otherwise, with more than two buttons, an extra
/// button whose label the tool printed names its own index — the first
/// such button in order; otherwise the second button.
pub open spec fn zenity_index_spec(
    success: bool,
    printed: Seq<char>,
    buttons: Seq<Seq<char>>,
) -> int
    decreases buttons.len(),
{
    if success {
        0
    } else if buttons.len() > 2 {
        zenity_extra_index(printed, buttons, 2)
    } else {
        1
    }
}

/// The first index at or after `from` whose button label equals the
/// printed text, or `1` when none does.
pub open spec fn zenity_extra_index(printed: Seq<char>, buttons: Seq<Seq<char>>, from: int) -> int
    decreases buttons.len() - from,
{
    if from < 2 || from >= buttons.len() {
        1
    } else if buttons[from] == printed {
        from
    } else {
        zenity_extra_index(printed, buttons, from + 1)
    }
}

/// Map a multi-button `zenity` run's outcome — whether the tool exited
/// successfully, and what it printed, trimmed — to the chosen button
/// index.
pub fn zenity_result_index(success: bool, printed: &str, buttons: &Vec<String>) -> (r: usize)
    ensures
        r == zenity_index_spec(success, printed@, button_labels(buttons@)),
{
    let ghost labels = button_labels(buttons@);
    if success {
        return 0;
    }
    let n = buttons.len();
    if n > 2 {
        let mut i: usize = 2;
        while i < n
            invariant
                n == buttons@.len(),
                2 <= i <= n,
                n > 2,
                !success,
                labels == button_labels(buttons@),
                zenity_extra_index(printed@, labels, 2) == zenity_extra_index(
                    printed@,
                    labels,
                    i as int,
                ),
            decreases n - i,
        {
            proof {
                assert(labels.len() == buttons@.len());
                assert(labels[i as int] == buttons@[i as int]@);
            }
            if str_eq(buttons[i].as_str(), printed) {
                proof {
                    assert(labels[i as int] == printed@);
                    assert(zenity_extra_index(printed@, labels, i as int) == i as int);
                    assert(zenity_extra_index(printed@, labels, 2) == i as int);
                    assert(labels.len() > 2);
                    assert(!success);
                    assert(zenity_index_spec(success, printed@, labels) == i as int);
                }
                return i;
            }
            i = i + 1;
        }
        1
    } else {
        1
    }
}

/// The `MessageBox` style bits for a dialog kind (`MB_ICONERROR`,
/// `MB_ICONWARNING`, `MB_ICONINFORMATION`).
pub open spec fn message_box_kind_flag_spec(kind: DialogKind) -> u32 {
    match kind {
        DialogKind::Error => 0x10u32,
        DialogKind::Warning => 0x30u32,
        DialogKind::Info => 0x40u32,
    }
}

/// The `MessageBox` button bits for a button count: one button shows OK,
/// two show OK and Cancel, more show Yes, No and Cancel.
pub open spec fn message_box_button_flag_spec(button_count: int) -> u32 {
    if button_count <= 1 {
        0x0u32
    } else if button_count == 2 {
        0x1u32
    } else {
        0x3u32
    }
}

/// Choose the `MessageBox` style bits for a dialog.
pub fn message_box_flags(kind: DialogKind, button_count: usize) -> (r: u32)
    ensures
        r == message_box_kind_flag_spec(kind) | message_box_button_flag_spec(button_count as int),
{
    let kind_flag: u32 = match kind {
        DialogKind::Error => 0x10,
        DialogKind::Warning => 0x30,
        DialogKind::Info => 0x40,
    };
    let button_flag: u32 = if button_count <= 1 {
        0x0
    } else if button_count == 2 {
        0x1
    } else {
        0x3
    };
    kind_flag | button_flag
}

/// The button index a `MessageBox` answer stands for: OK and Yes name the
/// first button, Cancel the last when there are at least two, No the
/// second; anything else falls back to the first.
pub open spec fn message_box_index_spec(result: i32, button_count: int) -> int {
    if result == 1 {
        0
    } else if result == 2 {
        if button_count >= 2 {
            button_count - 1
        } else {
            0
        }
    } else if result == 6 {
        0
    } else if result == 7 {
        1
    } else {
        0
    }
}

/// Map a `MessageBox` answer to the chosen button index.
pub fn message_box_result_to_index(result: i32, button_count: usize) -> (r: usize)
    ensures
        r == message_box_index_spec(result, button_count as int),
{
    if result == 1 {
        0
    } else if result == 2 {
        if button_count >= 2 {
            button_count - 1
        } else {
            0
        }
    } else if result == 6 {
        0
    } else if result == 7 {
        1
    } else {
        0
    }
}

} // verus!
