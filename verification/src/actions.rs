//! What an action needs before it can run, and what toggling a window's
//! topmost state reports.

use vstd::prelude::*;
use crate::config::{ActionKind, HotzoneAction};
use crate::config_normalize::trimmed_text;
use crate::config::text_of;
use crate::text::{trim_spec, trimmed};
use vstd::string::*;

verus! {

/// The trimmed value of an action that needs one (a shortcut, a volume
/// step, a command, a host action), or nothing when it is missing or blank.
pub fn required_value<'a>(action: &'a HotzoneAction) -> (r: Option<&'a str>)
    ensures
        match r {
            Some(v) => trimmed_text(text_of(action.value)) == Some(v@),
            None => trimmed_text(text_of(action.value)) is None,
        },
{
    match &action.value {
        Some(value) => {
            let t = trimmed(value.as_str());
            if t.is_empty() {
                None
            } else {
                Some(t)
            }
        },
        None => None,
    }
}

/// The kinds of action that carry a value: a shortcut, a volume step, a
/// command and a host action.
pub open spec fn needs_value(kind: ActionKind) -> bool {
    kind == ActionKind::Shortcut || kind == ActionKind::VolumeAdjust || kind
        == ActionKind::OpenCommand || kind == ActionKind::HostAction
}

/// An action of a kind that carries a value came without one.
#[derive(Clone, Copy, Debug, PartialEq, Eq, Structural)]
pub struct MissingValue {
    pub kind: ActionKind,
}

/// Checks an action before it runs: the trimmed value of a kind that carries
/// one, nothing for the other kinds, and an error where the value is missing
/// or blank.
pub fn action_value<'a>(action: &'a HotzoneAction) -> (r: Result<Option<&'a str>, MissingValue>)
    ensures
        !needs_value(action.kind) ==> r == Ok::<Option<&'a str>, MissingValue>(None),
        needs_value(action.kind) ==> match r {
            Ok(Some(v)) => trimmed_text(text_of(action.value)) == Some(v@),
            Ok(None) => false,
            Err(e) => e.kind == action.kind && trimmed_text(text_of(action.value)) is None,
        },
{
    let needed = match action.kind {
        ActionKind::Shortcut | ActionKind::VolumeAdjust | ActionKind::OpenCommand
        | ActionKind::HostAction => true,
        _ => false,
    };
    if !needed {
        return Ok(None);
    }
    match required_value(action) {
        Some(v) => Ok(Some(v)),
        None => Err(MissingValue { kind: action.kind }),
    }
}

/// The status line reported after toggling the topmost state of a window:
/// with the window's title, or a plain line where the title is blank.
pub open spec fn topmost_message_spec(title: Seq<char>, topmost: bool) -> Seq<char> {
    if trim_spec(title).len() == 0 {
        if topmost {
            "窗口已置顶"@
        } else {
            "窗口已取消置顶"@
        }
    } else if topmost {
        "已置顶："@ + title
    } else {
        "已取消置顶："@ + title
    }
}

pub fn topmost_message(title: &str, topmost: bool) -> (r: String)
    ensures
        r@ == topmost_message_spec(title@, topmost),
{
    if trimmed(title).is_empty() {
        if topmost {
            "窗口已置顶".to_owned()
        } else {
            "窗口已取消置顶".to_owned()
        }
    } else if topmost {
        "已置顶：".to_owned().concat(title)
    } else {
        "已取消置顶：".to_owned().concat(title)
    }
}

} // verus!
