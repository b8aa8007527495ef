//! Which windows the helper acts on: desktop-shell surfaces are never
//! touched, and the user can exclude applications by name.

use vstd::prelude::*;
use crate::config::EdgeHideConfig;
use crate::geometry::{Rect, WindowInfo};
use crate::text::{
    contains_text, lowercase_of, text_contains, text_eq, to_lowercase_string, trim_spec,
    trim_to_string,
};

verus! {

pub open spec fn shell_process(p: Seq<char>) -> bool {
    ||| p == "shellexperiencehost.exe"@
    ||| p == "shellexperiencehost"@
    ||| p == "startmenuexperiencehost.exe"@
    ||| p == "startmenuexperiencehost"@
    ||| p == "searchhost.exe"@
    ||| p == "searchhost"@
    ||| p == "textinputhost.exe"@
    ||| p == "textinputhost"@
    ||| p == "widgets.exe"@
    ||| p == "widgets"@
    ||| p == "lockapp.exe"@
    ||| p == "lockapp"@
}

pub open spec fn shell_class(c: Seq<char>) -> bool {
    ||| c == "progman"@
    ||| c == "workerw"@
    ||| c == "shell_traywnd"@
    ||| c == "shell_secondarytraywnd"@
    ||| c == "controlcenterwindow"@
    ||| c == "xamlexplorerhostislandwindow_wasdk"@
    ||| c == "notifyiconoverflowwindow"@
    ||| c == "toplevelwindowforoverflowxamlisland"@
    ||| c == "edgeuiinputtopwndclass"@
}

/// Task bar, start menu, search, widgets, lock screen, desktop and the
/// untitled Explorer frame host, given lower-case process, title and class.
pub open spec fn system_shell_surface_spec(p: Seq<char>, t: Seq<char>, c: Seq<char>) -> bool {
    ||| shell_process(p)
    ||| shell_class(c)
    ||| ((p == "explorer.exe"@ || p == "explorer"@) && c == "applicationframewindow"@
        && trim_spec(t).len() == 0)
}

fn is_shell_process(p: &str) -> (r: bool)
    ensures
        r == shell_process(p@),
{
    text_eq(p, "shellexperiencehost.exe") || text_eq(p, "shellexperiencehost") || text_eq(
        p,
        "startmenuexperiencehost.exe",
    ) || text_eq(p, "startmenuexperiencehost") || text_eq(p, "searchhost.exe") || text_eq(
        p,
        "searchhost",
    ) || text_eq(p, "textinputhost.exe") || text_eq(p, "textinputhost") || text_eq(
        p,
        "widgets.exe",
    ) || text_eq(p, "widgets") || text_eq(p, "lockapp.exe") || text_eq(p, "lockapp")
}

fn is_shell_class(c: &str) -> (r: bool)
    ensures
        r == shell_class(c@),
{
    text_eq(c, "progman") || text_eq(c, "workerw") || text_eq(c, "shell_traywnd") || text_eq(
        c,
        "shell_secondarytraywnd",
    ) || text_eq(c, "controlcenterwindow") || text_eq(c, "xamlexplorerhostislandwindow_wasdk")
        || text_eq(c, "notifyiconoverflowwindow") || text_eq(
        c,
        "toplevelwindowforoverflowxamlisland",
    ) || text_eq(c, "edgeuiinputtopwndclass")
}

pub fn is_system_shell_surface(process: &str, title: &str, class_name: &str) -> (r: bool)
    ensures
        r == system_shell_surface_spec(process@, title@, class_name@),
{
    if is_shell_process(process) {
        return true;
    }
    is_shell_class(class_name) || ((text_eq(process, "explorer.exe") || text_eq(
        process,
        "explorer",
    )) && text_eq(class_name, "applicationframewindow") && trim_to_string(title).as_str().is_empty())
}

/// A lower-cased exclusion entry names the window: it is not empty and occurs
/// in its lower-cased process name, title or class.
pub open spec fn name_matches(item: Seq<char>, p: Seq<char>, t: Seq<char>, c: Seq<char>) -> bool {
    item.len() > 0 && (contains_text(p, item) || contains_text(t, item) || contains_text(c, item))
}

/// Some entry of `list`, lower-cased, names the window whose lower-cased
/// process name, title and class are given.
pub open spec fn listed_spec(list: Seq<String>, p: Seq<char>, t: Seq<char>, c: Seq<char>) -> bool {
    exists|i: int| 0 <= i < list.len() && name_matches(lowercase_of(#[trigger] list[i]@), p, t, c)
}

pub fn is_listed(list: &Vec<String>, p: &str, t: &str, c: &str) -> (r: bool)
    ensures
        r == listed_spec(list@, p@, t@, c@),
{
    let mut i: usize = 0;
    while i < list.len()
        invariant
            i <= list@.len(),
            forall|j: int|
                0 <= j < i ==> !name_matches(lowercase_of(#[trigger] list@[j]@), p@, t@, c@),
        decreases list@.len() - i,
    {
        let item = to_lowercase_string(list[i].as_str());
        if !item.as_str().is_empty() && (text_contains(p, item.as_str()) || text_contains(
            t,
            item.as_str(),
        ) || text_contains(c, item.as_str())) {
            return true;
        }
        i += 1;
    }
    false
}

/// A window that edge hiding may take at `rect`: a sizeable, ordinary
/// top-level window (not transient, snapped or maximized), not part of the
/// desktop shell and not excluded by name.
pub open spec fn candidate_spec(window: WindowInfo, rect: Rect, config: EdgeHideConfig) -> bool {
    let p = lowercase_of(window.process_name@);
    let t = lowercase_of(window.title@);
    let c = lowercase_of(window.class_name@);
    &&& !window.transient
    &&& !window.arranged
    &&& !window.maximized
    &&& rect.right - rect.left >= 120
    &&& rect.bottom - rect.top >= 80
    &&& !system_shell_surface_spec(p, t, c)
    &&& !listed_spec(config.excluded_apps@, p, t, c)
}

pub fn is_candidate_window_at(window: &WindowInfo, rect: Rect, config: &EdgeHideConfig) -> (r: bool)
    requires
        rect.valid(),
    ensures
        r == candidate_spec(*window, rect, *config),
{
    if window.transient || window.arranged || window.maximized || rect.right - rect.left < 120
        || rect.bottom - rect.top < 80 {
        return false;
    }
    let process = to_lowercase_string(window.process_name.as_str());
    let title = to_lowercase_string(window.title.as_str());
    let class_name = to_lowercase_string(window.class_name.as_str());
    if is_system_shell_surface(process.as_str(), title.as_str(), class_name.as_str()) {
        return false;
    }
    !is_listed(&config.excluded_apps, process.as_str(), title.as_str(), class_name.as_str())
}

pub fn is_candidate_window(window: &WindowInfo, config: &EdgeHideConfig) -> (r: bool)
    requires
        window.rect.valid(),
    ensures
        r == candidate_spec(*window, window.rect, *config),
{
    is_candidate_window_at(window, window.rect, config)
}

} // verus!
