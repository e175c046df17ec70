//! Localized text for the tray menu entries.
use vstd::prelude::*;
use crate::text::str_eq;

verus! {

/// The text the menu shows for `key` in `language`: English for "en",
/// Japanese otherwise, and a fallback marker for unknown keys.
pub open spec fn menu_text(language: Seq<char>, key: Seq<char>) -> Seq<char> {
    if language == "en"@ && key == "show_floating"@ {
        "Show Floating Window"@
    } else if language == "en"@ && key == "quit"@ {
        "Quit"@
    } else if key == "show_floating"@ {
        "フローティングウィンドウを表示"@
    } else if key == "quit"@ {
        "終了"@
    } else {
        "Unknown"@
    }
}

/// The menu entry text for `key` in `language`.
pub fn get_menu_text(language: &str, key: &str) -> (r: &'static str)
    ensures
        r@ == menu_text(language@, key@),
{
    let en = str_eq(language, "en");
    if en && str_eq(key, "show_floating") {
        "Show Floating Window"
    } else if en && str_eq(key, "quit") {
        "Quit"
    } else if str_eq(key, "show_floating") {
        "フローティングウィンドウを表示"
    } else if str_eq(key, "quit") {
        "終了"
    } else {
        "Unknown"
    }
}

} // verus!
