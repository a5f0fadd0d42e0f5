//! The language of the desktop app's texts.

use vstd::prelude::*;
use crate::text::chars_of;

verus! {

/// The languages the app's texts come in.
#[derive(Debug, Clone, Copy, PartialEq, Eq, Structural)]
pub enum Language {
    English,
    French,
}

/// French for a locale that starts with `fr` (such as `fr-FR`), English
/// otherwise, an unknown locale (empty) included.
pub fn language_for_locale(locale: &str) -> (l: Language)
    ensures
        l == (if "fr"@.is_prefix_of(locale@) { Language::French } else { Language::English }),
{
    proof {
        reveal_strlit("fr");
    }
    let chars = chars_of(locale);
    if chars.len() >= 2 && chars[0] == 'f' && chars[1] == 'r' {
        assert("fr"@.is_prefix_of(locale@));
        Language::French
    } else {
        assert(!"fr"@.is_prefix_of(locale@)) by {
            if "fr"@.is_prefix_of(locale@) {
                assert(locale@[0] == "fr"@[0]);
                assert(locale@[1] == "fr"@[1]);
            }
        }
        Language::English
    }
}

} // verus!
