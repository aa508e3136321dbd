//! `defkeybind`: a `(mode, key) → action` binding.

use vstd::prelude::*;

verus! {

/// One `(defkeybind …)` form.
#[derive(Debug, Clone, PartialEq, Eq, Default)]
pub struct KeybindSpec {
    /// Which mode the binding lives in; unknown modes are rejected.
    pub mode: String,
    /// The key or key sequence (single char or `<Name>` form).
    pub key: String,
    /// The action name the keymap invokes on match.
    pub action: String,
    /// Optional description for the which-key popup.
    pub description: String,
}

} // verus!
