use vstd::prelude::*;

verus! {

/// One entry of an interactive selection: what the user sees, and what a
/// selection of it returns.
#[derive(Debug)]
pub struct PickerItem {
    pub display: String,
    pub value: String,
}

impl PickerItem {
    pub fn new(display: String, value: String) -> (r: PickerItem)
        ensures
            r.display@ == display@,
            r.value@ == value@,
    {
        PickerItem { display, value }
    }
}

/// Presentation options of an interactive selection.
#[derive(Debug)]
pub struct PickerOptions {
    pub prompt: Option<String>,
    pub header: Option<String>,
    pub preview_command: Option<String>,
    pub multi_select: bool,
}

impl Default for PickerOptions {
    fn default() -> (r: PickerOptions)
        ensures
            r.prompt is None,
            r.header is None,
            r.preview_command is None,
            !r.multi_select,
    {
        PickerOptions { prompt: None, header: None, preview_command: None, multi_select: false }
    }
}

/// The identity of the fzf fuzzy finder. The subprocess work it stands for
/// lives outside the library.
#[derive(Debug)]
pub struct FzfPicker;

impl FzfPicker {
    pub fn new() -> (r: FzfPicker) {
        FzfPicker
    }

    pub fn name(&self) -> (r: &'static str)
        ensures
            r@ == "fzf"@,
    {
        "fzf"
    }
}

/// The identity of the skim fuzzy finder. The subprocess work it stands for
/// lives outside the library.
#[derive(Debug)]
pub struct SkimPicker;

impl SkimPicker {
    pub fn new() -> (r: SkimPicker) {
        SkimPicker
    }

    pub fn name(&self) -> (r: &'static str)
        ensures
            r@ == "skim"@,
    {
        "skim"
    }
}

} // verus!
