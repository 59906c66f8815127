//! Messages broadcast within the interface.
use vstd::prelude::*;

pub use crate::bridge::CurrentDirectoryChanged;

verus! {

#[derive(Clone, Copy, Debug, Default)]
pub struct ViewStateReset;

#[derive(Clone, Copy, Debug, Default)]
pub struct UpdatePreview;

#[derive(Clone, Copy, Debug, Default)]
pub struct UpdateLocationText;

#[derive(Clone, Copy, Debug, Default)]
pub struct PreviewPathChanged;

/// The location text cut in three around the selected character.
#[derive(Clone, Debug)]
pub struct LocationSelectionUpdated {
    pub before: String,
    pub selected: String,
    pub after: String,
}

impl LocationSelectionUpdated {
    pub fn new(before: String, selected: String, after: String) -> (r: LocationSelectionUpdated)
        ensures
            r.before == before,
            r.selected == selected,
            r.after == after,
    {
        LocationSelectionUpdated { before, selected, after }
    }

    /// The whole text, nothing selected.
    pub fn new_no_selection(text: String) -> (r: LocationSelectionUpdated)
        ensures
            r.before == text,
            r.selected@ == Seq::<char>::empty(),
            r.after@ == Seq::<char>::empty(),
    {
        LocationSelectionUpdated { before: text, selected: String::new(), after: String::new() }
    }

    /// `input` cut before its character at `index` and after it; past the
    /// end, everything is before and nothing is selected.
    pub fn split_at(input: &str, index: usize) -> (r: LocationSelectionUpdated)
        ensures
            ({
                let n = input@.len() as int;
                let a = if index < n { index as int } else { n };
                let b = if index < n { index + 1 } else { n };
                r.before@ == input@.subrange(0, a) && r.selected@ == input@.subrange(a, b)
                    && r.after@ == input@.subrange(b, n)
            }),
            r.before@ + r.selected@ + r.after@ == input@,
    {
        let n = input.unicode_len();
        let a = if index < n {
            index
        } else {
            n
        };
        let b = if index < n {
            index + 1
        } else {
            n
        };
        let r = LocationSelectionUpdated {
            before: String::from_str(input.substring_char(0, a)),
            selected: String::from_str(input.substring_char(a, b)),
            after: String::from_str(input.substring_char(b, n)),
        };
        assert(r.before@ + r.selected@ + r.after@ =~= input@);
        r
    }
}

} // verus!
