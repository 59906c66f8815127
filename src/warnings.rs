//! Which log events are warnings of the scene loader, passed on to the
//! application.
use vstd::prelude::*;

verus! {

pub open spec fn contains(hay: Seq<char>, needle: Seq<char>) -> bool {
    exists|i: int|
        0 <= i && i + needle.len() <= hay.len() && #[trigger] hay.subrange(i, i + needle.len())
            == needle
}

/// Whether `needle` occurs in `hay`.
pub fn contains_text(hay: &str, needle: &str) -> (r: bool)
    ensures
        r == contains(hay@, needle@),
{
    let n = hay.unicode_len();
    let m = needle.unicode_len();
    if m > n {
        return false;
    }
    let target = String::from_str(needle);
    let mut i: usize = 0;
    while i <= n - m
        invariant
            n == hay@.len(),
            m == needle@.len(),
            m <= n,
            i <= n - m + 1,
            target@ == needle@,
            forall|j: int| 0 <= j < i ==> #[trigger] hay@.subrange(j, j + m) != needle@,
        decreases n - m + 1 - i,
    {
        let part = String::from_str(hay.substring_char(i, i + m));
        if part == target {
            return true;
        }
        if i == n - m {
            return false;
        }
        i = i + 1;
    }
    false
}

/// The module whose warnings are passed on.
pub open spec fn extract_module() -> Seq<char> {
    "bevy_cobweb_ui_core::extract"@
}

/// A warning whose module (or, without one, whose target) names the
/// scene loader's extraction module.
pub fn is_cobweb_warning(is_warn: bool, module: Option<&str>, target: &str) -> (r: bool)
    ensures
        r == (is_warn && contains(
            match module {
                Some(m) => m@,
                None => target@,
            },
            extract_module(),
        )),
{
    if !is_warn {
        return false;
    }
    let source = match module {
        Some(m) => m,
        None => target,
    };
    contains_text(source, "bevy_cobweb_ui_core::extract")
}

} // verus!
