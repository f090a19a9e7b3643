//! Paths as text, with `/` between their parts.
use vstd::prelude::*;
use vstd::string::*;

verus! {

/// The path that stands for `component` seen from `base`.
///
/// A component that starts with `/` is a path from the root and stands for
/// itself. Any other component is put behind `base`, after a `/` where `base`
/// is not empty and does not end with one.
pub open spec fn joined(base: Seq<char>, component: Seq<char>) -> Seq<char> {
    if component.len() > 0 && component[0] == '/' {
        component
    } else if base.len() > 0 && base.last() != '/' {
        base + seq!['/'] + component
    } else {
        base + component
    }
}

/// No `/` stands in `s`.
pub open spec fn no_separator(s: Seq<char>) -> bool {
    forall|i: int| 0 <= i < s.len() ==> #[trigger] s[i] != '/'
}

/// The path of `component` seen from `base`.
pub fn join(base: &str, component: &str) -> (path: String)
    ensures
        path@ == joined(base@, component@),
{
    let base_len: usize = base.unicode_len();
    let component_len: usize = component.unicode_len();
    if component_len > 0 && component.get_char(0) == '/' {
        String::from_str(component)
    } else if base_len > 0 && base.get_char(base_len - 1) != '/' {
        proof {
            reveal_strlit("/");
        }
        let mut path = String::from_str(base);
        path.append("/");
        path.append(component);
        assert("/"@ =~= seq!['/']);
        path
    } else {
        let mut path = String::from_str(base);
        path.append(component);
        path
    }
}

} // verus!
