//! The user's settings: backends to leave out, and the order in which
//! `install` tries backends.
use vstd::prelude::*;
use vstd::string::*;
use crate::text::{eq_ignore_ascii_case, eq_ignore_ascii_case_slice, chars_of};

verus! {

/// The settings read from `~/.config/yroz/config.toml`.
#[derive(Clone, Debug)]
pub struct YrozConfig {
    /// Backends that are never used (names compared ignoring ASCII case).
    pub disabled_backends: Vec<String>,
    /// The order in which `install` tries backends; empty for the built-in order.
    pub priority: Vec<String>,
}

/// `name` is among the disabled backends, ignoring ASCII case.
pub open spec fn is_disabled_in(disabled: Seq<Seq<char>>, name: Seq<char>) -> bool {
    exists|i: int| 0 <= i < disabled.len() && eq_ignore_ascii_case(#[trigger] disabled[i], name)
}

impl YrozConfig {
    /// No backend disabled and the built-in priority order.
    pub fn default() -> (c: Self)
        ensures
            c.disabled_backends@.len() == 0,
            c.priority@.len() == 0,
    {
        YrozConfig { disabled_backends: Vec::new(), priority: Vec::new() }
    }

    /// The backend called `name` is disabled.
    pub fn is_disabled(&self, name: &str) -> (b: bool)
        ensures
            b == is_disabled_in(self.disabled_backends.deep_view(), name@),
    {
        let n = chars_of(name);
        let mut i: usize = 0;
        while i < self.disabled_backends.len()
            invariant
                i <= self.disabled_backends@.len(),
                n@ == name@,
                forall|j: int|
                    0 <= j < i ==> !eq_ignore_ascii_case(
                        #[trigger] self.disabled_backends.deep_view()[j],
                        name@,
                    ),
            decreases self.disabled_backends@.len() - i,
        {
            let d = chars_of(self.disabled_backends[i].as_str());
            if eq_ignore_ascii_case_slice(d.as_slice(), n.as_slice()) {
                assert(self.disabled_backends.deep_view()[i as int] == d@);
                return true;
            }
            i = i + 1;
        }
        false
    }
}

} // verus!
