//! Block devices as the device lister reports them, and the drives offered
//! as targets.

use vstd::prelude::*;
use vstd::string::*;
use crate::text::str_eq;

verus! {

/// A whole disk that can be written.
#[derive(Debug, Clone)]
pub struct Drive {
    /// Device node, e.g. `/dev/sda`.
    pub name: String,
    /// Human-readable model, label and size.
    pub description: String,
    pub size: u64,
    pub removable: bool,
    pub readonly: bool,
    /// Mount points of the disk and of its partitions.
    pub mountpoints: Vec<String>,
}

pub const ROOT_MOUNT: &'static str = "/";

/// Whether some mount point in `mounts` is the root file system.
pub open spec fn mounts_root(mounts: Seq<String>) -> bool {
    exists|i: int| 0 <= i < mounts.len() && (#[trigger] mounts[i])@ == ROOT_MOUNT@
}

impl Drive {
    /// A drive that holds the root file system is the system's own disk and
    /// must not be offered as a target.
    pub fn is_system(&self) -> (r: bool)
        ensures
            r == mounts_root(self.mountpoints@),
    {
        let mut i: usize = 0;
        while i < self.mountpoints.len()
            invariant
                i <= self.mountpoints@.len(),
                forall|j: int| 0 <= j < i ==> (#[trigger] self.mountpoints@[j])@ != ROOT_MOUNT@,
            decreases self.mountpoints@.len() - i,
        {
            if str_eq(self.mountpoints[i].as_str(), ROOT_MOUNT) {
                return true;
            }
            i = i + 1;
        }
        false
    }
}

/// A flag column of the device lister, as its JSON gives it.
#[derive(Debug, Clone)]
pub enum FlagValue {
    Missing,
    Bool(bool),
    Text(String),
    /// A number, with its value when it fits an `i64`.
    Number(Option<i64>),
}

/// What `str::to_lowercase` makes of a text.
pub uninterp spec fn lowercase_of(s: Seq<char>) -> Seq<char>;

/// Relies on `str::to_lowercase`.
#[verifier::external_body]
fn to_lowercase(s: &str) -> (r: String)
    ensures
        r@ == lowercase_of(s@),
{
    s.to_lowercase()
}

pub const ONE: &'static str = "1";

pub const TRUE: &'static str = "true";

/// Whether a flag column says yes: `true`, the number 1, or the text `1` or
/// `true` in any case.
pub open spec fn flag_set(v: FlagValue) -> bool {
    match v {
        FlagValue::Missing => false,
        FlagValue::Bool(b) => b,
        FlagValue::Text(s) => s@ == ONE@ || lowercase_of(s@) == TRUE@,
        FlagValue::Number(n) => n == Some(1i64),
    }
}

pub fn is_true(v: &FlagValue) -> (r: bool)
    ensures
        r == flag_set(*v),
{
    match v {
        FlagValue::Missing => false,
        FlagValue::Bool(b) => *b,
        FlagValue::Text(s) => {
            if str_eq(s.as_str(), ONE) {
                true
            } else {
                let lower = to_lowercase(s.as_str());
                str_eq(lower.as_str(), TRUE)
            }
        },
        FlagValue::Number(n) => match n {
            Some(x) => *x == 1,
            None => false,
        },
    }
}

} // verus!
