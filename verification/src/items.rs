//! Request shapes for the resource handlers, with their validation rules.
//! Persistence itself is an external concern; only the rules live here.

use vstd::prelude::*;
use vstd::string::StrSliceExecFns;

verus! {

/// Payload for creating an item.
pub struct CreateItem {
    pub title: String,
    pub description: Option<String>,
}

/// Payload for updating an item; absent fields stay unchanged.
pub struct UpdateItem {
    pub title: Option<String>,
    pub description: Option<String>,
    pub status: Option<String>,
}

impl CreateItem {
    /// The title must be between 1 and 255 characters.
    pub fn validate(&self) -> (r: bool)
        ensures
            r == (1 <= self.title@.len() <= 255),
    {
        let n = self.title.as_str().unicode_len();
        1 <= n && n <= 255
    }
}

impl UpdateItem {
    /// A title, when given, must be between 1 and 255 characters.
    pub fn validate(&self) -> (r: bool)
        ensures
            r == (match self.title {
                Some(t) => 1 <= t@.len() <= 255,
                None => true,
            }),
    {
        match &self.title {
            Some(t) => {
                let n = t.as_str().unicode_len();
                1 <= n && n <= 255
            },
            None => true,
        }
    }
}

} // verus!
