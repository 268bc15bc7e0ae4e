//! The markup validator's response, and the findings that count as issues.

#![allow(non_snake_case)]

use crate::text::str_eq;
use vstd::prelude::*;

verus! {

/// The validator's response for one source file.
#[derive(Debug)]
pub struct ValidationResult {
    pub messages: Vec<Message>,
}

/// One validator finding.
#[derive(Debug)]
pub struct Message {
    /// The finding's kind, `"error"` among others.
    pub message_type: String,
    /// A refinement of the kind, such as `"warning"`.
    pub subtype: Option<String>,
    pub lastLine: Option<u32>,
    pub lastColumn: Option<u32>,
    pub firstLine: Option<u32>,
    pub firstColumn: Option<u32>,
    /// The human-readable text of the finding.
    pub message: String,
    pub extract: Option<String>,
    pub hiliteStart: Option<u32>,
    pub hiliteLength: Option<u32>,
}

/// A finding that is reported to the student: an error, or one whose subtype
/// is a warning.
pub open spec fn is_issue(m: Message) -> bool {
    ||| m.message_type@ == "error"@
    ||| (m.subtype is Some && m.subtype->Some_0@ == "warning"@)
}

/// The texts of the issues among `ms`, in their order.
pub open spec fn issue_texts(ms: Seq<Message>) -> Seq<Seq<char>>
    decreases ms.len(),
{
    if ms.len() == 0 {
        Seq::empty()
    } else if is_issue(ms.last()) {
        issue_texts(ms.drop_last()).push(ms.last().message@)
    } else {
        issue_texts(ms.drop_last())
    }
}

/// The views of a list of strings.
pub open spec fn texts(v: Seq<String>) -> Seq<Seq<char>> {
    v.map_values(|s: String| s@)
}

impl Message {
    /// Whether this finding is reported to the student (see `is_issue`).
    pub fn is_issue(&self) -> (r: bool)
        ensures
            r == is_issue(*self),
    {
        if str_eq(self.message_type.as_str(), "error") {
            return true;
        }
        match &self.subtype {
            Some(subtype) => str_eq(subtype.as_str(), "warning"),
            None => false,
        }
    }
}

impl ValidationResult {
    /// The texts of the findings that are errors or warnings, in their order;
    /// every other finding is dropped.
    pub fn issues(&self) -> (r: Vec<String>)
        ensures
            texts(r@) == issue_texts(self.messages@),
    {
        let mut r: Vec<String> = Vec::new();
        let mut i: usize = 0;
        while i < self.messages.len()
            invariant
                i <= self.messages.len(),
                texts(r@) == issue_texts(self.messages@.take(i as int)),
            decreases self.messages.len() - i,
        {
            let ghost before = r@;
            assert(self.messages@.take(i + 1).drop_last() == self.messages@.take(i as int));
            let m = &self.messages[i];
            if m.is_issue() {
                r.push(m.message.clone());
                assert(texts(r@) == texts(before).push(m.message@));
            }
            i = i + 1;
        }
        assert(self.messages@.take(self.messages.len() as int) == self.messages@);
        r
    }
}

} // verus!
