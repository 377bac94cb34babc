use vstd::prelude::*;

verus! {

/// A comment attached to the lines `start..=end` of a file.
#[derive(Debug, Clone, PartialEq, Eq)]
pub struct CommentRange {
    pub id: i64,
    pub file: String,
    pub start: i64,
    pub end: i64,
    pub text: String,
}

/// The mathematical value of a [`CommentRange`].
pub ghost struct RangeView {
    pub id: int,
    pub file: Seq<char>,
    pub start: int,
    pub end: int,
    pub text: Seq<char>,
}

impl View for CommentRange {
    type V = RangeView;

    open spec fn view(&self) -> RangeView {
        RangeView {
            id: self.id as int,
            file: self.file@,
            start: self.start as int,
            end: self.end as int,
            text: self.text@,
        }
    }
}

impl CommentRange {
    /// The range belongs to `file` and its closed interval holds `line`.
    pub open spec fn covers(self, file: Seq<char>, line: int) -> bool {
        &&& self.file@ == file
        &&& self.start <= line <= self.end
    }

    pub fn new(id: i64, file: &str, start: i64, end: i64, text: &str) -> (r: CommentRange)
        ensures
            r@ == (RangeView { id: id as int, file: file@, start: start as int, end: end as int, text: text@ }),
    {
        CommentRange { id, file: file.to_owned(), start, end, text: text.to_owned() }
    }

    pub fn covers_line(&self, file: &String, line: i64) -> (r: bool)
        ensures
            r == self.covers(file@, line as int),
    {
        self.start <= line && line <= self.end && self.file == *file
    }

    /// A field-by-field copy, equal to the original.
    pub fn duplicate(&self) -> (r: CommentRange)
        ensures
            r == *self,
    {
        CommentRange {
            id: self.id,
            file: self.file.clone(),
            start: self.start,
            end: self.end,
            text: self.text.clone(),
        }
    }
}

} // verus!
