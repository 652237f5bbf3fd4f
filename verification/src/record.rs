//! Records as the indexer reads them: the three members of a record payload that decide
//! what is indexed.

use vstd::prelude::*;

verus! {

/// A member of a record payload: absent, a text, or a value of another kind.
#[derive(Debug)]
pub enum Field {
    Absent,
    Other,
    Text(String),
}

/// Mathematical value of a [`Field`].
pub ghost enum FieldView {
    Absent,
    Other,
    Text(Seq<char>),
}

impl FieldView {
    /// The text of the member, empty where it holds none.
    pub open spec fn text_or_empty(self) -> Seq<char> {
        match self {
            FieldView::Text(t) => t,
            _ => Seq::empty(),
        }
    }

    /// The payload has this member, whatever its kind.
    pub open spec fn is_present(self) -> bool {
        !(self is Absent)
    }
}

impl View for Field {
    type V = FieldView;

    open spec fn view(&self) -> FieldView {
        match self {
            Field::Absent => FieldView::Absent,
            Field::Other => FieldView::Other,
            Field::Text(t) => FieldView::Text(t@),
        }
    }
}

impl Field {
    /// The text of the member, empty where it holds none.
    pub fn text_or_empty(&self) -> (r: &str)
        ensures
            r@ == self@.text_or_empty(),
    {
        proof {
            reveal_strlit("");
            assert(""@ =~= Seq::<char>::empty());
        }
        match self {
            Field::Text(t) => t.as_str(),
            _ => "",
        }
    }

    /// Tells whether the payload has this member, whatever its kind.
    pub fn is_present(&self) -> (r: bool)
        ensures
            r == self@.is_present(),
    {
        match self {
            Field::Absent => false,
            _ => true,
        }
    }
}

/// The members of a record payload that the indexer reads: `subject`, `text` and
/// `createdAt`.
#[derive(Debug)]
pub struct Record {
    pub subject: Field,
    pub text: Field,
    pub created_at: Field,
}

/// Mathematical value of a [`Record`].
pub ghost struct RecordView {
    pub subject: FieldView,
    pub text: FieldView,
    pub created_at: FieldView,
}

impl View for Record {
    type V = RecordView;

    open spec fn view(&self) -> RecordView {
        RecordView { subject: self.subject@, text: self.text@, created_at: self.created_at@ }
    }
}

/// The record is a repost: its payload has a `subject`.
pub open spec fn is_repost(record: RecordView) -> bool {
    record.subject.is_present()
}

/// The value of an optional record.
pub open spec fn record_value(record: Option<&Record>) -> Option<RecordView> {
    match record {
        Some(r) => Some(r@),
        None => None,
    }
}

/// The value of an optional text.
pub open spec fn text_value(text: Option<&str>) -> Option<Seq<char>> {
    match text {
        Some(t) => Some(t@),
        None => None,
    }
}

/// The value of an optional owned text.
pub open spec fn string_value(text: Option<String>) -> Option<Seq<char>> {
    match text {
        Some(t) => Some(t@),
        None => None,
    }
}

} // verus!
