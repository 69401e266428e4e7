use vstd::prelude::*;

verus! {

/// What one title anchor of a workout row carries: its inner markup and, when
/// present, its hyperlink reference.
pub ghost struct AnchorModel {
    pub text: Seq<char>,
    pub href: Option<Seq<char>>,
}

/// What one workout row carries, field by field: every matching title anchor,
/// the inner markup of every matching date cell, and the first text node of
/// every matching distance cell, each in document order.
pub ghost struct RowModel {
    pub titles: Seq<AnchorModel>,
    pub dates: Seq<Seq<char>>,
    pub distances: Seq<Option<Seq<char>>>,
}

/// One workout summary record as a mathematical value.
pub ghost struct SummaryModel {
    pub id: Seq<char>,
    pub title: Seq<char>,
    pub date: Seq<char>,
    pub distance: Seq<char>,
}

/// The path segment after the last `/` of `h`; all of `h` when it holds no `/`.
pub open spec fn id_of_href(h: Seq<char>) -> Seq<char>
    decreases h.len(),
{
    if h.len() == 0 {
        h
    } else if h.last() == '/' {
        Seq::<char>::empty()
    } else {
        id_of_href(h.drop_last()).push(h.last())
    }
}

} // verus!
