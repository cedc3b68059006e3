use vstd::prelude::*;

verus! {

/// Which columns a lookup hands back.
#[derive(Debug)]
pub enum ColumnSpecification {
    /// Every column of the table.
    All,
    /// Only the named columns.
    Selected(Vec<String>),
}

/// The columns of a lookup, as a sequence of names where a subset is asked for.
pub enum ProjectionView {
    All,
    Only(Seq<String>),
}

impl View for ColumnSpecification {
    type V = ProjectionView;

    open spec fn view(&self) -> ProjectionView {
        match self {
            ColumnSpecification::All => ProjectionView::All,
            ColumnSpecification::Selected(names) => ProjectionView::Only(names@),
        }
    }
}

} // verus!
