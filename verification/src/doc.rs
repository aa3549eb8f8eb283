use vstd::prelude::*;

use crate::text::{trim_text, trimmed};

verus! {

/// An innermost element of the output: a tag taken from one header and the
/// text of the cell under it.
pub struct Leaf {
    pub tag: String,
    pub text: String,
}

/// What a `Leaf` holds, as sequences of characters.
pub ghost struct LeafView {
    pub tag: Seq<char>,
    pub text: Seq<char>,
}

impl View for Leaf {
    type V = LeafView;

    open spec fn view(&self) -> LeafView {
        LeafView { tag: self.tag@, text: self.text@ }
    }
}

/// One row element of the output: a tag and the leaves made from the row's
/// cells, in header order.
pub struct Row {
    pub tag: String,
    pub leaves: Vec<Leaf>,
}

/// What a `Row` holds.
pub ghost struct RowView {
    pub tag: Seq<char>,
    pub leaves: Seq<LeafView>,
}

impl View for Row {
    type V = RowView;

    open spec fn view(&self) -> RowView {
        RowView { tag: self.tag@, leaves: self.leaves@.map_values(|l: Leaf| l@) }
    }
}

/// The whole output document: the root element and its row elements, in
/// input order.
pub struct Document {
    pub root_tag: String,
    pub rows: Vec<Row>,
}

/// What a `Document` holds.
pub ghost struct DocView {
    pub root_tag: Seq<char>,
    pub rows: Seq<RowView>,
}

impl View for Document {
    type V = DocView;

    open spec fn view(&self) -> DocView {
        DocView { root_tag: self.root_tag@, rows: self.rows@.map_values(|r: Row| r@) }
    }
}

/// The leaf made from one header and one cell: both are trimmed.
pub open spec fn spec_leaf(header: Seq<char>, cell: Seq<char>) -> LeafView {
    LeafView { tag: trimmed(header), text: trimmed(cell) }
}

/// The leaves of one row: headers and cells paired by position, stopping at
/// the shorter of the two sequences.
pub open spec fn spec_row_leaves(headers: Seq<Seq<char>>, cells: Seq<Seq<char>>) -> Seq<LeafView> {
    Seq::new(
        vstd::math::min(headers.len() as int, cells.len() as int) as nat,
        |i: int| spec_leaf(headers[i], cells[i]),
    )
}

/// One row element: the trimmed element name over the row's leaves.
pub open spec fn spec_row(
    element: Seq<char>,
    headers: Seq<Seq<char>>,
    cells: Seq<Seq<char>>,
) -> RowView {
    RowView { tag: trimmed(element), leaves: spec_row_leaves(headers, cells) }
}

/// The whole document built from a root name, an element name, the headers
/// and the data rows.
pub open spec fn spec_document(
    root: Seq<char>,
    element: Seq<char>,
    headers: Seq<Seq<char>>,
    rows: Seq<Seq<Seq<char>>>,
) -> DocView {
    DocView {
        root_tag: trimmed(root),
        rows: Seq::new(rows.len(), |i: int| spec_row(element, headers, rows[i])),
    }
}

/// Pair the headers with the cells of one row by position, stopping at the
/// shorter sequence, and trim each side: the leaves of one row element.
pub fn map_row(headers: &Vec<String>, cells: &Vec<String>) -> (leaves: Vec<Leaf>)
    ensures
        leaves@.map_values(|l: Leaf| l@) == spec_row_leaves(headers.deep_view(), cells.deep_view()),
{
    let n: usize = if headers.len() <= cells.len() {
        headers.len()
    } else {
        cells.len()
    };
    let mut leaves: Vec<Leaf> = Vec::new();
    let mut i: usize = 0;
    while i < n
        invariant
            n == vstd::math::min(headers.deep_view().len() as int, cells.deep_view().len() as int),
            i <= n,
            leaves@.map_values(|l: Leaf| l@) =~= spec_row_leaves(
                headers.deep_view(),
                cells.deep_view(),
            ).subrange(0, i as int),
        decreases n - i,
    {
        let ghost pre = leaves@;
        let leaf = Leaf { tag: trim_text(headers[i].as_str()), text: trim_text(cells[i].as_str()) };
        leaves.push(leaf);
        i = i + 1;
        proof {
            let hs = headers.deep_view();
            let cs = cells.deep_view();
            assert(pre.map_values(|l: Leaf| l@).len() == pre.len());
            assert(pre.len() == i - 1);
            assert(leaves@ == pre.push(leaf));
            assert(leaf@ == spec_leaf(hs[i - 1], cs[i - 1])) by {
                assert(hs[i - 1] == headers@[i - 1]@);
                assert(cs[i - 1] == cells@[i - 1]@);
            }
            assert forall|k: int| 0 <= k < i implies leaves@.map_values(|l: Leaf| l@)[k]
                == spec_row_leaves(hs, cs)[k] by {
                assert(leaves@.map_values(|l: Leaf| l@)[k] == leaves@[k]@);
                if k < i - 1 {
                    assert(leaves@[k] == pre[k]);
                    assert(pre.map_values(|l: Leaf| l@)[k] == pre[k]@);
                } else {
                    assert(leaves@[k] == leaf);
                }
            }
            assert(leaves@.map_values(|l: Leaf| l@) =~= spec_row_leaves(
                headers.deep_view(),
                cells.deep_view(),
            ).subrange(0, i as int));
        }
    }
    proof {
        assert(spec_row_leaves(headers.deep_view(), cells.deep_view()).subrange(0, n as int)
            =~= spec_row_leaves(headers.deep_view(), cells.deep_view()));
    }
    leaves
}

/// Assemble the whole document: the trimmed root name over one row element
/// per data row, in input order, each holding its leaves in header order.
pub fn build_document(
    root: &str,
    element: &str,
    headers: &Vec<String>,
    rows: &Vec<Vec<String>>,
) -> (doc: Document)
    ensures
        doc@ == spec_document(root@, element@, headers.deep_view(), rows.deep_view()),
{
    let mut row_nodes: Vec<Row> = Vec::new();
    let mut i: usize = 0;
    while i < rows.len()
        invariant
            i <= rows@.len(),
            row_nodes@.map_values(|r: Row| r@) =~= spec_document(
                root@,
                element@,
                headers.deep_view(),
                rows.deep_view(),
            ).rows.subrange(0, i as int),
        decreases rows@.len() - i,
    {
        let ghost pre = row_nodes@;
        let leaves = map_row(headers, &rows[i]);
        let row = Row { tag: trim_text(element), leaves };
        row_nodes.push(row);
        i = i + 1;
        proof {
            let target = spec_document(root@, element@, headers.deep_view(), rows.deep_view()).rows;
            assert(pre.map_values(|r: Row| r@).len() == pre.len());
            assert(pre.len() == i - 1);
            assert(row_nodes@ == pre.push(row));
            assert(row@ == target[i - 1]) by {
                assert(rows.deep_view()[i - 1] == rows@[i - 1].deep_view());
            }
            assert forall|k: int| 0 <= k < i implies row_nodes@.map_values(|r: Row| r@)[k]
                == target[k] by {
                assert(row_nodes@.map_values(|r: Row| r@)[k] == row_nodes@[k]@);
                if k < i - 1 {
                    assert(row_nodes@[k] == pre[k]);
                    assert(pre.map_values(|r: Row| r@)[k] == pre[k]@);
                } else {
                    assert(row_nodes@[k] == row);
                }
            }
            assert(row_nodes@.map_values(|r: Row| r@) =~= spec_document(
                root@,
                element@,
                headers.deep_view(),
                rows.deep_view(),
            ).rows.subrange(0, i as int));
        }
    }
    let doc = Document { root_tag: trim_text(root), rows: row_nodes };
    proof {
        assert(doc@.rows =~= spec_document(
            root@,
            element@,
            headers.deep_view(),
            rows.deep_view(),
        ).rows);
    }
    doc
}

} // verus!
