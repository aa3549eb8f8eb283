use vstd::prelude::*;

use crate::csv_in::{csv_table, parse_csv};
use crate::doc::{build_document, spec_document};
use crate::text::{edge_clean, lemma_trimmed_edge_clean, trimmed};
use crate::xml_out::{render_xml, xml_render};

verus! {

/// Why a conversion failed: the input bytes are not well-formed
/// comma-separated text.
#[derive(Debug)]
pub enum ConvertError {
    Parse(csv::Error),
}

/// The outcome of a conversion: the emitted markup bytes when the input
/// parses as comma-separated text, nothing otherwise.
pub open spec fn spec_convert(data: Seq<u8>, root: Seq<char>, element: Seq<char>) -> Option<
    Seq<u8>,
> {
    match csv_table(data) {
        Some(table) => Some(xml_render(spec_document(root, element, table.0, table.1))),
        None => None,
    }
}

/// Turn comma-separated bytes into a markup document: the trimmed root name
/// wraps one element per data row, in input order, each holding one leaf per
/// header/cell pair, paired by position up to the shorter side, with tags
/// and texts trimmed. Fails exactly when the bytes are malformed.
pub fn convert(data: &[u8], root: &str, element: &str) -> (r: Result<Vec<u8>, ConvertError>)
    ensures
        r is Ok <==> csv_table(data@) is Some,
        match r {
            Ok(out) => Some(out@) == spec_convert(data@, root@, element@),
            Err(_) => spec_convert(data@, root@, element@) is None,
        },
{
    match parse_csv(data) {
        Ok((headers, rows)) => {
            let doc = build_document(root, element, &headers, &rows);
            Ok(render_xml(&doc))
        },
        Err(e) => Err(ConvertError::Parse(e)),
    }
}

/// Row-count preservation: the document holds exactly one row element per
/// data row of the input.
pub proof fn lemma_row_count(
    root: Seq<char>,
    element: Seq<char>,
    headers: Seq<Seq<char>>,
    rows: Seq<Seq<Seq<char>>>,
)
    ensures
        spec_document(root, element, headers, rows).rows.len() == rows.len(),
{
}

/// Truncating pairing: a row element holds exactly one leaf per header/cell
/// pair, that is, as many leaves as the shorter of the header row and the
/// data row.
pub proof fn lemma_truncating_pairing(
    root: Seq<char>,
    element: Seq<char>,
    headers: Seq<Seq<char>>,
    rows: Seq<Seq<Seq<char>>>,
    i: int,
)
    requires
        0 <= i < rows.len(),
    ensures
        spec_document(root, element, headers, rows).rows[i].leaves.len() == vstd::math::min(
            headers.len() as int,
            rows[i].len() as int,
        ),
{
}

/// The document reflects the input exactly: the root tag is the trimmed
/// root name, every row element carries the trimmed element name, and the
/// leaf at position `j` of row `i` carries the trimmed header `j` as its
/// tag and the trimmed cell `j` of data row `i` as its text, in the
/// original row and column order.
pub proof fn lemma_document_reflects_input(
    root: Seq<char>,
    element: Seq<char>,
    headers: Seq<Seq<char>>,
    rows: Seq<Seq<Seq<char>>>,
)
    ensures
        spec_document(root, element, headers, rows).root_tag == trimmed(root),
        forall|i: int|
            0 <= i < rows.len() ==> #[trigger] spec_document(
                root,
                element,
                headers,
                rows,
            ).rows[i].tag == trimmed(element),
        forall|i: int, j: int|
            0 <= i < rows.len() && 0 <= j < headers.len() && j < rows[i].len() ==> {
                let leaf = #[trigger] spec_document(root, element, headers, rows).rows[i].leaves[j];
                leaf.tag == trimmed(headers[j]) && leaf.text == trimmed(rows[i][j])
            },
{
}

/// No white space at the edges: every tag and every text of the document is
/// free of leading and trailing white space, whatever the input carried.
pub proof fn lemma_no_edge_whitespace(
    root: Seq<char>,
    element: Seq<char>,
    headers: Seq<Seq<char>>,
    rows: Seq<Seq<Seq<char>>>,
)
    ensures
        edge_clean(spec_document(root, element, headers, rows).root_tag),
        forall|i: int|
            0 <= i < rows.len() ==> edge_clean(
                #[trigger] spec_document(root, element, headers, rows).rows[i].tag,
            ),
        forall|i: int, j: int|
            0 <= i < rows.len() && 0 <= j < spec_document(
                root,
                element,
                headers,
                rows,
            ).rows[i].leaves.len() ==> {
                let leaf = #[trigger] spec_document(root, element, headers, rows).rows[i].leaves[j];
                edge_clean(leaf.tag) && edge_clean(leaf.text)
            },
{
    lemma_trimmed_edge_clean(root);
    lemma_trimmed_edge_clean(element);
    assert forall|i: int, j: int|
        0 <= i < rows.len() && 0 <= j < spec_document(
            root,
            element,
            headers,
            rows,
        ).rows[i].leaves.len() implies {
        let leaf = #[trigger] spec_document(root, element, headers, rows).rows[i].leaves[j];
        edge_clean(leaf.tag) && edge_clean(leaf.text)
    } by {
        lemma_trimmed_edge_clean(headers[j]);
        lemma_trimmed_edge_clean(rows[i][j]);
    }
}

/// Idempotence: two conversions of the same bytes with the same root and
/// element names have the same outcome, byte for byte.
pub proof fn lemma_conversion_deterministic(
    data: Seq<u8>,
    root: Seq<char>,
    element: Seq<char>,
    r1: Option<Seq<u8>>,
    r2: Option<Seq<u8>>,
)
    requires
        r1 == spec_convert(data, root, element),
        r2 == spec_convert(data, root, element),
    ensures
        r1 == r2,
{
}

} // verus!
