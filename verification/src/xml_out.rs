use vstd::prelude::*;

use crate::doc::{DocView, Document};

verus! {

/// The markup text that the writer emits for a document: a function of the
/// tree of tag names and texts alone.
pub uninterp spec fn xml_render(doc: DocView) -> Seq<u8>;

/// Relies on simple_xml_builder::XMLElement (`new`, `add_text`, `add_child`
/// and `write`): the emitted bytes depend only on the tree of tag names and
/// texts handed over, and writing into an in-memory byte buffer does not
/// fail. Text goes only into fresh elements and children only into elements
/// without text, so no call panics.
#[verifier::external_body]
pub(crate) fn render_xml(doc: &Document) -> (r: Vec<u8>)
    ensures
        r@ == xml_render(doc@),
{
    let mut root = simple_xml_builder::XMLElement::new(doc.root_tag.as_str());
    for row in doc.rows.iter() {
        let mut row_element = simple_xml_builder::XMLElement::new(row.tag.as_str());
        for leaf in row.leaves.iter() {
            let mut leaf_element = simple_xml_builder::XMLElement::new(leaf.tag.as_str());
            leaf_element.add_text(leaf.text.as_str());
            row_element.add_child(leaf_element);
        }
        root.add_child(row_element);
    }
    let mut out: Vec<u8> = Vec::new();
    root.write(&mut out).expect("a byte buffer accepts every write");
    out
}

} // verus!
