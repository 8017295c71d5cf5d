//! The lists of outputs, as text.

use vstd::prelude::*;

verus! {

/// A document of the crate `kdl`.
#[verifier::external_type_specification]
#[verifier::external_body]
pub struct ExKdlDocument(kdl::KdlDocument);

/// What a document holds, written as KDL text.
pub uninterp spec fn kdl_text(document: kdl::KdlDocument) -> Seq<char>;

/// `kdl::KdlDocument::to_string`.
///
/// Believed of it: the text is determined by the document.
#[verifier::external_body]
fn document_text(document: &kdl::KdlDocument) -> (text: String)
    ensures
        text@ == kdl_text(*document),
{
    document.to_string()
}

/// Whether `lists` are the texts of `documents`, in their order.
pub open spec fn are_texts_of(lists: Seq<String>, documents: Seq<kdl::KdlDocument>) -> bool {
    &&& lists.len() == documents.len()
    &&& forall|i: int| 0 <= i < lists.len() ==> (#[trigger] lists[i])@ == kdl_text(documents[i])
}

/// The text of each of `documents`.
pub fn document_texts(documents: &Vec<kdl::KdlDocument>) -> (lists: Vec<String>)
    ensures
        are_texts_of(lists@, documents@),
{
    let mut lists: Vec<String> = Vec::new();
    let mut i: usize = 0;
    while i < documents.len()
        invariant
            i <= documents.len(),
            lists@.len() == i,
            forall|j: int| 0 <= j < i ==> (#[trigger] lists@[j])@ == kdl_text(documents@[j]),
        decreases documents.len() - i,
    {
        lists.push(document_text(&documents[i]));
        i = i + 1;
    }
    lists
}

/// There is one text for each document, in the order of the documents.
pub proof fn law_one_text_for_each_document(documents: Vec<kdl::KdlDocument>, lists: Vec<String>)
    requires
        call_ensures(document_texts, (&documents,), lists),
    ensures
        lists@.len() == documents@.len(),
        forall|i: int|
            0 <= i < documents@.len() ==> (#[trigger] lists@[i])@ == kdl_text(documents@[i]),
{
}

} // verus!
