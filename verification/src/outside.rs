use vstd::prelude::*;

verus! {

// `serde_json::Value` is the document tree that the two serde codecs share;
// the library's own dynamic value is converted to and from it by verified
// code. Declared here so that the codec can hold and pass such documents.
#[verifier::external_type_specification]
#[verifier::external_body]
pub struct ExJsonValue(serde_json::Value);

} // verus!
