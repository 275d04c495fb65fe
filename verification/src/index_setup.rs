//! Idempotent creation of the search index: skip when it already exists,
//! else create it with the bilingual analyzer and the dense-vector field.

use vstd::prelude::*;
use vstd::string::StringExecFns;

verus! {

/// Settings and mappings of the index: an `en_ru_analyzer` (standard
/// tokenizer; lowercase, English and Russian stemmers and stop words) for
/// the `title` text field, and a 512-dimension indexed dense-vector
/// `embedding` field under dot-product similarity.
pub const INDEX_MAPPING_BODY: &'static str = "{\"settings\":{\"index\":{\"analysis\":{\"filter\":{\"english_stemmer\":{\"type\":\"stemmer\",\"name\":\"english\"},\"russian_stemmer\":{\"type\":\"stemmer\",\"name\":\"russian\"},\"english_stop\":{\"type\":\"stop\",\"stopwords\":\"_english_\"},\"russian_stop\":{\"type\":\"stop\",\"stopwords\":\"_russian_\"}},\"analyzer\":{\"en_ru_analyzer\":{\"tokenizer\":\"standard\",\"filter\":[\"lowercase\",\"english_stemmer\",\"russian_stemmer\",\"english_stop\",\"russian_stop\"]}}}}},\"mappings\":{\"properties\":{\"title\":{\"type\":\"text\",\"analyzer\":\"en_ru_analyzer\"},\"embedding\":{\"type\":\"dense_vector\",\"dims\":512,\"index\":true,\"similarity\":\"dot_product\"}}}}";

/// What startup does about the index.
#[derive(Clone, Copy, Debug, PartialEq, Eq, Structural)]
pub enum IndexSetup {
    /// The index exists; keep it and do nothing.
    Keep,
    /// The index is missing; create it with [`INDEX_MAPPING_BODY`].
    Create,
}

/// Creation is idempotent across restarts: create the index only when the
/// existence probe did not find it.
pub fn index_setup_action(exists_status_ok: bool) -> (a: IndexSetup)
    ensures
        a == IndexSetup::Keep <==> exists_status_ok,
        a == IndexSetup::Create <==> !exists_status_ok,
{
    if exists_status_ok {
        IndexSetup::Keep
    } else {
        IndexSetup::Create
    }
}

/// The request body for creating the index, per [`INDEX_MAPPING_BODY`].
pub fn index_mapping_body() -> (r: String)
    ensures
        r@ == INDEX_MAPPING_BODY@,
{
    String::from_str(INDEX_MAPPING_BODY)
}

} // verus!
