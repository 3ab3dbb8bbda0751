//! What holds of the library as a whole.
pub mod der_forms;
pub mod der_values;
pub mod detected_keys;
pub mod detection;
pub mod documents;
pub mod jwk_members;
pub mod key_sizes;
pub mod labels;
pub mod parameters;
pub mod pem_documents;
pub mod signatures;
pub mod terms;
pub mod variants;
pub mod words;
