//! RSASSA-PSS signatures for JSON Web Signature: keys in DER, PEM and JWK form.
pub mod crypto;
pub mod der;
pub mod encoding;
pub mod error;
pub mod jwk;
pub mod laws;
pub mod message;
pub mod pem;
pub mod rsapss;
pub mod text;
