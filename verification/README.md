# rsapss_jws

RSASSA-PSS signatures for JSON Web Signature: the algorithms PS256, PS384 and PS512, with keys in
DER, PEM and JWK form. The library is written in Verus, and each of its functions is proved against
its contract. OpenSSL reads the keys and makes and checks the signatures; the `base64` crate decodes
Base64.

- `src/der`: writing DER, and reading it in its one valid form.
- `src/pem.rs`, `src/jwk.rs`: PEM documents and JSON Web Keys.
- `src/rsapss`: the algorithms. `pkcs1` and `pkcs8` write keys, `detect` tells keys with their
  algorithm from bare ones, `import` and `jwk_key` find the key in a document, `signing` and
  `verifying` make signers and verifiers and use them.
- `src/laws`: what holds of the library as a whole, such as that a signature that was made is
  accepted by a verifier with the other half of the key.
- `src/crypto.rs`, `src/encoding.rs`: what is believed of OpenSSL and of `base64` without proof.
- `app`: traits over signers and verifiers, JSON, readers and printable errors.

`verify` succeeds if and only if OpenSSL finds that the signature matches the message.
