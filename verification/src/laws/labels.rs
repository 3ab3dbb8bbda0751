//! What the labels of PEM documents say of what they hold.
use crate::error::KeyFault;
use crate::rsapss::detect::detected;
use crate::rsapss::import::{der_key, labelled_key, pem_key};
use crate::rsapss::pkcs8::key_info;
use crate::rsapss::RsaPssJwsAlgorithm;
use vstd::prelude::*;

verus! {

/// Under "PRIVATE KEY" and "RSA-PSS PRIVATE KEY", or for a public key under "PUBLIC KEY" and
/// "RSA-PSS PUBLIC KEY", a document holds a key with its algorithm, which is used as it is; a key
/// that is none is refused, and so is one for another algorithm, for the same reason as in DER.
pub proof fn law_keys_with_their_algorithm_have_labels(
    algorithm: RsaPssJwsAlgorithm,
    label: Seq<char>,
    data: Seq<u8>,
    is_public: bool,
)
    requires
        is_public ==> label == "PUBLIC KEY"@ || label == "RSA-PSS PUBLIC KEY"@,
        !is_public ==> label == "PRIVATE KEY"@ || label == "RSA-PSS PRIVATE KEY"@,
    ensures
        ({
            let key = labelled_key(algorithm, label, data, is_public);
            let found = detected(algorithm, data, is_public);
            &&& found == Ok::<bool, KeyFault>(true) <==> key == Ok::<Seq<u8>, KeyFault>(data)
            &&& found == Ok::<bool, KeyFault>(true) ==> key == der_key(algorithm, data, is_public)
            &&& found == Ok::<bool, KeyFault>(false) ==> key == Err::<Seq<u8>, KeyFault>(
                KeyFault::InvalidPemContents,
            )
            &&& found is Err ==> key == Err::<Seq<u8>, KeyFault>(found->Err_0) && key == der_key(
                algorithm,
                data,
                is_public,
            )
        }),
{
}

/// Under "RSA PRIVATE KEY", or for a public key under "RSA PUBLIC KEY", a document holds a bare
/// key, whatever it is, and the algorithm is put around it.
pub proof fn law_bare_keys_have_a_label(
    algorithm: RsaPssJwsAlgorithm,
    data: Seq<u8>,
)
    ensures
        labelled_key(algorithm, "RSA PRIVATE KEY"@, data, false) == Ok::<Seq<u8>, KeyFault>(
            key_info(algorithm, data, false),
        ),
        labelled_key(algorithm, "RSA PUBLIC KEY"@, data, true) == Ok::<Seq<u8>, KeyFault>(
            key_info(algorithm, data, true),
        ),
{
    reveal_strlit("PRIVATE KEY");
    reveal_strlit("RSA-PSS PRIVATE KEY");
    reveal_strlit("RSA PRIVATE KEY");
    reveal_strlit("PUBLIC KEY");
    reveal_strlit("RSA-PSS PUBLIC KEY");
    reveal_strlit("RSA PUBLIC KEY");
    assert("RSA PRIVATE KEY"@.len() == 15 && "PRIVATE KEY"@.len() == 11);
    assert("RSA-PSS PRIVATE KEY"@.len() == 19);
    assert("RSA PUBLIC KEY"@.len() == 14 && "PUBLIC KEY"@.len() == 10);
    assert("RSA-PSS PUBLIC KEY"@.len() == 18);
}

/// Under every other label a document is refused, and the label is reported.
pub proof fn law_other_labels_are_refused(
    algorithm: RsaPssJwsAlgorithm,
    label: Seq<char>,
    data: Seq<u8>,
)
    ensures
        label != "PRIVATE KEY"@ && label != "RSA-PSS PRIVATE KEY"@ && label != "RSA PRIVATE KEY"@
            ==> labelled_key(algorithm, label, data, false) == Err::<Seq<u8>, KeyFault>(
            KeyFault::InappropriateAlgorithm(label),
        ),
        label != "PUBLIC KEY"@ && label != "RSA-PSS PUBLIC KEY"@ && label != "RSA PUBLIC KEY"@
            ==> labelled_key(algorithm, label, data, true) == Err::<Seq<u8>, KeyFault>(
            KeyFault::InappropriateAlgorithm(label),
        ),
{
}

/// A DER document that is detected is used as it is, one that is not is taken for a bare key and
/// has the algorithm put around it, and one that is refused is refused for the same reason.
pub proof fn law_der_documents_are_used_or_wrapped(
    algorithm: RsaPssJwsAlgorithm,
    input: Seq<u8>,
    is_public: bool,
)
    ensures
        ({
            let key = der_key(algorithm, input, is_public);
            let found = detected(algorithm, input, is_public);
            &&& found == Ok::<bool, KeyFault>(true) ==> key == Ok::<Seq<u8>, KeyFault>(input)
            &&& found == Ok::<bool, KeyFault>(false) ==> key == Ok::<Seq<u8>, KeyFault>(
                key_info(algorithm, input, is_public),
            )
            &&& found is Err ==> key == Err::<Seq<u8>, KeyFault>(found->Err_0)
        }),
{
}

/// What is wrong with a PEM document is what is wrong with the key in it; else its label and its
/// data decide.
pub proof fn law_pem_contents_decide(
    algorithm: RsaPssJwsAlgorithm,
    label: Seq<char>,
    data: Seq<u8>,
    fault: KeyFault,
    is_public: bool,
)
    ensures
        pem_key(algorithm, Ok((label, data)), is_public) == labelled_key(
            algorithm,
            label,
            data,
            is_public,
        ),
        pem_key(algorithm, Err(fault), is_public) == Err::<Seq<u8>, KeyFault>(fault),
{
}

} // verus!
