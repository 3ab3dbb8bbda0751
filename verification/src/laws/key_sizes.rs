//! Which keys are long enough.
use crate::crypto::{
    private_key_readable, private_key_size, public_key_readable, public_key_size,
};
use crate::error::{Fault, KeyFault};
use crate::rsapss::keys::{size_suits, KeyModel};
use crate::rsapss::signing::made_signer;
use crate::rsapss::verifying::made_verifier;
use crate::rsapss::RsaPssJwsAlgorithm;
use vstd::prelude::*;

verus! {

/// A modulus of 256 octets or more is long enough, however long it is, and a shorter one is not.
pub proof fn law_long_moduli_suit(octets: u32)
    ensures
        octets >= 256 ==> size_suits(Some(octets)) is Ok,
        octets < 256 ==> size_suits(Some(octets)) == Err::<(), KeyFault>(KeyFault::KeyTooShort),
        size_suits(None) == Err::<(), KeyFault>(KeyFault::OpenSsl),
{
}

/// Where one modulus is long enough, so is every longer one.
pub proof fn law_longer_moduli_suit_too(octets: u32, more: u32)
    requires
        octets <= more,
        size_suits(Some(octets)) is Ok,
    ensures
        size_suits(Some(more)) is Ok,
{
}

/// A signer is made from each private key that OpenSSL reads and whose modulus has 256 octets or
/// more, and it has the algorithm, the key and the identifier it was made with. From others it is
/// not, and from what gives no key it is not either.
pub proof fn law_signers_are_made_from_long_keys(
    algorithm: RsaPssJwsAlgorithm,
    der: Seq<u8>,
    key_id: Option<Seq<char>>,
    fault: KeyFault,
)
    ensures
        ({
            let made = made_signer(algorithm, Ok(der), key_id);
            let size = private_key_size(der);
            &&& private_key_readable(der) && size is Some && size->0 >= 256 ==> made == Ok::<
                KeyModel,
                Fault,
            >(KeyModel { algorithm, der, key_id })
            &&& private_key_readable(der) && size is Some && size->0 < 256 ==> made == Err::<
                KeyModel,
                Fault,
            >(Fault::InvalidKeyFormat(KeyFault::KeyTooShort))
            &&& !private_key_readable(der) || size is None ==> made == Err::<KeyModel, Fault>(
                Fault::InvalidKeyFormat(KeyFault::OpenSsl),
            )
        }),
        made_signer(algorithm, Err(fault), key_id) == Err::<KeyModel, Fault>(
            Fault::InvalidKeyFormat(fault),
        ),
{
}

/// A verifier is made from each public key that OpenSSL reads and whose modulus has 256 octets or
/// more, and it has the algorithm, the key and the identifier it was made with. From others it is
/// not, and from what gives no key it is not either.
pub proof fn law_verifiers_are_made_from_long_keys(
    algorithm: RsaPssJwsAlgorithm,
    der: Seq<u8>,
    key_id: Option<Seq<char>>,
    fault: KeyFault,
)
    ensures
        ({
            let made = made_verifier(algorithm, Ok(der), key_id);
            let size = public_key_size(der);
            &&& public_key_readable(der) && size is Some && size->0 >= 256 ==> made == Ok::<
                KeyModel,
                Fault,
            >(KeyModel { algorithm, der, key_id })
            &&& public_key_readable(der) && size is Some && size->0 < 256 ==> made == Err::<
                KeyModel,
                Fault,
            >(Fault::InvalidKeyFormat(KeyFault::KeyTooShort))
            &&& !public_key_readable(der) || size is None ==> made == Err::<KeyModel, Fault>(
                Fault::InvalidKeyFormat(KeyFault::OpenSsl),
            )
        }),
        made_verifier(algorithm, Err(fault), key_id) == Err::<KeyModel, Fault>(
            Fault::InvalidKeyFormat(fault),
        ),
{
}

} // verus!
