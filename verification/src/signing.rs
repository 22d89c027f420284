//! Signatures by a service account's private key.

use vstd::prelude::*;

use crate::json::outcome;
use crate::text::same;

verus! {

// -------------------------------------------------------------- outside calls

/// What `pem::parse` reads in a text: the tag and the bytes of the block that
/// it holds, or nothing where it holds no block that is well formed.
pub uninterp spec fn pem_block(source: Seq<char>) -> Option<(Seq<char>, Seq<u8>)>;

/// `pem::parse`, with `Pem::tag` and `Pem::contents` of what it returns. They
/// depend on the text alone.
#[verifier::external_body]
fn read_pem(source: &str) -> (block: Option<(String, Vec<u8>)>)
    ensures
        block.deep_view() == pem_block(source@),
{
    pem::parse(source).ok().map(|block| (block.tag().to_string(), block.contents().to_vec()))
}

/// How many bytes the modulus of a private key takes up, where
/// `ring::signature::RsaKeyPair::from_pkcs8` takes the key.
pub uninterp spec fn modulus_bytes(pkcs8: Seq<u8>) -> Option<usize>;

/// `ring::signature::RsaKeyPair::from_pkcs8`, with the length of the public
/// modulus of the key pair that it returns. Whether it takes the key, and that
/// length, depend on the bytes alone.
#[verifier::external_body]
fn read_modulus_len(pkcs8: &Vec<u8>) -> (length: Option<usize>)
    ensures
        length == modulus_bytes(pkcs8@),
{
    ring::signature::RsaKeyPair::from_pkcs8(pkcs8).ok().map(|pair| pair.public().modulus_len())
}

/// The signature of a message under `RSA_PKCS1_SHA256`, where
/// `ring::signature::RsaKeyPair::sign` makes one.
pub uninterp spec fn rs256(pkcs8: Seq<u8>, message: Seq<u8>) -> Option<Seq<u8>>;

/// `ring::signature::RsaKeyPair::sign` under `RSA_PKCS1_SHA256`, for the key
/// pair that `from_pkcs8` makes of `pkcs8`. The padding takes nothing from the
/// random generator, so the signature depends on the key and the message alone.
/// It fills a buffer as long as the modulus; into one of another length none is
/// written. What is left in the buffer where no signature is made is left unsaid,
/// but for its length.
#[verifier::external_body]
fn write_signature(pkcs8: &Vec<u8>, message: &[u8], signature: &mut Vec<u8>) -> (done: bool)
    requires
        modulus_bytes(pkcs8@) == Some(old(signature).len()),
    ensures
        final(signature)@.len() == old(signature)@.len(),
        done == (rs256(pkcs8@, message@) is Some),
        done ==> rs256(pkcs8@, message@) == Some(final(signature)@),
{
    let padding = &ring::signature::RSA_PKCS1_SHA256;
    let random = ring::rand::SystemRandom::new();
    match ring::signature::RsaKeyPair::from_pkcs8(pkcs8) {
        Ok(pair) => pair.sign(padding, &random, message, signature).is_ok(),
        Err(_) => false,
    }
}

// -------------------------------------------------------------------- signing

/// The PKCS#8 key in a PEM block.
pub open spec fn pkcs8_in(block: Option<(Seq<char>, Seq<u8>)>) -> Result<Seq<u8>, Seq<char>> {
    match block {
        Some((tag, contents)) => if tag == "PRIVATE KEY"@ {
            Ok(contents)
        } else {
            Err("Google service account private key must use PKCS#8 PEM."@)
        },
        None => Err("invalid Google service account private key PEM."@),
    }
}

/// The PKCS#8 key in a PEM block, given its tag and contents.
pub fn pkcs8_of(block: Option<(String, Vec<u8>)>) -> (key: Result<Vec<u8>, String>)
    ensures
        outcome(key) == pkcs8_in(block.deep_view()),
{
    match block {
        Some((tag, contents)) => if same(tag.as_str(), "PRIVATE KEY") {
            Ok(contents)
        } else {
            Err("Google service account private key must use PKCS#8 PEM.".to_owned())
        },
        None => Err("invalid Google service account private key PEM.".to_owned()),
    }
}

/// Room for a signature, where the key was taken: as many zeros as its modulus
/// has bytes.
pub open spec fn blank(length: Option<usize>) -> Result<Seq<u8>, Seq<char>> {
    match length {
        Some(n) => Ok(Seq::new(n as nat, |i: int| 0u8)),
        None => Err("invalid Google service account PKCS#8 private key."@),
    }
}

/// Room for a signature, where the key was taken.
pub fn room_for(length: Option<usize>) -> (room: Result<Vec<u8>, String>)
    ensures
        outcome(room) == blank(length),
{
    match length {
        Some(n) => {
            let room: Vec<u8> = vec![0u8; n];
            assert(room.deep_view() =~= Seq::new(n as nat, |i: int| 0u8));
            Ok(room)
        },
        None => Err("invalid Google service account PKCS#8 private key.".to_owned()),
    }
}

/// A signature, where one was made.
pub open spec fn made(signature: Option<Seq<u8>>) -> Result<Seq<u8>, Seq<char>> {
    match signature {
        Some(bytes) => Ok(bytes),
        None => Err("Google service account JWT signing failed."@),
    }
}

/// The signature in `room`, where one was made.
pub fn signature_in(room: Vec<u8>, done: bool) -> (signature: Result<Vec<u8>, String>)
    ensures
        outcome(signature) == made(
            if done {
                Some(room@)
            } else {
                None
            },
        ),
{
    if done {
        assert(room.deep_view() =~= room@);
        Ok(room)
    } else {
        Err("Google service account JWT signing failed.".to_owned())
    }
}

/// The signature of a message by a private key in PEM, or why there is none.
pub open spec fn signature_by(private_key: Seq<char>, message: Seq<u8>) -> Result<
    Seq<u8>,
    Seq<char>,
> {
    match pkcs8_in(pem_block(private_key)) {
        Ok(pkcs8) => match blank(modulus_bytes(pkcs8)) {
            Ok(_) => made(rs256(pkcs8, message)),
            Err(why) => Err(why),
        },
        Err(why) => Err(why),
    }
}

/// The signature of a message by a private key in PEM.
pub fn sign_rs256(private_key: &str, message: &[u8]) -> (signature: Result<Vec<u8>, String>)
    ensures
        outcome(signature) == signature_by(private_key@, message@),
{
    match pkcs8_of(read_pem(private_key)) {
        Ok(pkcs8) => {
            assert(pkcs8.deep_view() =~= pkcs8@);
            match room_for(read_modulus_len(&pkcs8)) {
                Ok(mut room) => {
                    assert(room.deep_view() =~= room@);
                    let done = write_signature(&pkcs8, message, &mut room);
                    signature_in(room, done)
                },
                Err(why) => Err(why),
            }
        },
        Err(why) => Err(why),
    }
}

// ------------------------------------------------------------------------ laws

/// A message is signed with the key in the PEM text, where the text holds a
/// PKCS#8 key that is taken; every other text is refused for its own reason.
pub proof fn a_message_is_signed_with_the_key_in_the_text(
    private_key: Seq<char>,
    message: Seq<u8>,
    tag: Seq<char>,
    key: Seq<u8>,
)
    ensures
        pem_block(private_key) is None ==> signature_by(private_key, message) == Err::<
            Seq<u8>,
            Seq<char>,
        >("invalid Google service account private key PEM."@),
        pem_block(private_key) == Some((tag, key)) && tag != "PRIVATE KEY"@ ==> signature_by(
            private_key,
            message,
        ) == Err::<Seq<u8>, Seq<char>>(
            "Google service account private key must use PKCS#8 PEM."@,
        ),
        pem_block(private_key) == Some(("PRIVATE KEY"@, key)) && modulus_bytes(key) is None
            ==> signature_by(private_key, message) == Err::<Seq<u8>, Seq<char>>(
            "invalid Google service account PKCS#8 private key."@,
        ),
        pem_block(private_key) == Some(("PRIVATE KEY"@, key)) && modulus_bytes(key) is Some
            ==> signature_by(private_key, message) == (match rs256(key, message) {
            Some(signature) => Ok::<Seq<u8>, Seq<char>>(signature),
            None => Err("Google service account JWT signing failed."@),
        }),
{
}

/// There is room for a signature exactly as long as the modulus.
pub proof fn room_is_as_long_as_the_modulus(length: usize)
    ensures
        (blank(Some(length)) matches Ok(room) && room.len() == length),
        blank(None) is Err,
{
}

} // verus!
