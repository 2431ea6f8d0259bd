//! The encode/decode pipeline: a payload is wrapped in fixed-length blocks of
//! random bytes, sealed under an inner and then an outer layer of
//! XSalsa20-Poly1305, and written behind one more random prefix block. Keys
//! and nonces are derived deterministically from the passphrase and constant
//! patterns; the fixed nonces are part of the format this crate keeps, not a
//! sound cryptographic design.

use vstd::prelude::*;
use vstd::string::StringSliceAdditionalSpecFns;

verus! {

/// Random bytes written directly in front of the outer ciphertext, never
/// encrypted, and discarded verbatim when decrypting.
pub const PREFIX_LENGTH: usize = 231;

/// Random bytes prepended to the payload before the inner seal.
pub const ENCRYPT_PREFIX_LENGTH: usize = 147;

/// Random bytes appended to the payload before the inner seal.
pub const ENCRYPT_SUFFIX_LENGTH: usize = 31;

/// XSalsa20-Poly1305 key size.
pub const KEY_LENGTH: usize = 32;

/// XSalsa20-Poly1305 nonce size.
pub const NONCE_LENGTH: usize = 24;

/// The authentication tag one seal adds to its message.
pub const TAG_LENGTH: usize = 16;

/// Everything `encrypt` adds around the payload: the three random blocks and
/// the two authentication tags.
pub const TOTAL_OVERHEAD: usize = PREFIX_LENGTH + ENCRYPT_PREFIX_LENGTH + ENCRYPT_SUFFIX_LENGTH + 2
    * TAG_LENGTH;

/// The ciphertext that `sodiumoxide::crypto::secretbox::seal` returns for
/// message `m`, nonce `n` and key `k`.
pub uninterp spec fn sealed(m: Seq<u8>, n: Seq<u8>, k: Seq<u8>) -> Seq<u8>;

/// What `sodiumoxide::crypto::secretbox::open` returns for ciphertext `c`,
/// nonce `n` and key `k`: the plaintext when the tag verifies, nothing
/// otherwise.
pub uninterp spec fn opened(c: Seq<u8>, n: Seq<u8>, k: Seq<u8>) -> Option<Seq<u8>>;

/// The constant suffix appended to the passphrase before the inner key is
/// derived.
pub open spec fn inner_key_suffix() -> Seq<u8> {
    seq![89u8, 64u8, 83u8, 54u8, 66u8, 100u8, 81u8, 100u8, 33u8, 38u8, 57u8, 109u8, 66u8, 69u8, 88u8, 102u8, 87u8, 38u8, 35u8, 54u8, 53u8, 103u8, 74u8, 121u8, 121u8]
}

/// The constant suffix appended to the passphrase before the outer key is
/// derived.
pub open spec fn outer_key_suffix() -> Seq<u8> {
    seq![69u8, 50u8, 102u8, 38u8, 64u8, 68u8, 75u8, 88u8, 87u8, 42u8, 119u8, 116u8, 100u8, 52u8, 51u8, 100u8, 33u8, 38u8, 64u8, 77u8, 94u8, 74u8, 76u8, 113u8, 68u8]
}

/// A derived key: byte `i` is the corresponding byte of the passphrase
/// concatenated with the layer's suffix where that reaches, and the fixed
/// pattern `(i + offset) mod 256` beyond it.
pub open spec fn derived_key(pass: Seq<u8>, suffix: Seq<u8>, offset: int) -> Seq<u8> {
    Seq::new(
        KEY_LENGTH as nat,
        |i: int|
            if i < (pass + suffix).len() {
                (pass + suffix)[i]
            } else {
                (((i + offset) % 256) as u8)
            },
    )
}

/// The inner layer's key for a given passphrase.
pub open spec fn inner_key(pass: Seq<u8>) -> Seq<u8> {
    derived_key(pass, inner_key_suffix(), 19)
}

/// The outer layer's key for a given passphrase.
pub open spec fn outer_key(pass: Seq<u8>) -> Seq<u8> {
    derived_key(pass, outer_key_suffix(), 23)
}

/// The inner layer's fixed nonce: byte `i` is `i + 21`.
pub open spec fn inner_nonce() -> Seq<u8> {
    Seq::new(NONCE_LENGTH as nat, |i: int| ((i + 21) % 256) as u8)
}

/// The outer layer's fixed nonce: the pattern `i + 13` written in reverse,
/// so byte `i` is `(NONCE_LENGTH - 1 - i) + 13`.
pub open spec fn outer_nonce() -> Seq<u8> {
    Seq::new(NONCE_LENGTH as nat, |i: int| ((NONCE_LENGTH - 1 - i + 13) % 256) as u8)
}

/// What decrypting `input` under `pass` yields: strip the envelope prefix,
/// open the outer and then the inner layer, and strip the scramble blocks;
/// any failure along the way yields nothing.
pub open spec fn decrypt_spec(pass: Seq<u8>, input: Seq<u8>) -> Option<Seq<u8>> {
    if input.len() < PREFIX_LENGTH {
        None
    } else {
        match opened(input.skip(PREFIX_LENGTH as int), outer_nonce(), outer_key(pass)) {
            Option::None => None,
            Option::Some(inner_ct) => match opened(inner_ct, inner_nonce(), inner_key(pass)) {
                Option::None => None,
                Option::Some(scrambled) => if scrambled.len() < ENCRYPT_PREFIX_LENGTH
                    + ENCRYPT_SUFFIX_LENGTH {
                    None
                } else {
                    Some(
                        scrambled.subrange(
                            ENCRYPT_PREFIX_LENGTH as int,
                            scrambled.len() - ENCRYPT_SUFFIX_LENGTH,
                        ),
                    )
                },
            },
        }
    }
}

/// The shape of everything `encrypt` can return for `pass` and `p`: an
/// envelope prefix block followed by the double seal of `p` wrapped in some
/// scramble blocks of the fixed lengths.
pub open spec fn is_encryption_of(c: Seq<u8>, pass: Seq<u8>, p: Seq<u8>) -> bool {
    &&& c.len() == p.len() + TOTAL_OVERHEAD
    &&& exists|ipre: Seq<u8>, isuf: Seq<u8>|
        {
            &&& ipre.len() == ENCRYPT_PREFIX_LENGTH
            &&& isuf.len() == ENCRYPT_SUFFIX_LENGTH
            &&& c.skip(PREFIX_LENGTH as int) == sealed(
                #[trigger] sealed(ipre + p + isuf, inner_nonce(), inner_key(pass)),
                outer_nonce(),
                outer_key(pass),
            )
        }
}

/// The two layers' fixed nonces are distinct patterns.
pub proof fn lemma_layer_nonces_differ()
    ensures
        inner_nonce() != outer_nonce(),
{
    assert(inner_nonce()[0] == 21u8);
    assert(outer_nonce()[0] == 36u8);
}

/// For any passphrase shorter than the key, the two layers' distinct suffixes
/// force the derived keys apart. A passphrase of the full key length or more
/// overrides both suffixes entirely and yields identical layer keys, so the
/// bound cannot be dropped.
pub proof fn lemma_layer_keys_differ(pass: Seq<u8>)
    requires
        pass.len() < KEY_LENGTH,
    ensures
        inner_key(pass) != outer_key(pass),
{
    let i = pass.len() as int;
    assert(inner_key(pass)[i] == 89u8);
    assert(outer_key(pass)[i] == 69u8);
}

/// The single, deliberately uninformative error for a decryption that did not
/// verify, whichever layer or length check refused it.
#[derive(Debug, Clone, PartialEq, Eq, Structural)]
pub struct DecryptError {}

impl DecryptError {
    /// The one description every failed decryption carries.
    pub fn message(&self) -> (r: String)
        ensures
            r@ == "decrypt error"@,
    {
        <String as vstd::string::StringExecFns>::from_str("decrypt error")
    }
}

/// Relies on `sodiumoxide::randombytes::randombytes`: it returns exactly `n`
/// bytes drawn from the system random source; nothing is assumed of their
/// values.
#[verifier::external_body]
fn random_bytes(n: usize) -> (r: Vec<u8>)
    ensures
        r@.len() == n,
{
    sodiumoxide::randombytes::randombytes(n)
}

/// Relies on `sodiumoxide::crypto::secretbox::seal` (XSalsa20-Poly1305): it
/// encrypts and authenticates `m`, deterministically in message, nonce and
/// key; the ciphertext is the message plus a 16-byte tag; and
/// `secretbox::open` under the same nonce and key verifies it and returns the
/// message.
#[verifier::external_body]
fn seal_box(m: &[u8], nonce: &Vec<u8>, key: &Vec<u8>) -> (c: Vec<u8>)
    requires
        nonce@.len() == NONCE_LENGTH,
        key@.len() == KEY_LENGTH,
        m@.len() + TAG_LENGTH <= usize::MAX,
    ensures
        c@ == sealed(m@, nonce@, key@),
        c@.len() == m@.len() + TAG_LENGTH,
        opened(c@, nonce@, key@) == Some(m@),
{
    let n = sodiumoxide::crypto::secretbox::Nonce::from_slice(nonce.as_slice()).unwrap();
    let k = sodiumoxide::crypto::secretbox::Key::from_slice(key.as_slice()).unwrap();
    sodiumoxide::crypto::secretbox::seal(m, &n, &k)
}

/// Relies on `sodiumoxide::crypto::secretbox::open` (XSalsa20-Poly1305): it
/// verifies and decrypts `c`, deterministically in ciphertext, nonce and key,
/// returning the plaintext exactly when the authentication tag verifies.
#[verifier::external_body]
fn open_box(c: &[u8], nonce: &Vec<u8>, key: &Vec<u8>) -> (r: Option<Vec<u8>>)
    requires
        nonce@.len() == NONCE_LENGTH,
        key@.len() == KEY_LENGTH,
    ensures
        r is Some <==> opened(c@, nonce@, key@) is Some,
        r matches Some(m) ==> opened(c@, nonce@, key@) == Some(m@),
{
    let n = sodiumoxide::crypto::secretbox::Nonce::from_slice(nonce.as_slice()).unwrap();
    let k = sodiumoxide::crypto::secretbox::Key::from_slice(key.as_slice()).unwrap();
    match sodiumoxide::crypto::secretbox::open(c, &n, &k) {
        Ok(m) => Some(m),
        Err(()) => None,
    }
}

/// Appends every byte of `src` to `dst`.
fn append_bytes(dst: &mut Vec<u8>, src: &[u8])
    ensures
        final(dst)@ == old(dst)@ + src@,
{
    let mut i: usize = 0;
    while i < src.len()
        invariant
            i <= src@.len(),
            dst@ == old(dst)@ + src@.subrange(0, i as int),
        decreases src@.len() - i,
    {
        dst.push(src[i]);
        proof {
            assert(old(dst)@ + src@.subrange(0, i as int) + seq![src@[i as int]] =~= old(dst)@
                + src@.subrange(0, i + 1 as int));
        }
        i += 1;
    }
    proof {
        assert(src@.subrange(0, src@.len() as int) =~= src@);
    }
}

/// Copies `v[start..end]` into a fresh vector.
fn subvec(v: &[u8], start: usize, end: usize) -> (r: Vec<u8>)
    requires
        start <= end <= v@.len(),
    ensures
        r@ == v@.subrange(start as int, end as int),
{
    let mut r: Vec<u8> = Vec::new();
    let mut i: usize = start;
    while i < end
        invariant
            start <= i <= end <= v@.len(),
            r@ == v@.subrange(start as int, i as int),
        decreases end - i,
    {
        r.push(v[i]);
        proof {
            assert(v@.subrange(start as int, i as int) + seq![v@[i as int]] =~= v@.subrange(
                start as int,
                i + 1 as int,
            ));
        }
        i += 1;
    }
    r
}

/// Appends `n` bytes from the system random source to `output`.
pub fn write_random_bytes(output: &mut Vec<u8>, n: usize)
    ensures
        final(output)@.len() == old(output)@.len() + n,
        final(output)@.take(old(output)@.len() as int) == old(output)@,
{
    let buf = random_bytes(n);
    append_bytes(output, buf.as_slice());
    proof {
        assert((old(output)@ + buf@).take(old(output)@.len() as int) =~= old(output)@);
    }
}

/// Discards exactly `n` leading bytes of `input` and returns the remainder;
/// an input holding fewer than `n` bytes is refused as truncated.
pub fn strip_random_bytes(input: &[u8], n: usize) -> (r: Result<Vec<u8>, DecryptError>)
    ensures
        input@.len() >= n ==> (r matches Ok(rest) && rest@ == input@.skip(n as int)),
        input@.len() < n ==> r is Err,
{
    if input.len() < n {
        Err(DecryptError {  })
    } else {
        Ok(subvec(input, n, input.len()))
    }
}

/// The 25 bytes of the inner layer's key suffix.
fn inner_suffix_vec() -> (r: Vec<u8>)
    ensures
        r@ == inner_key_suffix(),
{
    let mut r: Vec<u8> = Vec::new();
    r.push(89u8);
    r.push(64u8);
    r.push(83u8);
    r.push(54u8);
    r.push(66u8);
    r.push(100u8);
    r.push(81u8);
    r.push(100u8);
    r.push(33u8);
    r.push(38u8);
    r.push(57u8);
    r.push(109u8);
    r.push(66u8);
    r.push(69u8);
    r.push(88u8);
    r.push(102u8);
    r.push(87u8);
    r.push(38u8);
    r.push(35u8);
    r.push(54u8);
    r.push(53u8);
    r.push(103u8);
    r.push(74u8);
    r.push(121u8);
    r.push(121u8);
    proof {
        assert(r@ =~= inner_key_suffix());
    }
    r
}

/// The 25 bytes of the outer layer's key suffix.
fn outer_suffix_vec() -> (r: Vec<u8>)
    ensures
        r@ == outer_key_suffix(),
{
    let mut r: Vec<u8> = Vec::new();
    r.push(69u8);
    r.push(50u8);
    r.push(102u8);
    r.push(38u8);
    r.push(64u8);
    r.push(68u8);
    r.push(75u8);
    r.push(88u8);
    r.push(87u8);
    r.push(42u8);
    r.push(119u8);
    r.push(116u8);
    r.push(100u8);
    r.push(52u8);
    r.push(51u8);
    r.push(100u8);
    r.push(33u8);
    r.push(38u8);
    r.push(64u8);
    r.push(77u8);
    r.push(94u8);
    r.push(74u8);
    r.push(76u8);
    r.push(113u8);
    r.push(68u8);
    proof {
        assert(r@ =~= outer_key_suffix());
    }
    r
}

/// Builds a key: the base pattern `(i + offset) mod 256`, overwritten where
/// the passphrase concatenated with the layer's suffix reaches.
fn derive_key_bytes(passphrase: &str, suffix: &Vec<u8>, offset: usize) -> (r: Vec<u8>)
    requires
        offset < 256,
    ensures
        r@ == derived_key(passphrase.spec_bytes(), suffix@, offset as int),
{
    let mut concat: Vec<u8> = Vec::new();
    append_bytes(&mut concat, passphrase.as_bytes());
    append_bytes(&mut concat, suffix.as_slice());
    let mut key: Vec<u8> = Vec::new();
    let mut i: usize = 0;
    while i < KEY_LENGTH
        invariant
            i <= KEY_LENGTH,
            offset < 256,
            concat@ == passphrase.spec_bytes() + suffix@,
            key@ == derived_key(passphrase.spec_bytes(), suffix@, offset as int).take(i as int),
        decreases KEY_LENGTH - i,
    {
        if i < concat.len() {
            key.push(concat[i]);
        } else {
            key.push(((i + offset) % 256) as u8);
        }
        proof {
            let full = derived_key(passphrase.spec_bytes(), suffix@, offset as int);
            assert(full.take(i as int).push(full[i as int]) =~= full.take(i + 1 as int));
        }
        i += 1;
    }
    proof {
        let full = derived_key(passphrase.spec_bytes(), suffix@, offset as int);
        assert(full.take(KEY_LENGTH as int) =~= full);
    }
    key
}

/// The inner layer's key for this passphrase.
fn build_key(passphrase: &str) -> (r: Vec<u8>)
    ensures
        r@ == inner_key(passphrase.spec_bytes()),
        r@.len() == KEY_LENGTH,
{
    let suffix = inner_suffix_vec();
    derive_key_bytes(passphrase, &suffix, 19)
}

/// The outer layer's key for this passphrase.
fn build_alternate_key(passphrase: &str) -> (r: Vec<u8>)
    ensures
        r@ == outer_key(passphrase.spec_bytes()),
        r@.len() == KEY_LENGTH,
{
    let suffix = outer_suffix_vec();
    derive_key_bytes(passphrase, &suffix, 23)
}

/// The inner layer's fixed nonce.
fn build_nonce() -> (r: Vec<u8>)
    ensures
        r@ == inner_nonce(),
        r@.len() == NONCE_LENGTH,
{
    let mut nonce: Vec<u8> = Vec::new();
    let mut i: usize = 0;
    while i < NONCE_LENGTH
        invariant
            i <= NONCE_LENGTH,
            nonce@ == inner_nonce().take(i as int),
        decreases NONCE_LENGTH - i,
    {
        nonce.push(((i + 21) % 256) as u8);
        proof {
            assert(inner_nonce().take(i as int).push(inner_nonce()[i as int]) =~= inner_nonce()
                .take(i + 1 as int));
        }
        i += 1;
    }
    proof {
        assert(inner_nonce().take(NONCE_LENGTH as int) =~= inner_nonce());
    }
    nonce
}

/// The outer layer's fixed nonce: the pattern `i + 13`, written in reverse.
fn build_alternate_nonce() -> (r: Vec<u8>)
    ensures
        r@ == outer_nonce(),
        r@.len() == NONCE_LENGTH,
{
    let mut nonce: Vec<u8> = Vec::new();
    let mut i: usize = 0;
    while i < NONCE_LENGTH
        invariant
            i <= NONCE_LENGTH,
            nonce@ == outer_nonce().take(i as int),
        decreases NONCE_LENGTH - i,
    {
        nonce.push(((NONCE_LENGTH - 1 - i + 13) % 256) as u8);
        proof {
            assert(outer_nonce().take(i as int).push(outer_nonce()[i as int]) =~= outer_nonce()
                .take(i + 1 as int));
        }
        i += 1;
    }
    proof {
        assert(outer_nonce().take(NONCE_LENGTH as int) =~= outer_nonce());
    }
    nonce
}

/// Encrypts `payload` under `passphrase`: the payload is wrapped in the two
/// scramble blocks, sealed under the inner and then the outer layer, and the
/// result is written behind the envelope prefix block. The ciphertext always
/// exceeds the payload by exactly `TOTAL_OVERHEAD` bytes, and decrypting it
/// with the same passphrase returns exactly the payload.
pub fn encrypt(passphrase: &str, payload: &[u8]) -> (r: Vec<u8>)
    requires
        payload@.len() + TOTAL_OVERHEAD <= usize::MAX,
    ensures
        r@.len() == payload@.len() + TOTAL_OVERHEAD,
        is_encryption_of(r@, passphrase.spec_bytes(), payload@),
        decrypt_spec(passphrase.spec_bytes(), r@) == Some(payload@),
{
    let mut out = random_bytes(PREFIX_LENGTH);

    let mut content = random_bytes(ENCRYPT_PREFIX_LENGTH);
    let ghost ipre = content@;
    append_bytes(&mut content, payload);
    let isuf_buf = random_bytes(ENCRYPT_SUFFIX_LENGTH);
    append_bytes(&mut content, isuf_buf.as_slice());

    let nonce = build_nonce();
    let key = build_key(passphrase);
    let encrypted_buf = seal_box(content.as_slice(), &nonce, &key);

    let alternate_nonce = build_alternate_nonce();
    let alternate_key = build_alternate_key(passphrase);
    let re_encrypted_buf = seal_box(encrypted_buf.as_slice(), &alternate_nonce, &alternate_key);

    append_bytes(&mut out, re_encrypted_buf.as_slice());

    proof {
        let pass = passphrase.spec_bytes();
        assert(out@.skip(PREFIX_LENGTH as int) =~= re_encrypted_buf@);
        assert(is_encryption_of(out@, pass, payload@));
        let scrambled = ipre + payload@ + isuf_buf@;
        assert(scrambled.subrange(
            ENCRYPT_PREFIX_LENGTH as int,
            scrambled.len() - ENCRYPT_SUFFIX_LENGTH,
        ) =~= payload@);
    }
    out
}

/// Decrypts what `encrypt` produced: strips the envelope prefix, opens the
/// outer and then the inner layer, and strips the scramble blocks. Every
/// failure — a truncated input, either authentication tag refusing to verify,
/// or an opened layer too short to hold the scramble blocks — is reported as
/// the same opaque error, and nothing is returned on failure.
pub fn decrypt(passphrase: &str, input: &[u8]) -> (r: Result<Vec<u8>, DecryptError>)
    ensures
        r matches Ok(p) ==> decrypt_spec(passphrase.spec_bytes(), input@) == Some(p@),
        r is Err ==> decrypt_spec(passphrase.spec_bytes(), input@) is None,
{
    let content = match strip_random_bytes(input, PREFIX_LENGTH) {
        Ok(c) => c,
        Err(e) => {
            return Err(e);
        },
    };

    let alternate_nonce = build_alternate_nonce();
    let alternate_key = build_alternate_key(passphrase);
    let decrypted_buf = match open_box(content.as_slice(), &alternate_nonce, &alternate_key) {
        Some(b) => b,
        None => {
            return Err(DecryptError {  });
        },
    };

    let nonce = build_nonce();
    let key = build_key(passphrase);
    let re_decrypted_buf = match open_box(decrypted_buf.as_slice(), &nonce, &key) {
        Some(b) => b,
        None => {
            return Err(DecryptError {  });
        },
    };

    if re_decrypted_buf.len() < ENCRYPT_PREFIX_LENGTH + ENCRYPT_SUFFIX_LENGTH {
        return Err(DecryptError {  });
    }
    let end_idx = re_decrypted_buf.len() - ENCRYPT_SUFFIX_LENGTH;
    Ok(subvec(re_decrypted_buf.as_slice(), ENCRYPT_PREFIX_LENGTH, end_idx))
}

} // verus!
