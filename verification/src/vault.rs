//! Local files sealed with the machine's key: AES-128-CBC with PKCS#7
//! padding under a random IV, stored as `base64(iv)%base64(ciphertext)`.

use vstd::prelude::*;
use block_modes::BlockMode;
use vstd::string::StringSliceAdditionalSpecFns;
use crate::codec::{base64_encode, base64_decode, base64_standard, base64_decoded, is_base64_char};
use crate::text::{
    chars_of, string_of, split_on, split_ranges, trim, trim_bounds, trim_start, trim_end, is_ws, first_index,
    lemma_first_index_char, lemma_first_index_none, push_str, push_decimal, decimal,
};

verus! {

/// AES-128-CBC, PKCS#7 padded, of `data` under `key` and `iv`.
pub uninterp spec fn cbc_encrypted(key: Seq<u8>, iv: Seq<u8>, data: Seq<u8>) -> Seq<u8>;

/// The plaintext of `data` under `key` and `iv`; `None` where its length
/// is no whole number of blocks or its padding is wrong.
pub uninterp spec fn cbc_decrypted(key: Seq<u8>, iv: Seq<u8>, data: Seq<u8>) -> Option<Seq<u8>>;

/// `Cbc::<Aes128, Pkcs7>::new_from_slices(key, iv)` then `encrypt_vec(data)`:
/// `None` where the key or IV is not 16 bytes long. Decrypting the result
/// under the same key and IV gives `data` back.
#[verifier::external_body]
fn cbc_encrypt(key: &[u8], iv: &[u8], data: &[u8]) -> (r: Option<Vec<u8>>)
    ensures
        r is Some == (key@.len() == 16 && iv@.len() == 16),
        r matches Some(c) ==> c@ == cbc_encrypted(key@, iv@, data@) && cbc_decrypted(key@, iv@, c@) == Some(
            data@,
        ),
{
    let c = block_modes::Cbc::<aes::Aes128, block_modes::block_padding::Pkcs7>::new_from_slices(key, iv).ok()?;
    Some(c.encrypt_vec(data))
}

/// `Cbc::<Aes128, Pkcs7>::new_from_slices(key, iv)` then `decrypt_vec(data)`,
/// `None` on either error.
#[verifier::external_body]
fn cbc_decrypt(key: &[u8], iv: &[u8], data: &[u8]) -> (r: Option<Vec<u8>>)
    ensures
        !(key@.len() == 16 && iv@.len() == 16) ==> r is None,
        key@.len() == 16 && iv@.len() == 16 ==> match r {
            Some(p) => cbc_decrypted(key@, iv@, data@) == Some(p@),
            None => cbc_decrypted(key@, iv@, data@) is None,
        },
{
    let c = block_modes::Cbc::<aes::Aes128, block_modes::block_padding::Pkcs7>::new_from_slices(key, iv).ok()?;
    c.decrypt_vec(data).ok()
}

/// The key of this machine: the first 16 bytes of its id.
pub fn machine_key(id: &str) -> (k: Vec<u8>)
    requires
        id.spec_bytes().len() >= 16,
        vstd::utf8::is_char_boundary(id.spec_bytes(), 16),
    ensures
        k@ == id.spec_bytes().subrange(0, 16),
{
    let b = id.as_bytes();
    let mut k: Vec<u8> = Vec::new();
    let mut i: usize = 0;
    while i < 16
        invariant
            i <= 16,
            b@ == id.spec_bytes(),
            b@.len() >= 16,
            k@ == b@.subrange(0, i as int),
        decreases 16 - i,
    {
        k.push(b[i]);
        assert(k@ =~= b@.subrange(0, i + 1));
        i = i + 1;
    }
    k
}

/// Encrypts `data` under `key` with a fresh random IV: the IV and the
/// ciphertext, which decrypts to `data`. `None` where the key is not 16
/// bytes long.
pub fn encrypt_data(key: &[u8], data: &[u8]) -> (r: Option<(Vec<u8>, Vec<u8>)>)
    ensures
        r is Some == (key@.len() == 16),
        r matches Some((iv, c)) ==> iv@.len() == 16 && c@ == cbc_encrypted(key@, iv@, data@)
            && cbc_decrypted(key@, iv@, c@) == Some(data@),
{
    let iv = crate::outside::random_iv();
    match cbc_encrypt(key, iv.as_slice(), data) {
        Some(c) => Some((iv, c)),
        None => None,
    }
}

/// Decrypts `data` under `key` and `iv`.
pub fn decrypt_data(key: &[u8], iv: &[u8], data: &[u8]) -> (r: Option<Vec<u8>>)
    ensures
        !(key@.len() == 16 && iv@.len() == 16) ==> r is None,
        key@.len() == 16 && iv@.len() == 16 ==> match r {
            Some(p) => cbc_decrypted(key@, iv@, data@) == Some(p@),
            None => cbc_decrypted(key@, iv@, data@) is None,
        },
{
    cbc_decrypt(key, iv, data)
}

/// The text of a sealed file: `base64(iv)%base64(data)`.
pub open spec fn sealed_text(iv: Seq<u8>, data: Seq<u8>) -> Seq<char> {
    base64_standard(iv) + "%"@ + base64_standard(data)
}

/// Why a sealed text could not be opened.
#[derive(Clone, Copy, Debug, PartialEq, Eq, Structural)]
pub enum UnsealError {
    /// Not two parts around a `%`.
    Format,
    /// A part is no base64 text.
    Encoding,
}

/// The IV and ciphertext of sealed text `raw`. With `exact`, the text
/// must have exactly two parts; else the first two are read.
pub open spec fn unseal_spec(raw: Seq<char>, exact: bool) -> Result<(Seq<u8>, Seq<u8>), UnsealError> {
    let parts = split_on(raw, '%');
    if exact && parts.len() != 2 {
        Err(UnsealError::Format)
    } else {
        match (base64_decoded(trim(parts[0])), base64_decoded(trim(parts[1]))) {
            (Some(iv), Some(data)) => Ok((iv, data)),
            _ => Err(UnsealError::Encoding),
        }
    }
}

/// How many parts `raw` has around its `%` signs.
pub fn sealed_part_count(raw: &str) -> (n: usize)
    ensures
        n == split_on(raw@, '%').len(),
{
    let v = chars_of(raw);
    assert(v@.subrange(0, v@.len() as int) =~= raw@);
    let r = split_ranges(&v, 0, v.len(), '%');
    r.len()
}

/// Opens sealed text `raw` into its IV and ciphertext.
pub fn unseal(raw: &str, exact: bool) -> (r: Result<(Vec<u8>, Vec<u8>), UnsealError>)
    requires
        !exact ==> split_on(raw@, '%').len() >= 2,
    ensures
        match unseal_spec(raw@, exact) {
            Ok((iv, data)) => r matches Ok((a, b)) && a@ == iv && b@ == data,
            Err(e) => r == Err::<(Vec<u8>, Vec<u8>), UnsealError>(e),
        },
{
    let v = chars_of(raw);
    assert(v@.subrange(0, v@.len() as int) =~= raw@);
    let parts = split_ranges(&v, 0, v.len(), '%');
    if exact && parts.len() != 2 {
        return Err(UnsealError::Format);
    }
    let (a0, b0) = parts[0];
    let (a1, b1) = trim_bounds(&v, a0, b0);
    let first = string_of(&v, a1, b1);
    let (c0, d0) = parts[1];
    let (c1, d1) = trim_bounds(&v, c0, d0);
    let second = string_of(&v, c1, d1);
    let iv = match base64_decode(first.as_str()) {
        Some(x) => x,
        None => return Err(UnsealError::Encoding),
    };
    match base64_decode(second.as_str()) {
        Some(data) => Ok((iv, data)),
        None => Err(UnsealError::Encoding),
    }
}

proof fn lemma_trim_base64(s: Seq<char>)
    requires
        forall|i: int| 0 <= i < s.len() ==> is_base64_char(#[trigger] s[i]),
    ensures
        trim(s) == s,
{
    if s.len() > 0 {
        assert(is_base64_char(s[0]));
        assert(is_base64_char(s.last()));
    }
}

proof fn lemma_split_two(a: Seq<char>, b: Seq<char>)
    requires
        forall|i: int| 0 <= i < a.len() ==> is_base64_char(#[trigger] a[i]),
        forall|i: int| 0 <= i < b.len() ==> is_base64_char(#[trigger] b[i]),
    ensures
        split_on(a + "%"@ + b, '%') == seq![a, b],
{
    reveal_strlit("%");
    let s = a + "%"@ + b;
    assert forall|j: int| 0 <= j < a.len() implies s[j] != '%' by {
        assert(is_base64_char(a[j]));
    }
    lemma_first_index_char(s, '%', a.len() as int);
    assert(s.subrange(0, a.len() as int) =~= a);
    assert(s.subrange((a.len() + 1) as int, s.len() as int) =~= b);
    assert forall|j: int| 0 <= j < b.len() implies b[j] != '%' by {
        assert(is_base64_char(b[j]));
    }
    lemma_first_index_none(b, '%');
    assert(split_on(b, '%') == seq![b]);
    assert(split_on(s, '%') =~= seq![a] + seq![b]);
}

/// Seals an IV and a ciphertext into one line of text; the line opens to
/// the same two (with or without `exact`).
pub fn seal(iv: &[u8], data: &[u8]) -> (s: String)
    ensures
        s@ == sealed_text(iv@, data@),
        unseal_spec(s@, true) == Ok::<(Seq<u8>, Seq<u8>), UnsealError>((iv@, data@)),
        unseal_spec(s@, false) == Ok::<(Seq<u8>, Seq<u8>), UnsealError>((iv@, data@)),
{
    let a = base64_encode(iv);
    let b = base64_encode(data);
    let mut s = String::new();
    push_str(&mut s, a.as_str());
    push_str(&mut s, "%");
    push_str(&mut s, b.as_str());
    proof {
        assert(s@ =~= a@ + "%"@ + b@);
        crate::codec::lemma_base64_alphabet(iv@);
        crate::codec::lemma_base64_alphabet(data@);
        crate::codec::law_base64_decodes_back(iv@);
        crate::codec::law_base64_decodes_back(data@);
        lemma_split_two(a@, b@);
        lemma_trim_base64(a@);
        lemma_trim_base64(b@);
    }
    s
}

/// Whether the plaintext of sealed text `raw` under `key` is `data`.
pub open spec fn opens_to(key: Seq<u8>, raw: Seq<char>, exact: bool, data: Seq<u8>) -> bool {
    unseal_spec(raw, exact) matches Ok((iv, c)) && cbc_decrypted(key, iv, c) == Some(data)
}

/// Whether `raw` is `data` sealed under `key`: `base64(iv)%base64(c)` for
/// a 16-byte IV `iv`, `c` being the AES-128-CBC encryption of `data`, which
/// decrypts back to `data`.
pub open spec fn sealed_by(key: Seq<u8>, raw: Seq<char>, data: Seq<u8>) -> bool {
    exists|iv: Seq<u8>|
        {
            &&& iv.len() == 16
            &&& raw == #[trigger] sealed_text(iv, cbc_encrypted(key, iv, data))
            &&& cbc_decrypted(key, iv, cbc_encrypted(key, iv, data)) == Some(data)
        }
}

/// A sealed text opens to the IV and ciphertext it was made of.
pub proof fn law_unseal_sealed(iv: Seq<u8>, data: Seq<u8>, exact: bool)
    ensures
        unseal_spec(sealed_text(iv, data), exact) == Ok::<(Seq<u8>, Seq<u8>), UnsealError>((iv, data)),
{
    let a = base64_standard(iv);
    let b = base64_standard(data);
    crate::codec::lemma_base64_alphabet(iv);
    crate::codec::lemma_base64_alphabet(data);
    crate::codec::law_base64_decodes_back(iv);
    crate::codec::law_base64_decodes_back(data);
    lemma_split_two(a, b);
    lemma_trim_base64(a);
    lemma_trim_base64(b);
}

/// What `seal_data` writes for `data` under a 16-byte key opens back to
/// `data`, whether or not exactly two parts are asked for.
pub proof fn law_sealed_data_reads_back(key: Seq<u8>, raw: Seq<char>, data: Seq<u8>)
    requires
        key.len() == 16,
        sealed_by(key, raw, data),
    ensures
        open_spec(key, raw, true) == Ok::<Seq<u8>, OpenError>(data),
        open_spec(key, raw, false) == Ok::<Seq<u8>, OpenError>(data),
{
    let iv = choose|iv: Seq<u8>|
        {
            &&& iv.len() == 16
            &&& raw == #[trigger] sealed_text(iv, cbc_encrypted(key, iv, data))
            &&& cbc_decrypted(key, iv, cbc_encrypted(key, iv, data)) == Some(data)
        };
    law_unseal_sealed(iv, cbc_encrypted(key, iv, data), true);
    law_unseal_sealed(iv, cbc_encrypted(key, iv, data), false);
}

/// Encrypts `data` under `key` with a fresh random IV and seals IV and
/// ciphertext into one line, which opens back to `data`. `None` where the
/// key is not 16 bytes long.
pub fn seal_data(key: &[u8], data: &[u8]) -> (r: Option<String>)
    ensures
        r is Some == (key@.len() == 16),
        r matches Some(s) ==> sealed_by(key@, s@, data@),
        r matches Some(s) ==> opens_to(key@, s@, true, data@) && opens_to(key@, s@, false, data@),
        r matches Some(s) ==> open_spec(key@, s@, true) == Ok::<Seq<u8>, OpenError>(data@) && open_spec(
            key@,
            s@,
            false,
        ) == Ok::<Seq<u8>, OpenError>(data@),
{
    match encrypt_data(key, data) {
        Some((iv, c)) => {
            let s = seal(iv.as_slice(), c.as_slice());
            assert(sealed_by(key@, s@, data@));
            Some(s)
        },
        None => None,
    }
}

/// Why a sealed file could not be read.
#[derive(Clone, Copy, Debug, PartialEq, Eq, Structural)]
pub enum OpenError {
    Unseal(UnsealError),
    /// The key or IV has the wrong length, or the ciphertext does not decrypt.
    Decrypt,
}

/// The plaintext of sealed text `raw` under `key`, or why there is none.
pub open spec fn open_spec(key: Seq<u8>, raw: Seq<char>, exact: bool) -> Result<Seq<u8>, OpenError> {
    match unseal_spec(raw, exact) {
        Err(e) => Err(OpenError::Unseal(e)),
        Ok((iv, c)) => if key.len() == 16 && iv.len() == 16 {
            match cbc_decrypted(key, iv, c) {
                Some(p) => Ok(p),
                None => Err(OpenError::Decrypt),
            }
        } else {
            Err(OpenError::Decrypt)
        },
    }
}

/// Opens sealed text `raw` and decrypts it under `key`.
pub fn open_data(key: &[u8], raw: &str, exact: bool) -> (r: Result<Vec<u8>, OpenError>)
    requires
        !exact ==> split_on(raw@, '%').len() >= 2,
    ensures
        match open_spec(key@, raw@, exact) {
            Ok(p) => r matches Ok(b) && b@ == p,
            Err(e) => r == Err::<Vec<u8>, OpenError>(e),
        },
        r matches Ok(p) ==> opens_to(key@, raw@, exact, p@),
{
    match unseal(raw, exact) {
        Err(e) => Err(OpenError::Unseal(e)),
        Ok((iv, c)) => match decrypt_data(key, iv.as_slice(), c.as_slice()) {
            Some(p) => Ok(p),
            None => Err(OpenError::Decrypt),
        },
    }
}

/// Where the buyer list of account `uid` is cached: `./buyer_cache_<uid>.dat`.
pub open spec fn buyer_cache_path_spec(uid: i64) -> Seq<char> {
    "./buyer_cache_"@ + decimal(uid as int) + ".dat"@
}

pub fn buyer_cache_path(uid: i64) -> (p: String)
    ensures
        p@ == buyer_cache_path_spec(uid),
{
    let mut p = String::from_str("./buyer_cache_");
    push_decimal(&mut p, uid as i128);
    push_str(&mut p, ".dat");
    p
}

/// Different accounts have different buyer cache files.
pub proof fn law_buyer_cache_paths_distinct(a: i64, b: i64)
    requires
        a != b,
    ensures
        buyer_cache_path_spec(a) != buyer_cache_path_spec(b),
{
    if buyer_cache_path_spec(a) == buyer_cache_path_spec(b) {
        reveal_strlit("./buyer_cache_");
        reveal_strlit(".dat");
        let p = "./buyer_cache_"@;
        let pa = buyer_cache_path_spec(a);
        let da = decimal(a as int);
        let db = decimal(b as int);
        assert(pa.len() == p.len() + da.len() + 4);
        assert(buyer_cache_path_spec(b).len() == p.len() + db.len() + 4);
        assert(pa.subrange(p.len() as int, pa.len() - 4) =~= da);
        assert(buyer_cache_path_spec(b).subrange(p.len() as int, pa.len() - 4) =~= db);
        crate::text::lemma_decimal_injective(a as int, b as int);
    }
}

} // verus!
