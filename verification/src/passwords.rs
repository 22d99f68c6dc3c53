//! Password hashing with Argon2id (m = 64 MiB, t = 3 iterations, p = 4
//! lanes), stored as PHC strings.
//!
//! These functions block for the length of an Argon2 run; the server calls
//! them on its blocking thread pool.

use vstd::prelude::*;
use argon2::password_hash::rand_core::OsRng;
use argon2::password_hash::{Salt, SaltString};
use argon2::{Algorithm, Argon2, Params, Version};
use argon2::PasswordHasher as _;
use argon2::PasswordVerifier as _;
use crate::decimal::{decimal, decimal_value, is_digit};
use crate::text::{byte_len, chars_of, lemma_byte_len_at_most_four_per_char};

verus! {

/// `argon2::Params`, opaque here.
#[verifier::external_type_specification]
#[verifier::external_body]
pub struct ExParams(Params);

/// `argon2::Error`, opaque here.
#[verifier::external_type_specification]
#[verifier::external_body]
pub struct ExArgon2Error(argon2::Error);

/// `argon2::Algorithm`, with its variants.
#[verifier::external_type_specification]
pub struct ExAlgorithm(Algorithm);

/// `argon2::Version`, with its variants.
#[verifier::external_type_specification]
pub struct ExVersion(Version);

/// An Argon2 variant.
#[derive(Debug, Clone, Copy, PartialEq, Eq, Structural)]
pub enum HashAlgorithm {
    Argon2d,
    Argon2i,
    Argon2id,
}

/// An Argon2 version: 0x10 or 0x13.
#[derive(Debug, Clone, Copy, PartialEq, Eq, Structural)]
pub enum HashVersion {
    V0x10,
    V0x13,
}

/// The settings of an Argon2 hasher: variant, version, memory in KiB,
/// passes and lanes (the output length is the default, 32 bytes).
#[derive(Debug, Clone, Copy, PartialEq, Eq, Structural)]
pub struct Argon2Settings {
    pub algorithm: HashAlgorithm,
    pub version: HashVersion,
    pub m_cost: u32,
    pub t_cost: u32,
    pub p_cost: u32,
}

pub const M_COST: u32 = 65536;
pub const T_COST: u32 = 3;
pub const P_COST: u32 = 4;

/// The hardened settings of this library: Argon2id, version 0x13,
/// m = 64 MiB, t = 3, p = 4.
pub open spec fn hardened_settings() -> Argon2Settings {
    Argon2Settings {
        algorithm: HashAlgorithm::Argon2id,
        version: HashVersion::V0x13,
        m_cost: M_COST,
        t_cost: T_COST,
        p_cost: P_COST,
    }
}

/// The costs that `argon2::Params::new` accepts: at least 8 KiB and at least
/// 8 KiB per lane of memory, at least one pass, between 1 and 2^24 - 1
/// lanes, and an output length, if one is given, of 4 to 2^32 - 1 bytes.
pub open spec fn argon2_params_valid(m_cost: u32, t_cost: u32, p_cost: u32, output_len: Option<usize>) -> bool {
    &&& m_cost >= 8
    &&& m_cost >= p_cost * 8
    &&& t_cost >= 1
    &&& 1 <= p_cost <= 0xFF_FFFF
    &&& output_len matches Some(len) ==> 4 <= len <= 0xFFFF_FFFF
}

/// Settings that an Argon2 context can be built from.
pub open spec fn settings_valid(s: Argon2Settings) -> bool {
    s.p_cost * 8 <= u32::MAX && argon2_params_valid(s.m_cost, s.t_cost, s.p_cost, None)
}

/// `argon2::Params::new`: succeeds exactly on the costs of
/// [`argon2_params_valid`] (as its source checks them). `p_cost * 8` is
/// computed first, so `p_cost` must keep it within `u32`.
#[verifier::external_body]
fn params_new(m_cost: u32, t_cost: u32, p_cost: u32, output_len: Option<usize>) -> (r: Result<Params, argon2::Error>)
    requires
        p_cost * 8 <= u32::MAX,
    ensures
        r is Ok <==> argon2_params_valid(m_cost, t_cost, p_cost, output_len),
{
    Params::new(m_cost, t_cost, p_cost, output_len)
}

/// The `argon2` crate's value of a variant.
pub open spec fn outside_algorithm(a: HashAlgorithm) -> Algorithm {
    match a {
        HashAlgorithm::Argon2d => Algorithm::Argon2d,
        HashAlgorithm::Argon2i => Algorithm::Argon2i,
        HashAlgorithm::Argon2id => Algorithm::Argon2id,
    }
}

/// The `argon2` crate's value of a version.
pub open spec fn outside_version(v: HashVersion) -> Version {
    match v {
        HashVersion::V0x10 => Version::V0x10,
        HashVersion::V0x13 => Version::V0x13,
    }
}

fn to_outside_algorithm(a: HashAlgorithm) -> (r: Algorithm)
    ensures
        r == outside_algorithm(a),
{
    match a {
        HashAlgorithm::Argon2d => Algorithm::Argon2d,
        HashAlgorithm::Argon2i => Algorithm::Argon2i,
        HashAlgorithm::Argon2id => Algorithm::Argon2id,
    }
}

fn to_outside_version(v: HashVersion) -> (r: Version)
    ensures
        r == outside_version(v),
{
    match v {
        HashVersion::V0x10 => Version::V0x10,
        HashVersion::V0x13 => Version::V0x13,
    }
}

/// A character of the standard base64 alphabet.
pub open spec fn is_b64_char(c: char) -> bool {
    ('A' <= c && c <= 'Z') || ('a' <= c && c <= 'z') || ('0' <= c && c <= '9') || c == '+' || c == '/'
}

/// The text of a salt of 16 bytes in unpadded standard base64: 22
/// characters, the last of which carries two bits and four zero bits.
pub open spec fn salt_text_generated(s: Seq<char>) -> bool {
    &&& s.len() == 22
    &&& forall|i: int| 0 <= i < 22 ==> is_b64_char(#[trigger] s[i])
    &&& (s[21] == 'A' || s[21] == 'Q' || s[21] == 'g' || s[21] == 'w')
}

/// `SaltString::generate(&mut OsRng)`, as text: 16 random bytes from the
/// operating system in unpadded base64. Stated: the text has that form;
/// which bytes came is not stated.
#[verifier::external_body]
fn random_salt() -> (r: String)
    ensures
        salt_text_generated(r@),
{
    SaltString::generate(&mut OsRng).as_str().to_string()
}

/// The PHC string that Argon2 hashing gives for a password (its bytes), a
/// salt text and settings (a function of these alone; the Argon2 algorithm
/// is not written out here).
pub uninterp spec fn phc_of(password: Seq<u8>, salt: Seq<char>, settings: Argon2Settings) -> Seq<char>;

/// What verifying a password (its bytes) against a PHC string gives, with a
/// context built without a secret key (a function of these alone).
pub uninterp spec fn verify_outcome_of(password: Seq<u8>, phc: Seq<char>) -> VerifyOutcome;

/// Whether `PasswordHash::new` accepts the text as a PHC string (a
/// function of the text alone; the PHC grammar is not written out here).
pub uninterp spec fn phc_parses(s: Seq<char>) -> bool;

/// `PasswordHash::new`: whether the text parses as a PHC string, exactly
/// [`phc_parses`].
#[verifier::external_body]
fn phc_well_formed(s: &str) -> (r: bool)
    ensures
        r == phc_parses(s@),
{
    match argon2::PasswordHash::new(s) {
        Ok(_) => true,
        Err(_) => false,
    }
}

/// The algorithm identifier that a PHC string carries.
pub open spec fn algorithm_ident(a: HashAlgorithm) -> Seq<char> {
    match a {
        HashAlgorithm::Argon2d => "argon2d"@,
        HashAlgorithm::Argon2i => "argon2i"@,
        HashAlgorithm::Argon2id => "argon2id"@,
    }
}

/// The number of a version, as a PHC string writes it.
pub open spec fn version_number(v: HashVersion) -> nat {
    match v {
        HashVersion::V0x10 => 16,
        HashVersion::V0x13 => 19,
    }
}

/// The head of a PHC string of Argon2 with these settings, up to the salt:
/// `$<algorithm>$v=<version>$m=<m>,t=<t>,p=<p>$`.
pub open spec fn phc_head(s: Argon2Settings) -> Seq<char> {
    seq!['$'] + algorithm_ident(s.algorithm) + seq!['$', 'v', '='] + decimal(version_number(s.version))
        + seq!['$', 'm', '='] + decimal(s.m_cost as nat) + seq![',', 't', '='] + decimal(s.t_cost as nat)
        + seq![',', 'p', '='] + decimal(s.p_cost as nat) + seq!['$']
}

/// The end of the run of decimal digits of `s` that starts at `i`.
pub open spec fn digit_run_end(s: Seq<char>, i: int) -> int
    decreases s.len() - i,
{
    if 0 <= i < s.len() && is_digit(s[i]) {
        digit_run_end(s, i + 1)
    } else {
        i
    }
}

/// The number of `$` in `s` from position `i` on.
pub open spec fn dollars_from(s: Seq<char>, i: int) -> nat
    decreases s.len() - i,
{
    if i < 0 || i >= s.len() {
        0
    } else {
        (if s[i] == '$' { 1nat } else { 0nat }) + dollars_from(s, i + 1)
    }
}

/// At `i` the parameters of a PHC text give a lane count `p` whose
/// eight-fold does not fit in a `u32`, and a salt and a hash follow: the
/// key `p` starts a parameter (after `$` or `,`), its digits read as such
/// a number, and two more `$`-fields come after it.
pub open spec fn excessive_lanes_at(s: Seq<char>, i: int) -> bool {
    &&& 1 <= i && i + 1 < s.len()
    &&& (s[i - 1] == '$' || s[i - 1] == ',')
    &&& s[i] == 'p' && s[i + 1] == '='
    &&& decimal_value(s.subrange(i + 2, digit_run_end(s, i + 2))) * 8 > u32::MAX
    &&& dollars_from(s, i) >= 2
}

/// A PHC text that asks for so many lanes that `argon2::Params::new`
/// would overflow computing eight times their number.
pub open spec fn excessive_lanes(s: Seq<char>) -> bool {
    exists|i: int| excessive_lanes_at(s, i)
}

/// How a verification against a stored hash came out.
#[derive(Debug, Clone, Copy, PartialEq, Eq, Structural)]
pub enum VerifyOutcome {
    /// The password matches the hash.
    Match,
    /// The password does not match (`password_hash::Error::Password`).
    Mismatch,
    /// The verification itself failed (any other error).
    Failure,
}

/// Argon2 hashing with a context built from `settings` (`Params::new`,
/// `Argon2::new`), the salt taken as base64 text (`Salt::from_b64`), then
/// `PasswordHasher::hash_password` and its PHC string (`Display` of
/// `PasswordHash`). Stated, from the sources of `argon2` and
/// `password-hash`:
/// - the string is [`phc_of`] of the password, the salt and the settings;
/// - it begins with [`phc_head`] of the settings, then the salt and a `$`
///   (the `Display` of `PasswordHash` writes algorithm, version, the
///   parameters `m`, `t`, `p` and the salt it was given, in that order);
/// - it parses as a PHC string (the string that `PasswordHashString` holds,
///   which its documentation says is ensured to parse);
/// - verifying the same password against it gives `Match` (verification
///   recomputes the hash with the salt, parameters, algorithm and version
///   read from the string and compares);
/// - with valid settings and a generated salt, hashing fails only for a
///   password of more than 2^32 - 1 bytes (`Error::PwdTooLong`), the one
///   check left to fail, and such a password always fails;
/// - its lane count is that of the settings (at most 2^24 - 1), and no
///   other `p=` occurs in it (salt and hash are base64, which has no `=`),
///   so it does not ask for [`excessive_lanes`].
#[verifier::external_body]
fn hash_to_phc(settings: &Argon2Settings, algorithm: Algorithm, version: Version, password: &[u8], salt: &str) -> (r: Option<String>)
    requires
        settings.p_cost * 8 <= u32::MAX,
        algorithm == outside_algorithm(settings.algorithm),
        version == outside_version(settings.version),
    ensures
        settings_valid(*settings) && password@.len() <= u32::MAX && salt_text_generated(salt@) ==> r is Some,
        r matches Some(s) ==> s@ == phc_of(password@, salt@, *settings),
        r matches Some(s) ==> (phc_head(*settings) + salt@ + seq!['$']).is_prefix_of(s@),
        r matches Some(s) ==> phc_parses(s@),
        password@.len() > u32::MAX ==> r is None,
        r matches Some(s) ==> verify_outcome_of(password@, s@) == VerifyOutcome::Match,
        r matches Some(s) ==> !excessive_lanes(s@),
{
    let params = match Params::new(settings.m_cost, settings.t_cost, settings.p_cost, None) {
        Ok(p) => p,
        Err(_) => return None,
    };
    let salt = match Salt::from_b64(salt) {
        Ok(s) => s,
        Err(_) => return None,
    };
    match Argon2::new(algorithm, version, params).hash_password(password, salt) {
        Ok(hash) => Some(hash.to_string()),
        Err(_) => None,
    }
}

/// `PasswordHash::new` on the stored text, then
/// `PasswordVerifier::verify_password` with a context built from
/// `settings`, its outcome told apart by variant. Stated: `None` exactly
/// when the text does not parse; otherwise the outcome is
/// [`verify_outcome_of`] of the password and the text. Verification takes
/// algorithm, version and parameters from the stored text, and of the
/// context only its secret key, which `Argon2::new` leaves empty; so the
/// outcome does not depend on `settings`. Verification rebuilds the
/// parameters from the text with `Params::new`, which computes eight times
/// the lane count in a `u32`; texts that would overflow there
/// ([`excessive_lanes`]) are left out. A stored text whose costs exceed
/// the machine's memory makes the allocation abort, as it does with any
/// caller of `verify_password`.
#[verifier::external_body]
fn verify_phc(settings: &Argon2Settings, algorithm: Algorithm, version: Version, password: &[u8], phc: &str) -> (r: Option<VerifyOutcome>)
    requires
        settings_valid(*settings),
        algorithm == outside_algorithm(settings.algorithm),
        version == outside_version(settings.version),
        !excessive_lanes(phc@),
    ensures
        r is Some <==> phc_parses(phc@),
        r matches Some(o) ==> o == verify_outcome_of(password@, phc@),
{
    let parsed = match argon2::PasswordHash::new(phc) {
        Ok(h) => h,
        Err(_) => return None,
    };
    let params = match Params::new(settings.m_cost, settings.t_cost, settings.p_cost, None) {
        Ok(p) => p,
        Err(_) => return None,
    };
    match Argon2::new(algorithm, version, params).verify_password(password, &parsed) {
        Ok(()) => Some(VerifyOutcome::Match),
        Err(argon2::password_hash::Error::Password) => Some(VerifyOutcome::Mismatch),
        Err(_) => Some(VerifyOutcome::Failure),
    }
}

/// Why hashing or verifying failed.
#[derive(Debug, Clone, Copy, PartialEq, Eq, Structural)]
pub enum PasswordError {
    /// The Argon2 parameters were refused.
    InvalidParams,
    /// Hashing failed.
    HashFailed,
    /// The stored hash is not a valid PHC string.
    InvalidHash,
    /// Verifying failed for another reason than a wrong password.
    VerifyFailed,
}

/// The settings of the Argon2id hasher with m = 64 MiB, t = 3, p = 4
/// (version 0x13), checked by `argon2::Params::new`. These costs are
/// valid, so it never fails.
pub fn argon2() -> (r: Result<Argon2Settings, PasswordError>)
    ensures
        r == Ok::<Argon2Settings, PasswordError>(hardened_settings()),
        settings_valid(hardened_settings()),
{
    match params_new(M_COST, T_COST, P_COST, None) {
        Err(_) => Err(PasswordError::InvalidParams),
        Ok(_) => Ok(Argon2Settings {
            algorithm: HashAlgorithm::Argon2id,
            version: HashVersion::V0x13,
            m_cost: M_COST,
            t_cost: T_COST,
            p_cost: P_COST,
        }),
    }
}

/// The head of every hash this library makes.
pub open spec fn hardened_head() -> Seq<char> {
    "$argon2id$v=19$m=65536,t=3,p=4$"@
}

/// `phc` is the Argon2 hash of `password` with the hardened settings and
/// the generated salt `salt`: the head, the salt, a `$`, then the hash.
pub open spec fn hardened_hash_with(password: Seq<char>, salt: Seq<char>, phc: Seq<char>) -> bool {
    &&& salt_text_generated(salt)
    &&& phc == phc_of(vstd::utf8::encode_utf8(password), salt, hardened_settings())
    &&& (hardened_head() + salt + seq!['$']).is_prefix_of(phc)
}

/// `phc` is an Argon2 hash of `password` with the hardened settings and
/// some generated salt.
pub open spec fn hardened_hash_of(password: Seq<char>, phc: Seq<char>) -> bool {
    exists|salt: Seq<char>| #[trigger] hardened_hash_with(password, salt, phc)
}

/// What a verification outcome means.
pub open spec fn outcome_result(o: VerifyOutcome) -> Result<bool, PasswordError> {
    match o {
        VerifyOutcome::Match => Ok(true),
        VerifyOutcome::Mismatch => Ok(false),
        VerifyOutcome::Failure => Err(PasswordError::VerifyFailed),
    }
}

/// What [`verify`] answers for a password and a stored hash.
pub open spec fn password_verification(password: Seq<char>, phc: Seq<char>) -> Result<bool, PasswordError> {
    if !phc_parses(phc) {
        Err(PasswordError::InvalidHash)
    } else if excessive_lanes(phc) {
        Err(PasswordError::VerifyFailed)
    } else {
        outcome_result(verify_outcome_of(vstd::utf8::encode_utf8(password), phc))
    }
}

/// The head of every hash this library makes.
pub proof fn lemma_hardened_head()
    ensures
        phc_head(hardened_settings()) == hardened_head(),
{
    reveal_strlit("argon2id");
    reveal_strlit("$argon2id$v=19$m=65536,t=3,p=4$");
    reveal_with_fuel(decimal, 6);
    assert(decimal(19) =~= seq!['1', '9']);
    assert(decimal(65536) =~= seq!['6', '5', '5', '3', '6']);
    assert(phc_head(hardened_settings()) =~= "$argon2id$v=19$m=65536,t=3,p=4$"@);
}

/// Hashes a password with Argon2id (m = 64 MiB, t = 3, p = 4) and the
/// given salt (16 bytes in unpadded base64), giving the PHC string
/// `$argon2id$v=19$m=65536,t=3,p=4$<salt>$<hash>` that [`verify`] accepts
/// for this password. It succeeds exactly for the passwords of at most
/// 2^32 - 1 bytes; otherwise it fails with `HashFailed`.
pub fn hash_with_salt(password: &str, salt: &str) -> (r: Result<String, PasswordError>)
    requires
        salt_text_generated(salt@),
    ensures
        r is Ok <==> byte_len(password@) <= u32::MAX,
        r matches Ok(s) ==> hardened_hash_with(password@, salt@, s@),
        r matches Ok(s) ==> password_verification(password@, s@) == Ok::<bool, PasswordError>(true),
        r matches Err(e) ==> e == PasswordError::HashFailed,
{
    let settings = match argon2() {
        Ok(s) => s,
        Err(e) => {
            return Err(e);
        },
    };
    let bytes = password.as_bytes();
    match hash_to_phc(&settings, to_outside_algorithm(settings.algorithm), to_outside_version(settings.version), bytes, salt) {
        Some(phc) => {
            proof {
                lemma_hardened_head();
            }
            Ok(phc)
        },
        None => Err(PasswordError::HashFailed),
    }
}

/// Hashes a password with Argon2id (m = 64 MiB, t = 3, p = 4) and a fresh
/// random salt (see [`hash_with_salt`]), giving a PHC string
/// `$argon2id$v=19$m=65536,t=3,p=4$<salt>$<hash>` that [`verify`] accepts
/// for this password. It succeeds for every password of at most 2^32 - 1
/// bytes; otherwise it fails with `HashFailed`.
pub fn hash(password: &str) -> (r: Result<String, PasswordError>)
    ensures
        r is Ok <==> byte_len(password@) <= u32::MAX,
        r matches Ok(s) ==> hardened_hash_of(password@, s@),
        r matches Ok(s) ==> hardened_head().is_prefix_of(s@),
        r matches Ok(s) ==> password_verification(password@, s@) == Ok::<bool, PasswordError>(true),
        r matches Err(e) ==> e == PasswordError::HashFailed,
{
    let salt = random_salt();
    let r = hash_with_salt(password, salt.as_str());
    proof {
        if let Ok(ref phc) = r {
            assert(hardened_hash_with(password@, salt@, phc@));
            let head = hardened_head() + salt@ + seq!['$'];
            assert(hardened_head().is_prefix_of(phc@)) by {
                assert(phc@.subrange(0, hardened_head().len() as int) =~= head.subrange(0, hardened_head().len() as int));
            }
        }
    }
    r
}

/// Where the run of digits starting at `i` ends: beyond it lies no digit.
proof fn lemma_digit_run_end(s: Seq<char>, i: int)
    requires
        0 <= i <= s.len(),
    ensures
        i <= digit_run_end(s, i) <= s.len(),
        forall|k: int| i <= k < digit_run_end(s, i) ==> is_digit(#[trigger] s[k]),
        digit_run_end(s, i) < s.len() ==> !is_digit(s[digit_run_end(s, i)]),
    decreases s.len() - i,
{
    if i < s.len() && is_digit(s[i]) {
        lemma_digit_run_end(s, i + 1);
    }
}

/// More characters never make a smaller number.
proof fn lemma_decimal_value_grows(s: Seq<char>, a: int, j: int, k: int)
    requires
        0 <= a <= j <= k <= s.len(),
    ensures
        decimal_value(s.subrange(a, j)) <= decimal_value(s.subrange(a, k)),
    decreases k - j,
{
    if j < k {
        lemma_decimal_value_grows(s, a, j, k - 1);
        assert(s.subrange(a, k).drop_last() =~= s.subrange(a, k - 1));
    }
}

/// Whether the digits starting at `start` read as a number whose eight-fold
/// does not fit in a `u32`.
fn lanes_overflow(cs: &Vec<char>, start: usize) -> (r: bool)
    requires
        start <= cs@.len(),
    ensures
        r == (decimal_value(cs@.subrange(start as int, digit_run_end(cs@, start as int))) * 8 > u32::MAX),
{
    let n = cs.len();
    let mut acc: u64 = 0;
    let mut j: usize = start;
    assert(cs@.subrange(start as int, start as int) =~= Seq::<char>::empty());
    while j < n && '0' <= cs[j] && cs[j] <= '9'
        invariant
            n == cs@.len(),
            start <= j <= n,
            digit_run_end(cs@, start as int) == digit_run_end(cs@, j as int),
            acc == decimal_value(cs@.subrange(start as int, j as int)),
            acc * 8 <= u32::MAX,
        decreases n - j,
    {
        let d = ((cs[j] as u32) - 48) as u64;
        let next = acc * 10 + d;
        proof {
            assert(cs@.subrange(start as int, j + 1).drop_last() =~= cs@.subrange(start as int, j as int));
        }
        if next * 8 > 0xFFFF_FFFF {
            proof {
                lemma_digit_run_end(cs@, j + 1);
                lemma_decimal_value_grows(cs@, start as int, j + 1, digit_run_end(cs@, j + 1));
            }
            return true;
        }
        acc = next;
        j = j + 1;
    }
    false
}

/// Whether the stored text asks for [`excessive_lanes`].
fn has_excessive_lanes(s: &str) -> (r: bool)
    ensures
        r == excessive_lanes(s@),
{
    let cs = chars_of(s);
    let n = cs.len();
    let mut i: usize = n;
    let mut dollars: usize = 0;
    while i > 0
        invariant
            n == cs@.len(),
            cs@ == s@,
            0 <= i <= n,
            dollars == dollars_from(cs@, i as int),
            dollars <= n - i,
            forall|k: int| i <= k ==> !#[trigger] excessive_lanes_at(cs@, k),
        decreases i,
    {
        i = i - 1;
        if cs[i] == '$' {
            dollars = dollars + 1;
        }
        if i >= 1 && i + 1 < n && (cs[i - 1] == '$' || cs[i - 1] == ',') && cs[i] == 'p' && cs[i + 1] == '='
            && dollars >= 2 {
            if lanes_overflow(&cs, i + 2) {
                assert(excessive_lanes_at(cs@, i as int));
                return true;
            }
        }
    }
    assert forall|k: int| !#[trigger] excessive_lanes_at(cs@, k) by {
        if k < 0 {
        }
    }
    false
}

/// What a verification outcome means: `true` on a match, `false` on a wrong
/// password, `VerifyFailed` when the verification itself failed.
pub fn verification_result(outcome: VerifyOutcome) -> (r: Result<bool, PasswordError>)
    ensures
        r == outcome_result(outcome),
{
    match outcome {
        VerifyOutcome::Match => Ok(true),
        VerifyOutcome::Mismatch => Ok(false),
        VerifyOutcome::Failure => Err(PasswordError::VerifyFailed),
    }
}

/// Verifies a password against a stored PHC hash: `Ok(true)` when it
/// matches, `Ok(false)` when it does not; `InvalidHash` when the hash does
/// not parse, `VerifyFailed` when the verification fails otherwise (among
/// those failures, a hash whose lane count is too large for Argon2, which
/// is answered before any Argon2 work).
pub fn verify(password: &str, hash: &str) -> (r: Result<bool, PasswordError>)
    ensures
        r == password_verification(password@, hash@),
{
    if !phc_well_formed(hash) {
        return Err(PasswordError::InvalidHash);
    }
    let settings = match argon2() {
        Ok(s) => s,
        Err(e) => {
            return Err(e);
        },
    };
    if has_excessive_lanes(hash) {
        return Err(PasswordError::VerifyFailed);
    }
    match verify_phc(&settings, to_outside_algorithm(settings.algorithm), to_outside_version(settings.version), password.as_bytes(), hash) {
        None => Err(PasswordError::InvalidHash),
        Some(outcome) => verification_result(outcome),
    }
}

/// A valid Argon2id hash of a fixed sentinel: when a user is not found,
/// the supplied password is verified against it anyway (and the result
/// dropped), so that the reply takes as long as a failed login. It never
/// fails, and [`verify`] parses it and runs the full Argon2 computation
/// on it.
pub fn dummy_hash() -> (r: Result<String, PasswordError>)
    ensures
        r is Ok,
        r matches Ok(s) ==> hardened_hash_of("__podkit_timing_sentinel__"@, s@),
        r matches Ok(s) ==> hardened_head().is_prefix_of(s@),
        r matches Ok(s) ==> phc_parses(s@),
        r matches Ok(s) ==> password_verification("__podkit_timing_sentinel__"@, s@) == Ok::<bool, PasswordError>(true),
{
    let sentinel = "__podkit_timing_sentinel__";
    proof {
        reveal_strlit("__podkit_timing_sentinel__");
        lemma_byte_len_at_most_four_per_char(sentinel@);
    }
    hash(sentinel)
}


/// Verification follows Argon2 on every stored hash that parses and asks
/// for a lane count Argon2 can take, whatever its algorithm, version and
/// costs: a match is `Ok(true)`, a mismatch `Ok(false)`, and a failed
/// verification `VerifyFailed`.
pub proof fn lemma_verification_follows_argon2(password: Seq<char>, phc: Seq<char>)
    requires
        phc_parses(phc),
        !excessive_lanes(phc),
    ensures
        verify_outcome_of(vstd::utf8::encode_utf8(password), phc) == VerifyOutcome::Match
            ==> password_verification(password, phc) == Ok::<bool, PasswordError>(true),
        verify_outcome_of(vstd::utf8::encode_utf8(password), phc) == VerifyOutcome::Mismatch
            ==> password_verification(password, phc) == Ok::<bool, PasswordError>(false),
        verify_outcome_of(vstd::utf8::encode_utf8(password), phc) == VerifyOutcome::Failure
            ==> password_verification(password, phc) == Err::<bool, PasswordError>(PasswordError::VerifyFailed),
{
}

} // verus!
