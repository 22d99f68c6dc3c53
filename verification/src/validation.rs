//! Strict e-mail address validation (a subset of RFC 5321 / RFC 1123).
//!
//! - Local part: `atext` characters (`a-z A-Z 0-9` and
//!   ``! # $ % & ' * + - / = ? ^ _ ` { | } ~``) plus `.`; no dot at the
//!   start, at the end or twice in a row; at most 64 bytes.
//! - Domain: at least two labels; labels of `a-z A-Z 0-9 -` without a
//!   leading or trailing hyphen, at most 63 bytes each; a TLD of ASCII
//!   letters, at least 2 and at most 63 bytes; at most 255 bytes in all.
//! - Whole address at most 254 bytes; ASCII only.
//!
//! Rejected on purpose: quoted strings, IP literals, comments, non-ASCII
//! addresses, `localhost` and other single-label domains.
//!
//! Lengths are byte lengths of the UTF-8 encoding, as `str::len` counts them.

use vstd::prelude::*;
use vstd::slice::slice_subrange;
use vstd::string::{StringExecFns, StrSliceExecFns};
use crate::text::{byte_len, exceeds_byte_len, char_width, chars_of, debug_char, debug_char_text, lemma_byte_len_at_least_len};

verus! {

pub const MAX_EMAIL_LEN: usize = 254;
pub const MAX_LOCAL_LEN: usize = 64;
pub const MAX_DOMAIN_LEN: usize = 255;
pub const MAX_LABEL_LEN: usize = 63;
pub const MIN_TLD_LEN: usize = 2;

/// Every possible rejection reason, in the order in which it is checked.
#[derive(Debug, Clone, PartialEq, Eq, Structural)]
pub enum EmailError {
    Empty,
    TooLong,
    MissingAt,
    MultipleAt,
    LocalPartEmpty,
    LocalPartTooLong,
    LocalPartLeadingDot,
    LocalPartTrailingDot,
    LocalPartConsecutiveDots,
    LocalPartInvalidChar(char),
    DomainEmpty,
    DomainTooLong,
    DomainIpLiteralForbidden,
    DomainTrailingDot,
    /// A leading dot or two consecutive dots (both give an empty label).
    DomainLabelEmpty,
    DomainLabelTooLong,
    DomainLabelLeadingHyphen,
    DomainLabelTrailingHyphen,
    DomainLabelInvalidChar(char),
    DomainMissingTld,
    DomainTldTooShort,
    /// The TLD must hold ASCII letters only.
    DomainTldNotAlpha,
    /// A non-ASCII character; international domains go as punycode.
    NonAscii(char),
}

// ---------------------------------------------------------------------------
// Character classes

pub open spec fn is_ascii_char(c: char) -> bool {
    (c as u32) < 128
}

pub open spec fn is_ascii_letter(c: char) -> bool {
    ('a' <= c && c <= 'z') || ('A' <= c && c <= 'Z')
}

pub open spec fn is_ascii_digit(c: char) -> bool {
    '0' <= c && c <= '9'
}

/// `atext` of RFC 5321 (the dot excluded).
pub open spec fn is_atext(c: char) -> bool {
    is_ascii_letter(c) || is_ascii_digit(c) || c == '!' || c == '#' || c == '$' || c == '%'
        || c == '&' || c == '\'' || c == '*' || c == '+' || c == '-' || c == '/' || c == '='
        || c == '?' || c == '^' || c == '_' || c == '`' || c == '{' || c == '|' || c == '}'
        || c == '~'
}

/// Characters of a domain label other than the TLD (RFC 1123).
pub open spec fn is_label_char(c: char) -> bool {
    is_ascii_letter(c) || is_ascii_digit(c) || c == '-'
}

// ---------------------------------------------------------------------------
// Positions

/// Index of the first `c` in `s`, or `s.len()` when there is none.
pub open spec fn first_index_of(s: Seq<char>, c: char) -> nat
    decreases s.len(),
{
    if s.len() == 0 {
        0
    } else if s[0] == c {
        0
    } else {
        1 + first_index_of(s.drop_first(), c)
    }
}

/// Index of the last `c` in `s`, or -1 when there is none.
pub open spec fn last_index_of(s: Seq<char>, c: char) -> int
    decreases s.len(),
{
    if s.len() == 0 {
        -1
    } else if s.last() == c {
        s.len() - 1
    } else {
        last_index_of(s.drop_last(), c)
    }
}

pub proof fn lemma_first_index_of(s: Seq<char>, c: char, k: int)
    requires
        0 <= k <= s.len(),
        forall|j: int| 0 <= j < k ==> s[j] != c,
        k == s.len() || s[k] == c,
    ensures
        first_index_of(s, c) == k,
    decreases k,
{
    if k > 0 {
        lemma_first_index_of(s.drop_first(), c, k - 1);
    }
}

pub proof fn lemma_first_index_of_bound(s: Seq<char>, c: char)
    ensures
        first_index_of(s, c) <= s.len(),
        first_index_of(s, c) < s.len() ==> s[first_index_of(s, c) as int] == c,
        forall|j: int| 0 <= j < first_index_of(s, c) ==> s[j] != c,
    decreases s.len(),
{
    if s.len() > 0 && s[0] != c {
        lemma_first_index_of_bound(s.drop_first(), c);
        assert forall|j: int| 0 <= j < first_index_of(s, c) implies s[j] != c by {
            if j > 0 {
                assert(s[j] == s.drop_first()[j - 1]);
            }
        }
    }
}

pub proof fn lemma_last_index_of(s: Seq<char>, c: char, k: int)
    requires
        -1 <= k < s.len(),
        forall|j: int| k < j < s.len() ==> s[j] != c,
        k == -1 || s[k] == c,
    ensures
        last_index_of(s, c) == k,
    decreases s.len(),
{
    if s.len() > 0 && s.last() != c {
        lemma_last_index_of(s.drop_last(), c, k);
    }
}

// ---------------------------------------------------------------------------
// The rules

/// The fault of the local-part character at `i`, if it breaks a rule.
pub open spec fn local_char_fault(local: Seq<char>, i: int) -> Option<EmailError> {
    let c = local[i];
    if !is_ascii_char(c) {
        Some(EmailError::NonAscii(c))
    } else if c == '.' {
        if i > 0 && local[i - 1] == '.' {
            Some(EmailError::LocalPartConsecutiveDots)
        } else {
            None
        }
    } else if is_atext(c) {
        None
    } else {
        Some(EmailError::LocalPartInvalidChar(c))
    }
}

/// The first fault among the local-part characters from `i` on.
pub open spec fn local_scan(local: Seq<char>, i: int) -> Option<EmailError>
    decreases local.len() - i,
{
    if i >= local.len() {
        None
    } else if local_char_fault(local, i) is Some {
        local_char_fault(local, i)
    } else {
        local_scan(local, i + 1)
    }
}

/// Why the local part (before the `@`) is rejected, if it is.
pub open spec fn local_part_error(local: Seq<char>) -> Option<EmailError> {
    if local.len() == 0 {
        Some(EmailError::LocalPartEmpty)
    } else if byte_len(local) > MAX_LOCAL_LEN {
        Some(EmailError::LocalPartTooLong)
    } else if local[0] == '.' {
        Some(EmailError::LocalPartLeadingDot)
    } else if local.last() == '.' {
        Some(EmailError::LocalPartTrailingDot)
    } else {
        local_scan(local, 0)
    }
}

/// The fault of the label character at `i`, if it breaks a rule.
pub open spec fn label_char_fault(label: Seq<char>, i: int) -> Option<EmailError> {
    let c = label[i];
    if !is_ascii_char(c) {
        Some(EmailError::NonAscii(c))
    } else if !is_label_char(c) {
        Some(EmailError::DomainLabelInvalidChar(c))
    } else {
        None
    }
}

pub open spec fn label_scan(label: Seq<char>, i: int) -> Option<EmailError>
    decreases label.len() - i,
{
    if i >= label.len() {
        None
    } else if label_char_fault(label, i) is Some {
        label_char_fault(label, i)
    } else {
        label_scan(label, i + 1)
    }
}

/// Why a (non-TLD) domain label is rejected, if it is.
pub open spec fn label_error(label: Seq<char>) -> Option<EmailError> {
    if label.len() == 0 {
        Some(EmailError::DomainLabelEmpty)
    } else if byte_len(label) > MAX_LABEL_LEN {
        Some(EmailError::DomainLabelTooLong)
    } else if label[0] == '-' {
        Some(EmailError::DomainLabelLeadingHyphen)
    } else if label.last() == '-' {
        Some(EmailError::DomainLabelTrailingHyphen)
    } else {
        label_scan(label, 0)
    }
}

/// The error of the first rejected label of `body`, its labels taken
/// between dots from left to right.
pub open spec fn labels_error(body: Seq<char>) -> Option<EmailError>
    decreases body.len(),
{
    let d = first_index_of(body, '.');
    if label_error(body.take(d as int)) is Some {
        label_error(body.take(d as int))
    } else if d < body.len() {
        labels_error(body.skip(d + 1int))
    } else {
        None
    }
}

pub open spec fn tld_char_fault(tld: Seq<char>, i: int) -> Option<EmailError> {
    let c = tld[i];
    if !is_ascii_char(c) {
        Some(EmailError::NonAscii(c))
    } else if !is_ascii_letter(c) {
        Some(EmailError::DomainTldNotAlpha)
    } else {
        None
    }
}

pub open spec fn tld_scan(tld: Seq<char>, i: int) -> Option<EmailError>
    decreases tld.len() - i,
{
    if i >= tld.len() {
        None
    } else if tld_char_fault(tld, i) is Some {
        tld_char_fault(tld, i)
    } else {
        tld_scan(tld, i + 1)
    }
}

/// Why the domain (after the `@`) is rejected, if it is.
pub open spec fn domain_error(domain: Seq<char>) -> Option<EmailError> {
    let k = last_index_of(domain, '.');
    let body = domain.take(k);
    let tld = domain.skip(k + 1);
    if domain.len() == 0 {
        Some(EmailError::DomainEmpty)
    } else if domain[0] == '[' {
        Some(EmailError::DomainIpLiteralForbidden)
    } else if byte_len(domain) > MAX_DOMAIN_LEN {
        Some(EmailError::DomainTooLong)
    } else if domain.last() == '.' {
        Some(EmailError::DomainTrailingDot)
    } else if k < 0 {
        Some(EmailError::DomainMissingTld)
    } else if body.len() == 0 {
        Some(EmailError::DomainLabelEmpty)
    } else if labels_error(body) is Some {
        labels_error(body)
    } else if byte_len(tld) < MIN_TLD_LEN {
        Some(EmailError::DomainTldTooShort)
    } else if byte_len(tld) > MAX_LABEL_LEN {
        Some(EmailError::DomainLabelTooLong)
    } else {
        tld_scan(tld, 0)
    }
}

/// Two `@` in `s`.
pub open spec fn has_two_ats(s: Seq<char>) -> bool {
    exists|i: int, j: int| #![trigger s[i], s[j]] 0 <= i < j < s.len() && s[i] == '@' && s[j] == '@'
}

/// Why `email` is rejected, or `None` when it is a valid address.
pub open spec fn email_error(email: Seq<char>) -> Option<EmailError> {
    let at = first_index_of(email, '@') as int;
    if email.len() == 0 {
        Some(EmailError::Empty)
    } else if byte_len(email) > MAX_EMAIL_LEN {
        Some(EmailError::TooLong)
    } else if has_two_ats(email) {
        Some(EmailError::MultipleAt)
    } else if !email.contains('@') {
        Some(EmailError::MissingAt)
    } else if local_part_error(email.take(at)) is Some {
        local_part_error(email.take(at))
    } else {
        domain_error(email.skip(at + 1))
    }
}

/// `email` passes [`validate_email`].
pub open spec fn is_valid_email(email: Seq<char>) -> bool {
    email_error(email) is None
}

// ---------------------------------------------------------------------------
// Checks

fn is_atext_char(c: char) -> (r: bool)
    ensures
        r == is_atext(c),
{
    ('a' <= c && c <= 'z') || ('A' <= c && c <= 'Z') || ('0' <= c && c <= '9') || c == '!' || c
        == '#' || c == '$' || c == '%' || c == '&' || c == '\'' || c == '*' || c == '+' || c == '-'
        || c == '/' || c == '=' || c == '?' || c == '^' || c == '_' || c == '`' || c == '{' || c
        == '|' || c == '}' || c == '~'
}

fn is_label_char_exec(c: char) -> (r: bool)
    ensures
        r == is_label_char(c),
{
    ('a' <= c && c <= 'z') || ('A' <= c && c <= 'Z') || ('0' <= c && c <= '9') || c == '-'
}

fn is_ascii_letter_exec(c: char) -> (r: bool)
    ensures
        r == is_ascii_letter(c),
{
    ('a' <= c && c <= 'z') || ('A' <= c && c <= 'Z')
}

fn validate_local(local: &[char]) -> (r: Result<(), EmailError>)
    ensures
        match r {
            Ok(()) => local_part_error(local@) is None,
            Err(e) => local_part_error(local@) == Some(e),
        },
{
    let n = local.len();
    if n == 0 {
        return Err(EmailError::LocalPartEmpty);
    }
    if exceeds_byte_len(local, MAX_LOCAL_LEN) {
        return Err(EmailError::LocalPartTooLong);
    }
    if local[0] == '.' {
        return Err(EmailError::LocalPartLeadingDot);
    }
    if local[n - 1] == '.' {
        return Err(EmailError::LocalPartTrailingDot);
    }
    let mut prev_dot = false;
    let mut i: usize = 0;
    while i < n
        invariant
            n == local@.len(),
            0 <= i <= n,
            prev_dot == (i > 0 && local@[i - 1] == '.'),
            local_part_error(local@) == local_scan(local@, i as int),
        decreases n - i,
    {
        let c = local[i];
        if (c as u32) >= 128 {
            return Err(EmailError::NonAscii(c));
        }
        if c == '.' {
            if prev_dot {
                return Err(EmailError::LocalPartConsecutiveDots);
            }
            prev_dot = true;
        } else if is_atext_char(c) {
            prev_dot = false;
        } else {
            return Err(EmailError::LocalPartInvalidChar(c));
        }
        i = i + 1;
    }
    Ok(())
}

fn validate_label(label: &[char]) -> (r: Result<(), EmailError>)
    ensures
        match r {
            Ok(()) => label_error(label@) is None,
            Err(e) => label_error(label@) == Some(e),
        },
{
    let n = label.len();
    if n == 0 {
        return Err(EmailError::DomainLabelEmpty);
    }
    if exceeds_byte_len(label, MAX_LABEL_LEN) {
        return Err(EmailError::DomainLabelTooLong);
    }
    if label[0] == '-' {
        return Err(EmailError::DomainLabelLeadingHyphen);
    }
    if label[n - 1] == '-' {
        return Err(EmailError::DomainLabelTrailingHyphen);
    }
    let mut i: usize = 0;
    while i < n
        invariant
            n == label@.len(),
            0 <= i <= n,
            label_error(label@) == label_scan(label@, i as int),
        decreases n - i,
    {
        let c = label[i];
        if (c as u32) >= 128 {
            return Err(EmailError::NonAscii(c));
        }
        if !is_label_char_exec(c) {
            return Err(EmailError::DomainLabelInvalidChar(c));
        }
        i = i + 1;
    }
    Ok(())
}

fn validate_domain(domain: &[char]) -> (r: Result<(), EmailError>)
    ensures
        match r {
            Ok(()) => domain_error(domain@) is None,
            Err(e) => domain_error(domain@) == Some(e),
        },
{
    let n = domain.len();
    if n == 0 {
        return Err(EmailError::DomainEmpty);
    }
    if domain[0] == '[' {
        return Err(EmailError::DomainIpLiteralForbidden);
    }
    if exceeds_byte_len(domain, MAX_DOMAIN_LEN) {
        return Err(EmailError::DomainTooLong);
    }
    if domain[n - 1] == '.' {
        return Err(EmailError::DomainTrailingDot);
    }
    // the last dot splits off the TLD
    let mut j: usize = n;
    let mut last_dot: Option<usize> = None;
    while j > 0 && last_dot.is_none()
        invariant
            n == domain@.len(),
            0 <= j <= n,
            last_dot is None ==> forall|k: int| j <= k < n ==> domain@[k] != '.',
            last_dot matches Some(k) ==> (k < n && domain@[k as int] == '.' && forall|m: int|
                k < m < n ==> domain@[m] != '.'),
        decreases j,
    {
        j = j - 1;
        if domain[j] == '.' {
            last_dot = Some(j);
        }
    }
    let k = match last_dot {
        None => {
            proof {
                lemma_last_index_of(domain@, '.', -1);
            }
            return Err(EmailError::DomainMissingTld);
        },
        Some(k) => k,
    };
    proof {
        lemma_last_index_of(domain@, '.', k as int);
    }
    let body = slice_subrange(domain, 0, k);
    let tld = slice_subrange(domain, k + 1, n);
    assert(body@ =~= domain@.take(k as int));
    assert(tld@ =~= domain@.skip(k + 1));
    if k == 0 {
        return Err(EmailError::DomainLabelEmpty);
    }
    validate_labels(body)?;
    if !exceeds_byte_len(tld, MIN_TLD_LEN - 1) {
        return Err(EmailError::DomainTldTooShort);
    }
    if exceeds_byte_len(tld, MAX_LABEL_LEN) {
        return Err(EmailError::DomainLabelTooLong);
    }
    let tn = tld.len();
    let mut i: usize = 0;
    while i < tn
        invariant
            tn == tld@.len(),
            0 <= i <= tn,
            domain_error(domain@) == tld_scan(tld@, i as int),
        decreases tn - i,
    {
        let c = tld[i];
        if (c as u32) >= 128 {
            return Err(EmailError::NonAscii(c));
        }
        if !is_ascii_letter_exec(c) {
            return Err(EmailError::DomainTldNotAlpha);
        }
        i = i + 1;
    }
    Ok(())
}

/// Checks the labels of `body` from left to right.
fn validate_labels(body: &[char]) -> (r: Result<(), EmailError>)
    ensures
        match r {
            Ok(()) => labels_error(body@) is None,
            Err(e) => labels_error(body@) == Some(e),
        },
{
    let n = body.len();
    assert(body@.skip(0) =~= body@);
    let mut start: usize = 0;
    let mut i: usize = 0;
    while i < n
        invariant
            n == body@.len(),
            0 <= start <= i <= n,
            labels_error(body@) == labels_error(body@.skip(start as int)),
            forall|j: int| start <= j < i ==> body@[j] != '.',
        decreases n - i,
    {
        if body[i] == '.' {
            let label = slice_subrange(body, start, i);
            let ghost rest = body@.skip(start as int);
            proof {
                lemma_first_index_of(rest, '.', i - start);
                assert(rest.take(i - start) =~= label@);
                assert(rest.skip(i - start + 1) =~= body@.skip(i + 1));
            }
            validate_label(label)?;
            start = i + 1;
        }
        i = i + 1;
    }
    let label = slice_subrange(body, start, n);
    let ghost rest = body@.skip(start as int);
    proof {
        lemma_first_index_of(rest, '.', n - start);
        assert(rest.take(n - start) =~= label@);
    }
    validate_label(label)
}


// ---------------------------------------------------------------------------
// Normalisation

/// `c` with ASCII upper-case letters mapped to lower case.
pub open spec fn ascii_lower(c: char) -> char {
    if 'A' <= c && c <= 'Z' {
        ((c as u32) + 32) as char
    } else {
        c
    }
}

/// The normalised form of an address: the domain lower-cased (ASCII only),
/// the local part and the `@` kept as they are.
pub open spec fn normalized(email: Seq<char>) -> Seq<char> {
    let at = first_index_of(email, '@') as int;
    email.take(at + 1) + email.skip(at + 1).map_values(|c: char| ascii_lower(c))
}

fn ascii_lower_exec(c: char) -> (r: char)
    ensures
        r == ascii_lower(c),
{
    if 'A' <= c && c <= 'Z' {
        let b = (c as u8) + 32;
        b as char
    } else {
        c
    }
}

/// Returns the normalised form: domain lower-cased, local part preserved.
///
/// DNS is case-insensitive; the local part is case-sensitive (RFC 5321).
pub fn normalize_email(email: &str) -> (r: String)
    requires
        email@.contains('@'),
    ensures
        r@ == normalized(email@),
{
    let cs = chars_of(email);
    let n = cs.len();
    let mut at: usize = 0;
    while at < n && cs[at] != '@'
        invariant
            cs@ == email@,
            n == cs@.len(),
            0 <= at <= n,
            forall|j: int| 0 <= j < at ==> cs@[j] != '@',
        decreases n - at,
    {
        at = at + 1;
    }
    proof {
        if at == n {
            let k = choose|k: int| 0 <= k < email@.len() && email@[k] == '@';
            assert(cs@[k] == '@');
        }
        lemma_first_index_of(email@, '@', at as int);
    }
    let ghost at_i = at as int;
    let ghost lowered = email@.skip(at_i + 1).map_values(|c: char| ascii_lower(c));
    let mut out = String::new();
    let mut i: usize = 0;
    while i < n
        invariant
            cs@ == email@,
            n == cs@.len(),
            at < n,
            first_index_of(email@, '@') == at,
            at_i == at,
            lowered == email@.skip(at_i + 1).map_values(|c: char| ascii_lower(c)),
            0 <= i <= n,
            i <= at + 1 ==> out@ == email@.take(i as int),
            i > at + 1 ==> out@ == email@.take(at + 1) + lowered.take(i - at - 1),
        decreases n - i,
    {
        let c = cs[i];
        if i <= at {
            out.push(c);
            proof {
                assert(email@.take(i + 1) =~= email@.take(i as int).push(c));
            }
        } else {
            let lc = ascii_lower_exec(c);
            out.push(lc);
            proof {
                assert(lowered[i - at - 1] == ascii_lower(email@[i as int]));
                if i == at + 1 {
                    assert(lowered.take(1) =~= seq![lc]);
                    assert(out@ =~= email@.take(at + 1) + lowered.take(1));
                } else {
                    assert(lowered.take(i - at) =~= lowered.take(i - at - 1).push(lc));
                    assert(out@ =~= email@.take(at + 1) + lowered.take(i - at));
                }
            }
        }
        i = i + 1;
    }
    proof {
        if n == at + 1 {
            assert(lowered =~= Seq::<char>::empty());
            assert(normalized(email@) =~= email@.take(n as int));
        } else {
            assert(lowered.take(n - at - 1) =~= lowered);
        }
    }
    out
}

// ---------------------------------------------------------------------------
// Validated addresses

/// Proof that the wrapped `&str` has passed [`validate_email`]: validate once,
/// then pass this around instead of a raw `&str`.
#[derive(Debug, Clone, Copy, PartialEq, Eq)]
pub struct ValidatedEmail<'a>(&'a str);

impl<'a> ValidatedEmail<'a> {
    #[verifier::type_invariant]
    spec fn passes_validation(self) -> bool {
        is_valid_email(self.0@)
    }

    /// The address as it was validated.
    #[inline]
    pub fn as_str(self) -> (r: &'a str)
        ensures
            r@ == self@,
            is_valid_email(r@),
    {
        proof {
            use_type_invariant(&self);
        }
        self.0
    }

    /// The normalised form of the address (see [`normalize_email`]).
    #[inline]
    pub fn normalize(self) -> (r: String)
        ensures
            is_valid_email(self@),
            r@ == normalized(self@),
    {
        proof {
            use_type_invariant(&self);
            lemma_valid_email_has_at(self.0@);
        }
        normalize_email(self.0)
    }
}

impl<'a> View for ValidatedEmail<'a> {
    type V = Seq<char>;

    closed spec fn view(&self) -> Seq<char> {
        self.0@
    }
}

/// A valid address holds exactly one `@`.
pub proof fn lemma_valid_email_has_at(email: Seq<char>)
    requires
        is_valid_email(email),
    ensures
        email.contains('@'),
        !has_two_ats(email),
{
}

/// Validates `email` against a strict subset of RFC 5321/5322.
///
/// On success returns a [`ValidatedEmail`] wrapping `email`; on failure the
/// first rule that `email` breaks, in the order of [`EmailError`].
pub fn validate_email(email: &str) -> (r: Result<ValidatedEmail<'_>, EmailError>)
    ensures
        match r {
            Ok(v) => is_valid_email(email@) && v@ == email@,
            Err(e) => email_error(email@) == Some(e),
        },
{
    if email.is_empty() {
        return Err(EmailError::Empty);
    }
    proof {
        lemma_byte_len_at_least_len(email@);
    }
    // more characters than bytes allowed means too many bytes
    if email.unicode_len() > MAX_EMAIL_LEN {
        return Err(EmailError::TooLong);
    }
    let cs = chars_of(email);
    if exceeds_byte_len(cs.as_slice(), MAX_EMAIL_LEN) {
        return Err(EmailError::TooLong);
    }
    let n = cs.len();
    // a single pass: find the '@' and stop at a second one
    let mut at_pos: Option<usize> = None;
    let mut i: usize = 0;
    while i < n
        invariant
            cs@ == email@,
            n == cs@.len() <= MAX_EMAIL_LEN,
            email@.len() != 0,
            byte_len(email@) <= MAX_EMAIL_LEN,
            0 <= i <= n,
            at_pos is None ==> forall|j: int| 0 <= j < i ==> cs@[j] != '@',
            at_pos matches Some(p) ==> (p < i && cs@[p as int] == '@' && forall|j: int|
                0 <= j < i && j != p ==> cs@[j] != '@'),
        decreases n - i,
    {
        if cs[i] == '@' {
            if let Some(p) = at_pos {
                assert(email@[p as int] == '@' && email@[i as int] == '@');
                return Err(EmailError::MultipleAt);
            }
            at_pos = Some(i);
        }
        i = i + 1;
    }
    let at = match at_pos {
        None => {
            return Err(EmailError::MissingAt);
        },
        Some(p) => p,
    };
    proof {
        assert(email@[at as int] == '@');
        lemma_first_index_of(email@, '@', at as int);
    }
    let local = slice_subrange(cs.as_slice(), 0, at);
    let domain = slice_subrange(cs.as_slice(), at + 1, n);
    assert(local@ =~= email@.take(at as int));
    assert(domain@ =~= email@.skip(at + 1));
    match validate_local(local) {
        Err(e) => {
            return Err(e);
        },
        Ok(()) => {},
    }
    match validate_domain(domain) {
        Err(e) => {
            return Err(e);
        },
        Ok(()) => {},
    }
    Ok(ValidatedEmail(email))
}

// ---------------------------------------------------------------------------
// Messages

/// The message that describes `e`.
pub open spec fn email_error_message(e: EmailError) -> Seq<char> {
    match e {
        EmailError::Empty => "email is empty"@,
        EmailError::TooLong => "email exceeds 254 characters"@,
        EmailError::MissingAt => "missing '@'"@,
        EmailError::MultipleAt => "multiple '@' characters"@,
        EmailError::LocalPartEmpty => "local part (before '@') is empty"@,
        EmailError::LocalPartTooLong => "local part exceeds 64 characters"@,
        EmailError::LocalPartLeadingDot => "local part starts with '.'"@,
        EmailError::LocalPartTrailingDot => "local part ends with '.'"@,
        EmailError::LocalPartConsecutiveDots => "local part contains consecutive dots"@,
        EmailError::LocalPartInvalidChar(c) => "invalid character in local part: "@
            + debug_char_text(c),
        EmailError::DomainEmpty => "domain (after '@') is empty"@,
        EmailError::DomainTooLong => "domain exceeds 255 characters"@,
        EmailError::DomainIpLiteralForbidden => "IP address literals are not accepted"@,
        EmailError::DomainTrailingDot => "domain ends with '.'"@,
        EmailError::DomainLabelEmpty => "domain contains an empty label (leading or consecutive dots)"@,
        EmailError::DomainLabelTooLong => "domain label exceeds 63 characters"@,
        EmailError::DomainLabelLeadingHyphen => "domain label starts with '-'"@,
        EmailError::DomainLabelTrailingHyphen => "domain label ends with '-'"@,
        EmailError::DomainLabelInvalidChar(c) => "invalid character in domain label: "@
            + debug_char_text(c),
        EmailError::DomainMissingTld => "domain has no TLD (must contain at least one dot)"@,
        EmailError::DomainTldTooShort => "TLD must be at least 2 characters"@,
        EmailError::DomainTldNotAlpha => "TLD must contain only letters (a-z)"@,
        EmailError::NonAscii(c) => "non-ASCII character "@ + debug_char_text(c)
            + "; encode international domains as punycode"@,
    }
}


/// Messages tell errors apart: two different errors have different
/// messages, except possibly two errors of one character-carrying kind
/// (their messages differ only in std's `Debug` text of the characters).
pub proof fn lemma_messages_distinct(e1: EmailError, e2: EmailError)
    requires
        e1 != e2,
        !(e1 is LocalPartInvalidChar && e2 is LocalPartInvalidChar),
        !(e1 is DomainLabelInvalidChar && e2 is DomainLabelInvalidChar),
        !(e1 is NonAscii && e2 is NonAscii),
    ensures
        email_error_message(e1) != email_error_message(e2),
{
    reveal_strlit("email is empty");
    reveal_strlit("email exceeds 254 characters");
    reveal_strlit("missing '@'");
    reveal_strlit("multiple '@' characters");
    reveal_strlit("local part (before '@') is empty");
    reveal_strlit("local part exceeds 64 characters");
    reveal_strlit("local part starts with '.'");
    reveal_strlit("local part ends with '.'");
    reveal_strlit("local part contains consecutive dots");
    reveal_strlit("invalid character in local part: ");
    reveal_strlit("domain (after '@') is empty");
    reveal_strlit("domain exceeds 255 characters");
    reveal_strlit("IP address literals are not accepted");
    reveal_strlit("domain ends with '.'");
    reveal_strlit("domain contains an empty label (leading or consecutive dots)");
    reveal_strlit("domain label exceeds 63 characters");
    reveal_strlit("domain label starts with '-'");
    reveal_strlit("domain label ends with '-'");
    reveal_strlit("invalid character in domain label: ");
    reveal_strlit("domain has no TLD (must contain at least one dot)");
    reveal_strlit("TLD must be at least 2 characters");
    reveal_strlit("TLD must contain only letters (a-z)");
    reveal_strlit("non-ASCII character ");
    reveal_strlit("; encode international domains as punycode");
    let m1 = email_error_message(e1);
    let m2 = email_error_message(e2);
    if m1 == m2 {
        assert(m1[0] == m2[0]);
        assert(m1[21] == m2[21]);
        assert(m1.len() == m2.len());
        assert(false);
    }
}

/// An error that names a character.
pub open spec fn carries_char(e: EmailError) -> bool {
    e is LocalPartInvalidChar || e is DomainLabelInvalidChar || e is NonAscii
}

/// The character an error names.
pub open spec fn carried_char(e: EmailError) -> char {
    match e {
        EmailError::LocalPartInvalidChar(c) => c,
        EmailError::DomainLabelInvalidChar(c) => c,
        EmailError::NonAscii(c) => c,
        _ => ' ',
    }
}

/// Two errors of one character-naming kind.
pub open spec fn same_char_kind(e1: EmailError, e2: EmailError) -> bool {
    ||| (e1 is LocalPartInvalidChar && e2 is LocalPartInvalidChar)
    ||| (e1 is DomainLabelInvalidChar && e2 is DomainLabelInvalidChar)
    ||| (e1 is NonAscii && e2 is NonAscii)
}

/// Two different errors of one character-naming kind have different
/// messages, when no other character has the `Debug` text of the first.
proof fn lemma_same_kind_messages_distinct(e1: EmailError, e2: EmailError)
    requires
        e1 != e2,
        same_char_kind(e1, e2),
        forall|d: char| #[trigger] debug_char_text(d) == debug_char_text(carried_char(e1)) ==> d == carried_char(e1),
    ensures
        email_error_message(e1) != email_error_message(e2),
{
    let c1 = carried_char(e1);
    let c2 = carried_char(e2);
    let t1 = debug_char_text(c1);
    let t2 = debug_char_text(c2);
    let m1 = email_error_message(e1);
    let m2 = email_error_message(e2);
    if m1 == m2 {
        let p = if e1 is LocalPartInvalidChar {
            "invalid character in local part: "@
        } else if e1 is DomainLabelInvalidChar {
            "invalid character in domain label: "@
        } else {
            "non-ASCII character "@
        };
        let q = if e1 is NonAscii { "; encode international domains as punycode"@ } else { Seq::<char>::empty() };
        assert(m1 =~= p + t1 + q);
        assert(m2 =~= p + t2 + q);
        assert(t1.len() == t2.len());
        assert(t1 =~= m1.subrange(p.len() as int, (p.len() + t1.len()) as int));
        assert(t2 =~= m2.subrange(p.len() as int, (p.len() + t2.len()) as int));
        assert(c2 == c1);
        assert(false);
    }
}

impl EmailError {
    /// The human-readable description of the error.
    pub fn message(&self) -> (r: String)
        ensures
            r@ == email_error_message(*self),
            forall|other: EmailError| other != *self ==> #[trigger] email_error_message(other) != r@,
    {
        let r = self.message_text();
        proof {
            assert forall|other: EmailError| other != *self implies #[trigger] email_error_message(other) != r@ by {
                if same_char_kind(*self, other) {
                    lemma_same_kind_messages_distinct(*self, other);
                } else {
                    lemma_messages_distinct(*self, other);
                }
            }
        }
        r
    }

    fn message_text(&self) -> (r: String)
        ensures
            r@ == email_error_message(*self),
            carries_char(*self) ==> forall|d: char| #[trigger] debug_char_text(d) == debug_char_text(carried_char(*self)) ==> d == carried_char(*self),
    {
        match self {
            EmailError::Empty => "email is empty".to_owned(),
            EmailError::TooLong => "email exceeds 254 characters".to_owned(),
            EmailError::MissingAt => "missing '@'".to_owned(),
            EmailError::MultipleAt => "multiple '@' characters".to_owned(),
            EmailError::LocalPartEmpty => "local part (before '@') is empty".to_owned(),
            EmailError::LocalPartTooLong => "local part exceeds 64 characters".to_owned(),
            EmailError::LocalPartLeadingDot => "local part starts with '.'".to_owned(),
            EmailError::LocalPartTrailingDot => "local part ends with '.'".to_owned(),
            EmailError::LocalPartConsecutiveDots => "local part contains consecutive dots".to_owned(),
            EmailError::LocalPartInvalidChar(c) => {
                let mut s = "invalid character in local part: ".to_owned();
                let d = debug_char(*c);
                s.append(d.as_str());
                s
            },
            EmailError::DomainEmpty => "domain (after '@') is empty".to_owned(),
            EmailError::DomainTooLong => "domain exceeds 255 characters".to_owned(),
            EmailError::DomainIpLiteralForbidden => "IP address literals are not accepted".to_owned(),
            EmailError::DomainTrailingDot => "domain ends with '.'".to_owned(),
            EmailError::DomainLabelEmpty => "domain contains an empty label (leading or consecutive dots)".to_owned(),
            EmailError::DomainLabelTooLong => "domain label exceeds 63 characters".to_owned(),
            EmailError::DomainLabelLeadingHyphen => "domain label starts with '-'".to_owned(),
            EmailError::DomainLabelTrailingHyphen => "domain label ends with '-'".to_owned(),
            EmailError::DomainLabelInvalidChar(c) => {
                let mut s = "invalid character in domain label: ".to_owned();
                let d = debug_char(*c);
                s.append(d.as_str());
                s
            },
            EmailError::DomainMissingTld => "domain has no TLD (must contain at least one dot)".to_owned(),
            EmailError::DomainTldTooShort => "TLD must be at least 2 characters".to_owned(),
            EmailError::DomainTldNotAlpha => "TLD must contain only letters (a-z)".to_owned(),
            EmailError::NonAscii(c) => {
                let mut s = "non-ASCII character ".to_owned();
                let d = debug_char(*c);
                s.append(d.as_str());
                s.append("; encode international domains as punycode");
                s
            },
        }
    }
}


// ---------------------------------------------------------------------------
// Laws of normalisation

/// `s` with every ASCII upper-case letter lower-cased.
pub open spec fn lower_all(s: Seq<char>) -> Seq<char> {
    s.map_values(|c: char| ascii_lower(c))
}

proof fn lemma_ascii_lower(c: char)
    ensures
        is_ascii_char(ascii_lower(c)) == is_ascii_char(c),
        is_ascii_letter(ascii_lower(c)) == is_ascii_letter(c),
        is_label_char(ascii_lower(c)) == is_label_char(c),
        !is_label_char(c) ==> ascii_lower(c) == c,
        !is_ascii_letter(c) ==> ascii_lower(c) == c,
        (ascii_lower(c) == '.') == (c == '.'),
        (ascii_lower(c) == '-') == (c == '-'),
        (ascii_lower(c) == '@') == (c == '@'),
        (ascii_lower(c) == '[') == (c == '['),
        char_width(ascii_lower(c)) == char_width(c),
        ascii_lower(ascii_lower(c)) == ascii_lower(c),
{
}

/// Two sequences whose characters take the same widths take the same bytes.
proof fn lemma_byte_len_same_widths(s: Seq<char>, t: Seq<char>)
    requires
        s.len() == t.len(),
        forall|i: int| 0 <= i < s.len() ==> char_width(#[trigger] s[i]) == char_width(t[i]),
    ensures
        byte_len(s) == byte_len(t),
    decreases s.len(),
{
    if s.len() > 0 {
        assert forall|i: int| 0 <= i < s.drop_first().len() implies char_width(
            #[trigger] s.drop_first()[i],
        ) == char_width(t.drop_first()[i]) by {
            assert(s.drop_first()[i] == s[i + 1]);
            assert(t.drop_first()[i] == t[i + 1]);
        }
        lemma_byte_len_same_widths(s.drop_first(), t.drop_first());
    }
}

proof fn lemma_last_index_of_bound(s: Seq<char>, c: char)
    ensures
        -1 <= last_index_of(s, c) < s.len(),
        last_index_of(s, c) >= 0 ==> s[last_index_of(s, c)] == c,
        forall|j: int| last_index_of(s, c) < j < s.len() ==> s[j] != c,
    decreases s.len(),
{
    if s.len() > 0 && s.last() != c {
        lemma_last_index_of_bound(s.drop_last(), c);
        assert forall|j: int| last_index_of(s, c) < j < s.len() implies s[j] != c by {
            if j < s.len() - 1 {
                assert(s[j] == s.drop_last()[j]);
            }
        }
    }
}

/// Sequences with `c` at the same places have their first and last `c` at
/// the same places.
proof fn lemma_same_positions(s: Seq<char>, t: Seq<char>, c: char)
    requires
        s.len() == t.len(),
        forall|i: int| 0 <= i < s.len() ==> (#[trigger] s[i] == c) == (t[i] == c),
    ensures
        first_index_of(s, c) == first_index_of(t, c),
        last_index_of(s, c) == last_index_of(t, c),
        s.contains(c) == t.contains(c),
{
    lemma_first_index_of_bound(s, c);
    let k = first_index_of(s, c) as int;
    assert forall|j: int| 0 <= j < k implies t[j] != c by {
        assert(s[j] != c);
    }
    if k < s.len() {
        assert(s[k] == c);
    }
    lemma_first_index_of(t, c, k);
    lemma_last_index_of_bound(s, c);
    let m = last_index_of(s, c);
    assert forall|j: int| m < j < t.len() implies t[j] != c by {
        assert(s[j] != c);
    }
    if m >= 0 {
        assert(s[m] == c);
    }
    lemma_last_index_of(t, c, m);
    if s.contains(c) {
        let i = choose|i: int| 0 <= i < s.len() && s[i] == c;
        assert(t[i] == c);
    }
    if t.contains(c) {
        let i = choose|i: int| 0 <= i < t.len() && t[i] == c;
        assert(s[i] == c);
    }
}

proof fn lemma_lower_all_positions(s: Seq<char>)
    ensures
        lower_all(s).len() == s.len(),
        byte_len(lower_all(s)) == byte_len(s),
        first_index_of(lower_all(s), '.') == first_index_of(s, '.'),
        last_index_of(lower_all(s), '.') == last_index_of(s, '.'),
{
    let t = lower_all(s);
    assert forall|i: int| 0 <= i < s.len() implies (#[trigger] s[i] == '.') == (t[i] == '.')
        && char_width(s[i]) == char_width(t[i]) by {
        lemma_ascii_lower(s[i]);
    }
    lemma_byte_len_same_widths(s, t);
    lemma_same_positions(s, t, '.');
}

proof fn lemma_lower_all_take_skip(s: Seq<char>, k: int)
    requires
        0 <= k <= s.len(),
    ensures
        lower_all(s).take(k) == lower_all(s.take(k)),
        lower_all(s).skip(k) == lower_all(s.skip(k)),
{
    assert(lower_all(s).take(k) =~= lower_all(s.take(k)));
    assert(lower_all(s).skip(k) =~= lower_all(s.skip(k)));
}

proof fn lemma_label_scan_lower(label: Seq<char>, i: int)
    requires
        0 <= i,
    ensures
        label_scan(lower_all(label), i) == label_scan(label, i),
    decreases label.len() - i,
{
    if i < label.len() {
        lemma_ascii_lower(label[i]);
        lemma_label_scan_lower(label, i + 1);
    }
}

proof fn lemma_tld_scan_lower(tld: Seq<char>, i: int)
    requires
        0 <= i,
    ensures
        tld_scan(lower_all(tld), i) == tld_scan(tld, i),
    decreases tld.len() - i,
{
    if i < tld.len() {
        lemma_ascii_lower(tld[i]);
        lemma_tld_scan_lower(tld, i + 1);
    }
}

proof fn lemma_label_error_lower(label: Seq<char>)
    ensures
        label_error(lower_all(label)) == label_error(label),
{
    lemma_lower_all_positions(label);
    if label.len() > 0 {
        lemma_ascii_lower(label[0]);
        lemma_ascii_lower(label.last());
    }
    lemma_label_scan_lower(label, 0);
}

proof fn lemma_labels_error_lower(body: Seq<char>)
    ensures
        labels_error(lower_all(body)) == labels_error(body),
    decreases body.len(),
{
    lemma_lower_all_positions(body);
    lemma_first_index_of_bound(body, '.');
    let d = first_index_of(body, '.') as int;
    lemma_lower_all_take_skip(body, d);
    lemma_label_error_lower(body.take(d));
    if d < body.len() {
        lemma_lower_all_take_skip(body, d + 1);
        lemma_labels_error_lower(body.skip(d + 1));
    }
}

proof fn lemma_domain_error_lower(domain: Seq<char>)
    ensures
        domain_error(lower_all(domain)) == domain_error(domain),
{
    lemma_lower_all_positions(domain);
    if domain.len() > 0 {
        lemma_ascii_lower(domain[0]);
        lemma_ascii_lower(domain.last());
    }
    lemma_last_index_of_bound(domain, '.');
    let k = last_index_of(domain, '.');
    if k >= 0 {
        lemma_lower_all_take_skip(domain, k);
        lemma_lower_all_take_skip(domain, k + 1);
        lemma_labels_error_lower(domain.take(k));
        lemma_lower_all_positions(domain.skip(k + 1));
        lemma_tld_scan_lower(domain.skip(k + 1), 0);
    }
}

/// Normalising an address does not change how it validates: the same
/// rule rejects it, or it passes both before and after.
pub proof fn lemma_normalized_validates_alike(email: Seq<char>)
    requires
        email.contains('@'),
    ensures
        email_error(normalized(email)) == email_error(email),
{
    let n = normalized(email);
    let at = first_index_of(email, '@') as int;
    lemma_first_index_of_bound(email, '@');
    let i0 = choose|i: int| 0 <= i < email.len() && email[i] == '@';
    assert(at <= i0);
    assert(at < email.len());
    assert forall|i: int| 0 <= i < email.len() implies (#[trigger] email[i] == '@') == (n[i]
        == '@') && char_width(email[i]) == char_width(n[i]) by {
        lemma_ascii_lower(email[i]);
        if i > at {
            assert(n[i] == ascii_lower(email[i]));
        } else {
            assert(n[i] == email[i]);
        }
    }
    lemma_byte_len_same_widths(email, n);
    lemma_same_positions(email, n, '@');
    assert(n.take(at) =~= email.take(at));
    assert(n.skip(at + 1) =~= lower_all(email.skip(at + 1)));
    lemma_domain_error_lower(email.skip(at + 1));
    if has_two_ats(email) {
        let (i, j) = choose|i: int, j: int| #![trigger email[i], email[j]] 0 <= i < j < email.len() && email[i] == '@' && email[j] == '@';
        assert(n[i] == '@' && n[j] == '@');
    }
    if has_two_ats(n) {
        let (i, j) = choose|i: int, j: int| #![trigger n[i], n[j]] 0 <= i < j < n.len() && n[i] == '@' && n[j] == '@';
        assert(email[i] == '@' && email[j] == '@');
    }
}

/// Normalising twice gives what normalising once gives.
pub proof fn lemma_normalized_idempotent(email: Seq<char>)
    requires
        email.contains('@'),
    ensures
        normalized(normalized(email)) == normalized(email),
{
    let n = normalized(email);
    let at = first_index_of(email, '@') as int;
    lemma_first_index_of_bound(email, '@');
    let i0 = choose|i: int| 0 <= i < email.len() && email[i] == '@';
    assert(at <= i0);
    assert forall|i: int| 0 <= i < email.len() implies (#[trigger] email[i] == '@') == (n[i]
        == '@') by {
        lemma_ascii_lower(email[i]);
        if i > at {
            assert(n[i] == ascii_lower(email[i]));
        } else {
            assert(n[i] == email[i]);
        }
    }
    lemma_same_positions(email, n, '@');
    assert forall|i: int| 0 <= i < n.len() - (at + 1) implies #[trigger] lower_all(n.skip(at + 1))[i] == n.skip(at + 1)[i] by {
        lemma_ascii_lower(email[at + 1 + i]);
    }
    assert(normalized(n) =~= n);
}


/// ASCII characters take one byte each.
proof fn lemma_ascii_byte_len(s: Seq<char>)
    requires
        forall|i: int| 0 <= i < s.len() ==> (#[trigger] s[i] as u32) < 128,
    ensures
        byte_len(s) == s.len(),
    decreases s.len(),
{
    if s.len() > 0 {
        assert forall|i: int| 0 <= i < s.drop_first().len() implies (#[trigger] s.drop_first()[i] as u32) < 128 by {
            assert(s.drop_first()[i] == s[i + 1]);
        }
        lemma_ascii_byte_len(s.drop_first());
    }
}

proof fn lemma_alphanumeric_scan(label: Seq<char>, i: int)
    requires
        0 <= i,
        forall|k: int| 0 <= k < label.len() ==> ('a' <= #[trigger] label[k] && label[k] <= 'z') || ('A' <= label[k]
            && label[k] <= 'Z') || ('0' <= label[k] && label[k] <= '9') || label[k] == '-',
    ensures
        label_scan(label, i) is None,
    decreases label.len() - i,
{
    if i < label.len() {
        lemma_alphanumeric_scan(label, i + 1);
    }
}

/// Letters, digits and hyphens make a label: a label of 1 to 63 ASCII
/// letters, digits and hyphens that neither starts nor ends with a hyphen
/// is accepted.
pub proof fn lemma_alphanumeric_label_accepted(label: Seq<char>)
    requires
        1 <= label.len() <= 63,
        forall|k: int| 0 <= k < label.len() ==> ('a' <= #[trigger] label[k] && label[k] <= 'z') || ('A' <= label[k]
            && label[k] <= 'Z') || ('0' <= label[k] && label[k] <= '9') || label[k] == '-',
        label[0] != '-',
        label.last() != '-',
    ensures
        label_error(label) is None,
{
    assert forall|k: int| 0 <= k < label.len() implies (#[trigger] label[k] as u32) < 128 by {
        let c = label[k];
        assert(('a' <= c && c <= 'z') || ('A' <= c && c <= 'Z') || ('0' <= c && c <= '9') || c == '-');
    }
    lemma_ascii_byte_len(label);
    lemma_alphanumeric_scan(label, 0);
}

/// What normalising does to an address whose first `@` is at `at`: the
/// length and everything up to the `@` stay; after it, every ASCII
/// upper-case letter becomes its lower-case letter (32 code points on) and
/// every other character stays.
pub proof fn lemma_normalized_lowers_domain(email: Seq<char>, at: int)
    requires
        0 <= at < email.len(),
        email[at] == '@',
        forall|k: int| 0 <= k < at ==> email[k] != '@',
    ensures
        normalized(email).len() == email.len(),
        forall|i: int| 0 <= i <= at ==> #[trigger] normalized(email)[i] == email[i],
        forall|i: int| at < i < email.len() && 'A' <= email[i] && email[i] <= 'Z' ==> (#[trigger] normalized(email)[i]) as u32 == (email[i] as u32) + 32,
        forall|i: int| at < i < email.len() && !('A' <= email[i] && email[i] <= 'Z') ==> #[trigger] normalized(email)[i] == email[i],
{
    lemma_first_index_of(email, '@', at);
    let n = normalized(email);
    assert forall|i: int| at < i < email.len() && 'A' <= email[i] && email[i] <= 'Z' implies (#[trigger] n[i]) as u32 == (email[i] as u32) + 32 by {
        assert(n[i] == ascii_lower(email[i]));
    }
    assert forall|i: int| at < i < email.len() && !('A' <= email[i] && email[i] <= 'Z') implies #[trigger] n[i] == email[i] by {
        assert(n[i] == ascii_lower(email[i]));
    }
}

} // verus!
