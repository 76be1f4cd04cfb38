use vstd::prelude::*;

use vstd::string::StrSliceExecFns;
use vstd::string::StringExecFns;

use crate::models::DomainEntry;
use crate::util::{split_chars, split_str, str_eq, trim_spec, trim_str, views_of};

verus! {

/// The scheme of a string that parses as an absolute URL.
pub uninterp spec fn url_scheme_of(s: Seq<char>) -> Option<Seq<char>>;

/// Relies on url::Url::parse and Url::scheme: the scheme of the URL when
/// the string parses as an absolute URL. Parsing depends on the string
/// alone.
#[verifier::external_body]
fn parse_url_scheme(s: &str) -> (r: Option<String>)
    ensures
        match r {
            Some(scheme) => url_scheme_of(s@) == Some(scheme@),
            None => url_scheme_of(s@) is None,
        },
{
    match url::Url::parse(s) {
        Ok(u) => Some(u.scheme().to_string()),
        Err(_) => None,
    }
}

/// Whether a string is an acceptable target for shortening: it must parse
/// as an absolute URL whose scheme is `https`.
pub fn is_valid_url(url_str: &str) -> (r: bool)
    ensures
        r == (url_scheme_of(url_str@) == Some("https"@)),
{
    match parse_url_scheme(url_str) {
        Some(scheme) => str_eq(scheme.as_str(), "https"),
        None => false,
    }
}

/// An ASCII letter or digit.
pub open spec fn is_alnum(c: char) -> bool {
    (48 <= c as u32 && c as u32 <= 57) || (65 <= c as u32 && c as u32 <= 90) || (97 <= c as u32
        && c as u32 <= 122)
}

/// Executable form of `is_alnum`.
pub fn is_alnum_exec(c: char) -> (r: bool)
    ensures
        r == is_alnum(c),
{
    (48 <= c as u32 && c as u32 <= 57) || (65 <= c as u32 && c as u32 <= 90) || (97 <= c as u32
        && c as u32 <= 122)
}

/// Relies on rand's Alphanumeric distribution: every sampled byte is one
/// of the 62 ASCII letters and digits. Nothing but the length and the
/// alphabet can be promised of a random string.
#[verifier::external_body]
fn random_alphanumeric(len: usize) -> (r: String)
    ensures
        r@.len() == len,
        forall|i: int| 0 <= i < r@.len() ==> is_alnum(#[trigger] r@[i]),
{
    <rand::rngs::ThreadRng as rand::RngExt>::sample_iter(rand::rng(), rand::distr::Alphanumeric)
        .take(len)
        .map(char::from)
        .collect()
}

/// A fresh identifier for a shortened URL: eight random characters from
/// the ASCII letters and digits.
pub fn generate_short_id() -> (r: String)
    ensures
        r@.len() == 8,
        forall|i: int| 0 <= i < r@.len() ==> is_alnum(#[trigger] r@[i]),
{
    random_alphanumeric(8)
}

/// A fresh DNS verification token: a fixed prefix followed by 32 random
/// characters from the ASCII letters and digits.
pub fn generate_verification_token() -> (r: String)
    ensures
        exists|suffix: Seq<char>|
            {
                &&& r@ == "thalora-verification-"@ + suffix
                &&& suffix.len() == 32
                &&& forall|i: int| 0 <= i < suffix.len() ==> is_alnum(#[trigger] suffix[i])
            },
{
    let mut token = String::from_str("thalora-verification-");
    let suffix = random_alphanumeric(32);
    token.append(suffix.as_str());
    token
}

/// A valid domain-name label: one to 63 characters, letters and digits
/// with interior hyphens.
pub open spec fn valid_label(l: Seq<char>) -> bool {
    &&& 1 <= l.len() <= 63
    &&& is_alnum(l[0])
    &&& is_alnum(l[l.len() - 1])
    &&& forall|i: int| 0 < i < l.len() - 1 ==> (is_alnum(#[trigger] l[i]) || l[i] == '-')
}

/// A valid domain name: at most 253 characters, dot-separated valid
/// labels.
pub open spec fn valid_domain_name(s: Seq<char>) -> bool {
    &&& 1 <= s.len() <= 253
    &&& forall|i: int|
        0 <= i < split_chars(s, '.').len() ==> valid_label(#[trigger] split_chars(s, '.')[i])
}

/// Check one label.
fn valid_label_exec(l: &str) -> (r: bool)
    ensures
        r == valid_label(l@),
{
    let n = l.unicode_len();
    if n < 1 || n > 63 {
        return false;
    }
    if !is_alnum_exec(l.get_char(0)) {
        return false;
    }
    if !is_alnum_exec(l.get_char(n - 1)) {
        return false;
    }
    let mut i: usize = 1;
    while i + 1 < n
        invariant
            n == l@.len(),
            n <= 63,
            1 <= i <= n,
            forall|j: int| 0 < j < i ==> (is_alnum(#[trigger] l@[j]) || l@[j] == '-'),
        decreases n - i,
    {
        let c = l.get_char(i);
        if !(is_alnum_exec(c) || c == '-') {
            return false;
        }
        i = i + 1;
    }
    true
}

/// Check a whole domain name against the label grammar.
pub fn is_valid_domain_name(domain: &str) -> (r: bool)
    ensures
        r == valid_domain_name(domain@),
{
    let n = domain.unicode_len();
    if n < 1 || n > 253 {
        return false;
    }
    let labels = split_str(domain, '.');
    let ghost views = views_of(labels@);
    let mut i: usize = 0;
    while i < labels.len()
        invariant
            views == views_of(labels@),
            views == split_chars(domain@, '.'),
            i <= labels@.len(),
            forall|j: int| 0 <= j < i ==> valid_label(#[trigger] views[j]),
        decreases labels@.len() - i,
    {
        if !valid_label_exec(labels[i].as_str()) {
            proof {
                assert(split_chars(domain@, '.')[i as int] == views[i as int]);
            }
            return false;
        }
        i = i + 1;
    }
    true
}

/// Validate a domain for registration: report whether it may be stored
/// (never immediately verified), a status message, and — for a
/// well-formed name — a fresh verification token for the DNS record the
/// owner must create.
pub fn validate_domain(domain: &str) -> (r: (bool, String, Option<String>))
    ensures
        r.0 == false,
        r.2 is Some <==> valid_domain_name(domain@),
        domain@.len() == 0 ==> r.1@ == "Domain cannot be empty"@,
        domain@.len() > 253 ==> r.1@ == "Domain name too long (max 253 characters)"@,
        0 < domain@.len() <= 253 && !valid_domain_name(domain@) ==> r.1@
            == "Invalid domain format"@,
        match r.2 {
            Some(token) => r.1@
                == "Domain validation pending. Please create a TXT record: _thalora-verification."@
                + domain@ + " with value: "@ + token@,
            None => true,
        },
        match r.2 {
            Some(token) => exists|suffix: Seq<char>|
                {
                    &&& token@ == "thalora-verification-"@ + suffix
                    &&& suffix.len() == 32
                    &&& forall|i: int| 0 <= i < suffix.len() ==> is_alnum(#[trigger] suffix[i])
                },
            None => true,
        },
{
    let n = domain.unicode_len();
    if n == 0 {
        return (false, String::from_str("Domain cannot be empty"), None);
    }
    if n > 253 {
        return (false, String::from_str("Domain name too long (max 253 characters)"), None);
    }
    if !is_valid_domain_name(domain) {
        return (false, String::from_str("Invalid domain format"), None);
    }
    let token = generate_verification_token();
    let mut message = String::from_str(
        "Domain validation pending. Please create a TXT record: _thalora-verification.",
    );
    message.append(domain);
    message.append(" with value: ");
    message.append(token.as_str());
    (false, message, Some(token))
}

/// Whether any of the fetched TXT records, trimmed, equals the expected
/// token.
pub fn txt_records_contain_token(records: &Vec<String>, expected_token: &str) -> (r: bool)
    ensures
        r == exists|i: int|
            0 <= i < records@.len() && trim_spec(#[trigger] records@[i]@) == expected_token@,
{
    let mut i: usize = 0;
    while i < records.len()
        invariant
            i <= records@.len(),
            forall|j: int| 0 <= j < i ==> trim_spec(#[trigger] records@[j]@) != expected_token@,
        decreases records@.len() - i,
    {
        let value = trim_str(records[i].as_str());
        if str_eq(value.as_str(), expected_token) {
            return true;
        }
        i = i + 1;
    }
    false
}

/// Why no base URL could be chosen for a shortened link.
#[derive(Debug, Clone, Copy, PartialEq, Eq, Structural)]
pub enum BaseUrlError {
    /// The requested domain is absent from the verified list.
    DomainNotVerified,
    /// No verified domain exists and the local fallback is disabled.
    NoVerifiedDomains,
}

/// The index of the verified domain carrying this name.
pub open spec fn index_of_domain(domains: Seq<DomainEntry>, name: Seq<char>) -> int {
    choose|i: int| 0 <= i < domains.len() && domains[i].domain_name@ == name
}

/// Some entry carries this domain name.
pub open spec fn domain_present(domains: Seq<DomainEntry>, name: Seq<char>) -> bool {
    exists|i: int| 0 <= i < domains.len() && #[trigger] domains[i].domain_name@ == name
}

/// Choose the base URL for a shortened link from the verified domains:
/// a requested domain must be on the list; otherwise the first verified
/// domain serves; with none, the connection's scheme and host serve only
/// when the local fallback is allowed, with `http://localhost:8080`
/// taking over when the connection info is blank.
pub fn choose_short_url_base(
    domains: &Vec<DomainEntry>,
    requested: Option<&String>,
    allow_local_fallback: bool,
    scheme: &str,
    host: &str,
) -> (r: Result<String, BaseUrlError>)
    ensures
        match r {
            Ok(base) => match requested {
                Some(req) => domain_present(domains@, req@) && base@ == "https://"@
                    + domains@[index_of_domain(domains@, req@)].domain_name@,
                None => {
                    if domains@.len() > 0 {
                        base@ == "https://"@ + domains@[0].domain_name@
                    } else {
                        allow_local_fallback && (if scheme@.len() == 0 || host@.len() == 0 {
                            base@ == "http://localhost:8080"@
                        } else {
                            base@ == scheme@ + "://"@ + host@
                        })
                    }
                },
            },
            Err(e) => match requested {
                Some(req) => e == BaseUrlError::DomainNotVerified && !domain_present(
                    domains@,
                    req@,
                ),
                None => e == BaseUrlError::NoVerifiedDomains && domains@.len() == 0
                    && !allow_local_fallback,
            },
        },
{
    match requested {
        Some(req) => {
            let mut i: usize = 0;
            while i < domains.len()
                invariant
                    requested == Some(req),
                    i <= domains@.len(),
                    forall|j: int| 0 <= j < i ==> #[trigger] domains@[j].domain_name@ != req@,
                decreases domains@.len() - i,
            {
                if str_eq(domains[i].domain_name.as_str(), req.as_str()) {
                    let mut base = String::from_str("https://");
                    base.append(domains[i].domain_name.as_str());
                    proof {
                        assert(domains@[i as int].domain_name@ == req@);
                        assert(domain_present(domains@, req@));
                        let k = index_of_domain(domains@, req@);
                        assert(0 <= k < domains@.len() && domains@[k].domain_name@ == req@);
                        assert(base@ == "https://"@ + domains@[k].domain_name@);
                    }
                    return Ok(base);
                }
                i = i + 1;
            }
            Err(BaseUrlError::DomainNotVerified)
        },
        None => {
            if domains.len() > 0 {
                let mut base = String::from_str("https://");
                base.append(domains[0].domain_name.as_str());
                Ok(base)
            } else if allow_local_fallback {
                if scheme.unicode_len() == 0 || host.unicode_len() == 0 {
                    Ok(String::from_str("http://localhost:8080"))
                } else {
                    let mut base = scheme.to_owned();
                    base.append("://");
                    base.append(host);
                    Ok(base)
                }
            } else {
                Err(BaseUrlError::NoVerifiedDomains)
            }
        },
    }
}

} // verus!
