use vstd::prelude::*;
use crate::error::{ConfigError, JobError};
use crate::naming::{page_file_name, page_name};

verus! {

/// The serialisation of the absolute URL that `text` parses as, if any.
pub uninterp spec fn parsed_url(text: Seq<char>) -> Option<Seq<char>>;

/// The serialisation of `rel` resolved against the absolute URL `base`, if
/// both parse.
pub uninterp spec fn joined_url(base: Seq<char>, rel: Seq<char>) -> Option<Seq<char>>;

pub open spec fn http_scheme() -> Seq<char> {
    seq!['h', 't', 't', 'p', ':', '/', '/']
}

pub open spec fn https_scheme() -> Seq<char> {
    seq!['h', 't', 't', 'p', 's', ':', '/', '/']
}

pub open spec fn has_prefix(s: Seq<char>, p: Seq<char>) -> bool {
    p.len() <= s.len() && s.subrange(0, p.len() as int) == p
}

/// `raw` with `https://` put in front unless it already names the `http`
/// or `https` scheme.
pub open spec fn with_scheme(raw: Seq<char>) -> Seq<char> {
    if has_prefix(raw, http_scheme()) || has_prefix(raw, https_scheme()) {
        raw
    } else {
        https_scheme() + raw
    }
}

/// The base URL text after normalisation: a scheme as `with_scheme` gives it,
/// and a trailing `/` unless one is there, so that page names join below it.
pub open spec fn normalized_base(raw: Seq<char>) -> Seq<char> {
    let s = with_scheme(raw);
    if s.len() > 0 && s.last() == '/' {
        s
    } else {
        s.push('/')
    }
}

/// Relies on `url::Url::parse` (re-exported by reqwest as `reqwest::Url`)
/// and `String::from(Url)`: whether the text is an absolute URL, and the
/// serialisation of that URL, depend on the text alone.
#[verifier::external_body]
fn parse_absolute(text: &str) -> (r: Result<String, String>)
    ensures
        r is Ok <==> parsed_url(text@) is Some,
        r matches Ok(u) ==> u@ == parsed_url(text@).unwrap(),
{
    reqwest::Url::parse(text).map(String::from).map_err(|e| e.to_string())
}

/// Relies on `url::Url::join` (through `reqwest::Url`, the base parsed by
/// `Url::parse`): the joined URL depends on the two texts alone.
#[verifier::external_body]
fn join_relative(base: &str, rel: &str) -> (r: Result<String, String>)
    ensures
        r is Ok <==> joined_url(base@, rel@) is Some,
        r matches Ok(u) ==> u@ == joined_url(base@, rel@).unwrap(),
{
    match reqwest::Url::parse(base) {
        Ok(u) => u.join(rel).map(String::from).map_err(|e| e.to_string()),
        Err(e) => Err(e.to_string()),
    }
}

fn starts_with_text(s: &str, p: &str) -> (r: bool)
    ensures
        r == has_prefix(s@, p@),
{
    let n = p.unicode_len();
    if n > s.unicode_len() {
        return false;
    }
    let mut i: usize = 0;
    while i < n
        invariant
            n == p@.len(),
            n <= s@.len(),
            i <= n,
            forall|k: int| 0 <= k < i ==> s@[k] == p@[k],
        decreases n - i,
    {
        if s.get_char(i) != p.get_char(i) {
            assert(s@.subrange(0, n as int)[i as int] != p@[i as int]);
            return false;
        }
        i = i + 1;
    }
    assert(s@.subrange(0, n as int) =~= p@);
    true
}

/// Normalises a base URL as given by the user: `https://` is put in front
/// unless it starts with `http://` or `https://`, and a `/` is appended
/// unless it ends with one.
pub fn normalize_base(raw: &str) -> (r: String)
    ensures
        r@ == normalized_base(raw@),
{
    proof {
        reveal_strlit("http://");
        reveal_strlit("https://");
        reveal_strlit("/");
    }
    assert("http://"@ =~= http_scheme());
    assert("https://"@ =~= https_scheme());
    let mut s = if starts_with_text(raw, "http://") || starts_with_text(raw, "https://") {
        String::from_str(raw)
    } else {
        let mut t = String::from_str("https://");
        t.append(raw);
        t
    };
    assert(s@ == with_scheme(raw@));
    let n = s.as_str().unicode_len();
    if n == 0 || s.as_str().get_char(n - 1) != '/' {
        s.append("/");
        assert(s@ =~= with_scheme(raw@).push('/'));
    }
    s
}

/// Validates the user's base URL: the normalised text must parse as an
/// absolute URL, whose serialisation is returned.
pub fn parse_base(raw: &str) -> (r: Result<String, ConfigError>)
    ensures
        r is Ok <==> parsed_url(normalized_base(raw@)) is Some,
        r matches Ok(u) ==> u@ == parsed_url(normalized_base(raw@)).unwrap(),
        r matches Err(e) ==> e is InvalidUrl,
{
    let text = normalize_base(raw);
    match parse_absolute(text.as_str()) {
        Ok(u) => Ok(u),
        Err(msg) => Err(ConfigError::InvalidUrl(msg)),
    }
}

/// The URL of page `index`: its name (see `page_file_name`) joined onto the
/// normalised base. A base that takes no join gives `InvalidUrl`.
pub fn resource_url(base: &str, index: u32, ext: &str) -> (r: Result<String, JobError>)
    ensures
        r is Ok <==> joined_url(base@, page_name(index as nat, ext@)) is Some,
        r matches Ok(u) ==> u@ == joined_url(base@, page_name(index as nat, ext@)).unwrap(),
        r matches Err(e) ==> e is InvalidUrl,
{
    let name = page_file_name(index, ext);
    match join_relative(base, name.as_str()) {
        Ok(u) => Ok(u),
        Err(msg) => Err(JobError::InvalidUrl(msg)),
    }
}

} // verus!
