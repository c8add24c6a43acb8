//! The backend address: how a typed or stored value is made into one, and
//! which one a launch uses. The address must be known before the app
//! starts, and it is read once per launch, so changing it takes a relaunch.
use vstd::prelude::*;
use crate::text::{
    chars_of, has_prefix, is_white_space, occurs_at, starts_with, string_of, trim, trim_end,
    trim_end_char, trim_start, trimmed_chars, without_trailing,
};

verus! {

/// The backend a build without a compiled-in address talks to.
pub open spec fn fallback_backend(on_android: bool) -> Seq<char> {
    if on_android {
        "http://127.0.0.1:8080"@
    } else {
        "http://localhost:8080"@
    }
}

/// How long the scheme at the front of `t` is, with its "://", for the
/// two schemes a backend may have.
pub open spec fn scheme_len(t: Seq<char>) -> Option<int> {
    if starts_with(t, "http://"@) {
        Some(7)
    } else if starts_with(t, "https://"@) {
        Some(8)
    } else {
        None
    }
}

/// A URL trimmed into the form the server functions want: an origin with
/// no trailing slash, an http or https scheme, and something after it.
/// Anything else is no backend.
///
/// A trailing slash is the most likely thing for someone to paste, and it
/// turns every request path into a double slash. Without a scheme a
/// relative URL is resolved against the page, which on a packaged client
/// is a request that never leaves the device.
pub open spec fn backend_url_of(url: Seq<char>) -> Option<Seq<char>> {
    let t = trim_end_char(trim(url), '/');
    match scheme_len(t) {
        Some(k) => {
            let rest = t.skip(k);
            if rest.len() == 0 || starts_with(rest, "://"@) {
                None
            } else {
                Some(t)
            }
        },
        None => None,
    }
}

/// Trim a URL into the form the server functions want: an origin with no
/// trailing slash.
pub fn normalize_backend_url(url: &str) -> (r: Option<String>)
    ensures
        match backend_url_of(url@) {
            Some(t) => r matches Some(s) && s@ == t,
            None => r is None,
        },
{
    let cs = trimmed_chars(url);
    let t = without_trailing(&cs, '/');
    let http = chars_of("http://");
    let https = chars_of("https://");
    let sep = chars_of("://");
    proof {
        reveal_strlit("http://");
        reveal_strlit("https://");
        reveal_strlit("://");
    }
    let k: usize;
    if has_prefix(&t, &http) {
        k = 7;
    } else if has_prefix(&t, &https) {
        k = 8;
    } else {
        return None;
    }
    assert(scheme_len(t@) == Some(k as int));
    if t.len() == k {
        assert(t@.skip(k as int).len() == 0);
        return None;
    }
    if k + 3 <= t.len() && occurs_at(&t, &sep, k) {
        assert(t@.skip(k as int).take(3) =~= t@.subrange(k as int, k + 3));
        return None;
    }
    proof {
        if starts_with(t@.skip(k as int), "://"@) {
            assert(t@.skip(k as int).take(3) =~= t@.subrange(k as int, k + 3));
        }
    }
    Some(string_of(t.as_slice()))
}

/// The backend a build falls back on: the address compiled into it, or
/// else the local server on the platform's loopback.
pub fn default_backend_url(compiled: Option<&str>, on_android: bool) -> (r: String)
    ensures
        match compiled {
            Some(c) => r@ == c@,
            None => r@ == fallback_backend(on_android),
        },
{
    match compiled {
        Some(c) => c.to_string(),
        None => {
            if on_android {
                "http://127.0.0.1:8080".to_string()
            } else {
                "http://localhost:8080".to_string()
            }
        },
    }
}

/// What a stored value makes of the backend: its normal form, or `None`
/// where nothing usable is stored.
pub open spec fn chosen_backend(stored: Option<&str>) -> Option<Seq<char>> {
    match stored {
        Some(s) => backend_url_of(s@),
        None => None,
    }
}

/// The backend this client should talk to, stored value first.
pub fn backend_url(stored: Option<&str>, compiled: Option<&str>, on_android: bool) -> (r: String)
    ensures
        match chosen_backend(stored) {
            Some(t) => r@ == t,
            None => match compiled {
                Some(c) => r@ == c@,
                None => r@ == fallback_backend(on_android),
            },
        },
{
    let chosen = match stored {
        Some(s) => normalize_backend_url(s),
        None => None,
    };
    match chosen {
        Some(url) => url,
        None => default_backend_url(compiled, on_android),
    }
}

/// Whether a backend was ever chosen deliberately. A first launch has not
/// chosen one, which is what puts the setup screen in front of the app
/// rather than letting it fail against a default nobody picked.
pub fn has_chosen_backend(stored: Option<&str>) -> (r: bool)
    ensures
        r == chosen_backend(stored) is Some,
{
    match stored {
        Some(s) => normalize_backend_url(s).is_some(),
        None => false,
    }
}

/// The value to record as the backend from the next launch onwards, or
/// `None` where `url` is no backend and nothing is to be recorded. It does
/// not apply to this launch: the address is read once, before the app
/// starts.
pub fn set_backend_url(url: &str) -> (r: Option<String>)
    ensures
        match backend_url_of(url@) {
            Some(t) => r matches Some(s) && s@ == t,
            None => r is None,
        },
{
    normalize_backend_url(url)
}

/// A normal form is its own normal form: storing what was normalised and
/// normalising it again gives the same backend. (A value whose normal form
/// ends in whitespace, as "http://x /" does, is left out: trimming the
/// slash bares the space, and the next trim takes it.)
pub proof fn law_normal_form_is_stable(url: Seq<char>)
    requires
        backend_url_of(url) is Some,
        !is_white_space(backend_url_of(url)->0.last()),
    ensures
        backend_url_of(backend_url_of(url)->0) == backend_url_of(url),
{
    let t = backend_url_of(url)->0;
    reveal_strlit("http://");
    reveal_strlit("https://");
    assert(t.len() > 0);
    assert(t[0] == 'h') by {
        if starts_with(t, "http://"@) {
            assert(t.take(7)[0] == t[0]);
        } else {
            assert(t.take(8)[0] == t[0]);
        }
    }
    assert(trim_start(t) == t);
    assert(trim_end(t) == t);
    assert(trim(t) == t);
    lemma_no_trailing_slash(trim(url));
    assert(trim_end_char(t, '/') == t);
}

/// What `trim_end_char(s, '/')` leaves does not end in '/'.
proof fn lemma_no_trailing_slash(s: Seq<char>)
    ensures
        trim_end_char(s, '/').len() > 0 ==> trim_end_char(s, '/').last() != '/',
    decreases s.len(),
{
    if s.len() > 0 && s.last() == '/' {
        lemma_no_trailing_slash(s.drop_last());
    }
}

} // verus!
