//! The scanner page URL that the QR code encodes.

use vstd::prelude::*;
use crate::config::{Camera, Config, opt_view, setting_for};
use crate::formats::{Formats, default_formats, format_param};
use crate::text::chars_of;

verus! {

/// `s` without its trailing slashes (`str::trim_end_matches('/')`).
pub open spec fn strip_trailing_slashes(s: Seq<char>) -> Seq<char>
    decreases s.len(),
{
    if s.len() > 0 && s.last() == '/' {
        strip_trailing_slashes(s.drop_last())
    } else {
        s
    }
}

/// The scanner URL for a site, an endpoint and the phone-side options.
pub open spec fn scanner_url_spec(
    base: Seq<char>,
    endpoint: Seq<char>,
    formats: Option<Seq<char>>,
    vibrate: bool,
    camera: Camera,
    torch: bool,
) -> Seq<char> {
    strip_trailing_slashes(base) + "/scanner.html?endpoint="@ + endpoint
        + (match formats {
            Some(f) => "&formats="@ + f,
            None => Seq::<char>::empty(),
        })
        + (if !vibrate { "&vibrate=0"@ } else { Seq::<char>::empty() })
        + (if camera == Camera::Front { "&camera=front"@ } else { Seq::<char>::empty() })
        + (if torch { "&torch=1"@ } else { Seq::<char>::empty() })
}

/// `s` without its trailing slashes.
pub fn trim_trailing_slashes(s: &str) -> (r: &str)
    ensures
        r@ == strip_trailing_slashes(s@),
{
    let chars = chars_of(s);
    let mut end = chars.len();
    assert(s@.take(end as int) =~= s@);
    while end > 0 && chars[end - 1] == '/'
        invariant
            end <= chars.len(),
            chars@ == s@,
            strip_trailing_slashes(s@) == strip_trailing_slashes(s@.take(end as int)),
        decreases end,
    {
        proof {
            assert(s@.take(end as int).drop_last() =~= s@.take(end - 1));
            assert(s@.take(end as int).last() == chars@[end - 1]);
        }
        end = end - 1;
    }
    proof {
        let t = s@.take(end as int);
        if end > 0 {
            assert(t.last() == chars@[end - 1]);
        }
        assert(s@.subrange(0, end as int) =~= t);
    }
    s.substring_char(0, end)
}

/// The URL of the scanner page on the site `base_url` (trailing slashes
/// removed), for the endpoint `endpoint_id`, with the phone-side options of
/// `cfg` as query parameters: `formats` when set, `vibrate=0` when
/// vibration is off, `camera=front` for the front camera, `torch=1` when
/// the torch is on.
pub fn build_scanner_url(base_url: &str, endpoint_id: &str, cfg: &Config) -> (url: String)
    ensures
        url@ == scanner_url_spec(base_url@, endpoint_id@, opt_view(cfg.formats),
            cfg.vibrate, cfg.camera, cfg.torch),
{
    let mut url = String::from_str(trim_trailing_slashes(base_url));
    url.append("/scanner.html?endpoint=");
    url.append(endpoint_id);
    let ghost head = url@;
    match &cfg.formats {
        Some(fmts) => {
            url.append("&formats=");
            url.append(fmts.as_str());
        },
        None => {},
    }
    let ghost with_formats = url@;
    if !cfg.vibrate {
        url.append("&vibrate=0");
    }
    let ghost with_vibrate = url@;
    if cfg.camera == Camera::Front {
        url.append("&camera=front");
    }
    let ghost with_camera = url@;
    if cfg.torch {
        url.append("&torch=1");
    }
    proof {
        assert(with_formats =~= head + (match opt_view(cfg.formats) {
            Some(f) => "&formats="@ + f,
            None => Seq::<char>::empty(),
        }));
        assert(with_vibrate =~= with_formats
            + (if !cfg.vibrate { "&vibrate=0"@ } else { Seq::<char>::empty() }));
        assert(with_camera =~= with_vibrate
            + (if cfg.camera == Camera::Front { "&camera=front"@ } else { Seq::<char>::empty() }));
        assert(url@ =~= with_camera + (if cfg.torch { "&torch=1"@ } else { Seq::<char>::empty() }));
    }
    url
}

/// The scanner URL the app shows: none until the endpoint is known or while
/// no site URL is configured.
pub fn scanner_url(cfg: &Config, endpoint_id: Option<&str>) -> (r: Option<String>)
    ensures
        r is Some <==> (endpoint_id is Some && cfg.url@.len() > 0),
        r matches Some(u) ==> u@ == scanner_url_spec(cfg.url@, endpoint_id.unwrap()@,
            opt_view(cfg.formats), cfg.vibrate, cfg.camera, cfg.torch),
{
    match endpoint_id {
        None => None,
        Some(id) => {
            if cfg.url.as_str().unicode_len() == 0 {
                None
            } else {
                Some(build_scanner_url(cfg.url.as_str(), id, cfg))
            }
        },
    }
}

} // verus!

verus! {

/// Slashes at the end of the site URL make no difference to the scanner URL.
pub proof fn lemma_trailing_slash_ignored(base: Seq<char>, endpoint: Seq<char>,
    formats: Option<Seq<char>>, vibrate: bool, camera: Camera, torch: bool)
    ensures
        scanner_url_spec(base.push('/'), endpoint, formats, vibrate, camera, torch)
            == scanner_url_spec(base, endpoint, formats, vibrate, camera, torch),
{
    assert(base.push('/').drop_last() =~= base);
}

/// With the stored `formats` value of a selection, the scanner URL carries
/// a `formats` parameter only when the selection is not the default one,
/// and then it lists the selected formats.
pub proof fn lemma_formats_param_only_when_changed(base: Seq<char>, endpoint: Seq<char>,
    f: Formats, vibrate: bool, camera: Camera, torch: bool)
    ensures
        scanner_url_spec(base, endpoint, setting_for(f), vibrate, camera, torch)
            == strip_trailing_slashes(base) + "/scanner.html?endpoint="@ + endpoint
                + (if f == default_formats() { Seq::<char>::empty() } else { "&formats="@ + format_param(f) })
                + (if !vibrate { "&vibrate=0"@ } else { Seq::<char>::empty() })
                + (if camera == Camera::Front { "&camera=front"@ } else { Seq::<char>::empty() })
                + (if torch { "&torch=1"@ } else { Seq::<char>::empty() }),
{
}

} // verus!
