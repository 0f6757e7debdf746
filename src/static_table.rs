use vstd::prelude::*;

use crate::entry::{bytes_of, str_vec, Entry, EntryView};

verus! {

/// The name of the ordinary header at index `k` (15 to 61) of the static
/// table of RFC 7541, Appendix A.
pub open spec fn static_name(k: usize) -> &'static str {
    match k {
        15 => "accept-charset",
        16 => "accept-encoding",
        17 => "accept-language",
        18 => "accept-ranges",
        19 => "accept",
        20 => "access-control-allow-origin",
        21 => "age",
        22 => "allow",
        23 => "authorization",
        24 => "cache-control",
        25 => "content-disposition",
        26 => "content-encoding",
        27 => "content-language",
        28 => "content-length",
        29 => "content-location",
        30 => "content-range",
        31 => "content-type",
        32 => "cookie",
        33 => "date",
        34 => "etag",
        35 => "expect",
        36 => "expires",
        37 => "from",
        38 => "host",
        39 => "if-match",
        40 => "if-modified-since",
        41 => "if-none-match",
        42 => "if-range",
        43 => "if-unmodified-since",
        44 => "last-modified",
        45 => "link",
        46 => "location",
        47 => "max-forwards",
        48 => "proxy-authenticate",
        49 => "proxy-authorization",
        50 => "range",
        51 => "referer",
        52 => "refresh",
        53 => "retry-after",
        54 => "server",
        55 => "set-cookie",
        56 => "strict-transport-security",
        57 => "transfer-encoding",
        58 => "user-agent",
        59 => "vary",
        60 => "via",
        61 => "www-authenticate",
        _ => "",
    }
}

/// The entry at index `k` (1 to 61) of the static table of RFC 7541,
/// Appendix A.
pub open spec fn static_entry(k: int) -> EntryView {
    if k == 1 {
        EntryView::Authority(Seq::empty())
    } else if k == 2 {
        EntryView::Method(bytes_of("GET"))
    } else if k == 3 {
        EntryView::Method(bytes_of("POST"))
    } else if k == 4 {
        EntryView::Path(bytes_of("/"))
    } else if k == 5 {
        EntryView::Path(bytes_of("/index.html"))
    } else if k == 6 {
        EntryView::Scheme(bytes_of("http"))
    } else if k == 7 {
        EntryView::Scheme(bytes_of("https"))
    } else if k == 8 {
        EntryView::Status(200)
    } else if k == 9 {
        EntryView::Status(204)
    } else if k == 10 {
        EntryView::Status(206)
    } else if k == 11 {
        EntryView::Status(304)
    } else if k == 12 {
        EntryView::Status(400)
    } else if k == 13 {
        EntryView::Status(404)
    } else if k == 14 {
        EntryView::Status(500)
    } else if k == 16 {
        EntryView::Header { name: bytes_of(static_name(k as usize)), value: bytes_of("gzip, deflate") }
    } else {
        EntryView::Header { name: bytes_of(static_name(k as usize)), value: Seq::empty() }
    }
}

fn header_name(idx: usize) -> (r: &'static str)
    requires
        15 <= idx <= 61,
    ensures
        r == static_name(idx),
{
    match idx {
        15 => "accept-charset",
        16 => "accept-encoding",
        17 => "accept-language",
        18 => "accept-ranges",
        19 => "accept",
        20 => "access-control-allow-origin",
        21 => "age",
        22 => "allow",
        23 => "authorization",
        24 => "cache-control",
        25 => "content-disposition",
        26 => "content-encoding",
        27 => "content-language",
        28 => "content-length",
        29 => "content-location",
        30 => "content-range",
        31 => "content-type",
        32 => "cookie",
        33 => "date",
        34 => "etag",
        35 => "expect",
        36 => "expires",
        37 => "from",
        38 => "host",
        39 => "if-match",
        40 => "if-modified-since",
        41 => "if-none-match",
        42 => "if-range",
        43 => "if-unmodified-since",
        44 => "last-modified",
        45 => "link",
        46 => "location",
        47 => "max-forwards",
        48 => "proxy-authenticate",
        49 => "proxy-authorization",
        50 => "range",
        51 => "referer",
        52 => "refresh",
        53 => "retry-after",
        54 => "server",
        55 => "set-cookie",
        56 => "strict-transport-security",
        57 => "transfer-encoding",
        58 => "user-agent",
        59 => "vary",
        60 => "via",
        61 => "www-authenticate",
        _ => "",
    }
}

/// The entry at index `idx` of the static table.
pub fn get_static(idx: usize) -> (r: Entry)
    requires
        1 <= idx <= 61,
    ensures
        r@ == static_entry(idx as int),
{
    match idx {
        1 => Entry::Authority(Vec::new()),
        2 => Entry::Method(str_vec("GET")),
        3 => Entry::Method(str_vec("POST")),
        4 => Entry::Path(str_vec("/")),
        5 => Entry::Path(str_vec("/index.html")),
        6 => Entry::Scheme(str_vec("http")),
        7 => Entry::Scheme(str_vec("https")),
        8 => Entry::Status(200),
        9 => Entry::Status(204),
        10 => Entry::Status(206),
        11 => Entry::Status(304),
        12 => Entry::Status(400),
        13 => Entry::Status(404),
        14 => Entry::Status(500),
        16 => Entry::Header { name: str_vec(header_name(idx)), value: str_vec("gzip, deflate") },
        _ => Entry::Header { name: str_vec(header_name(idx)), value: Vec::new() },
    }
}

} // verus!
