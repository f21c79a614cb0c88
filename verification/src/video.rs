//! Parsing of video URIs into a protocol and a location. An input or output
//! is either the screen sentinel, a v4l2 device, or a `protocol://location`
//! pair.

use vstd::prelude::*;
use vstd::string::StrSliceExecFns;
use vstd::string::StringExecFns;
use crate::text::seq_starts_with;
use crate::text::str_starts_with;

verus! {

/// A URI that could not be parsed into a video definition.
#[derive(Debug)]
pub struct VideoConfigError {
    msg: String,
}

impl View for VideoConfigError {
    type V = Seq<char>;

    closed spec fn view(&self) -> Seq<char> {
        self.msg@
    }
}

impl VideoConfigError {
    /// Wraps a message.
    pub fn new(msg: &str) -> (r: Self)
        ensures
            r@ == msg@,
    {
        VideoConfigError { msg: msg.to_owned() }
    }

    /// The human-readable description of the failure.
    pub fn message(&self) -> (r: &str)
        ensures
            r@ == self@,
    {
        self.msg.as_str()
    }
}

/// The separator starts at position `p` of `s`.
pub open spec fn is_sep_at(s: Seq<char>, p: int) -> bool {
    p + 3 <= s.len() && s[p] == ':' && s[p + 1] == '/' && s[p + 2] == '/'
}

/// The first separator position at or after `from`, if any.
pub open spec fn find_sep_from(s: Seq<char>, from: int) -> Option<int>
    decreases s.len() - from,
{
    if from < 0 || from + 3 > s.len() {
        None
    } else if is_sep_at(s, from) {
        Some(from)
    } else {
        find_sep_from(s, from + 1)
    }
}

/// The protocol and location a general URI splits into: the text before the
/// first separator, and the text from there to the next separator or to the
/// end.
pub open spec fn spec_split_uri(s: Seq<char>) -> Option<(Seq<char>, Seq<char>)> {
    match find_sep_from(s, 0) {
        None => None,
        Some(p) => {
            let loc_end = match find_sep_from(s, p + 3) {
                Some(q) => q,
                None => s.len() as int,
            };
            Some((s.take(p), s.subrange(p + 3, loc_end)))
        },
    }
}

/// The screen sentinel as characters.
pub open spec fn screen_uri() -> Seq<char> {
    seq!['s', 'c', 'r', 'e', 'e', 'n']
}

/// The v4l2 device prefix as characters.
pub open spec fn v4l2_prefix() -> Seq<char> {
    seq!['v', '4', 'l', '2']
}

/// The file protocol as characters.
pub open spec fn file_protocol() -> Seq<char> {
    seq!['f', 'i', 'l', 'e']
}

/// How a URI parses: the three shapes a video definition can take, or a
/// rejection when a general URI lacks the separator.
pub open spec fn spec_parse_video(s: Seq<char>) -> Option<(Seq<char>, Seq<char>)> {
    if s == screen_uri() {
        Some((screen_uri(), screen_uri()))
    } else if seq_starts_with(s, v4l2_prefix()) {
        Some((v4l2_prefix(), v4l2_prefix()))
    } else {
        spec_split_uri(s)
    }
}

/// A file URI whose location is not an absolute path. The runtime refuses
/// to continue on such a URI, so construction excludes it.
pub open spec fn file_uri_without_absolute_path(s: Seq<char>) -> bool {
    match spec_parse_video(s) {
        Some((protocol, location)) => protocol == file_protocol() && (location.len() == 0
            || location[0] != '/'),
        None => false,
    }
}

/// A generic video definition: either side of a stream, parsed from its URI.
pub struct Video {
    protocol: String,
    location: String,
    uri: String,
}

/// The mathematical content of a video definition.
pub ghost struct VideoModel {
    pub protocol: Seq<char>,
    pub location: Seq<char>,
    pub uri: Seq<char>,
}

impl View for Video {
    type V = VideoModel;

    closed spec fn view(&self) -> VideoModel {
        VideoModel { protocol: self.protocol@, location: self.location@, uri: self.uri@ }
    }
}

/// Finds the first `://` at or after `from`, exact against `find_sep_from`.
fn find_sep(s: &str, from: usize) -> (r: Option<usize>)
    requires
        from <= s@.len(),
    ensures
        match r {
            Some(p) => find_sep_from(s@, from as int) == Some(p as int) && from <= p && p + 3
                <= s@.len(),
            None => find_sep_from(s@, from as int) is None,
        },
{
    let len = s.unicode_len();
    if len < 3 {
        proof {
            lemma_find_sep_none(s@, from as int);
        }
        return None;
    }
    let mut q: usize = from;
    while q <= len - 3
        invariant
            from <= q,
            q <= len,
            len >= 3,
            len == s@.len(),
            forall|w: int| from <= w < q ==> !is_sep_at(s@, w),
        decreases len - q,
    {
        if s.get_char(q) == ':' && s.get_char(q + 1) == '/' && s.get_char(q + 2) == '/' {
            proof {
                lemma_find_sep_first(s@, from as int, q as int);
            }
            return Some(q);
        }
        assert(!is_sep_at(s@, q as int));
        q = q + 1;
    }
    proof {
        lemma_find_sep_none(s@, from as int);
    }
    None
}

/// A position known to be the first separator determines `find_sep_from`.
proof fn lemma_find_sep_first(s: Seq<char>, from: int, p: int)
    requires
        0 <= from <= p,
        is_sep_at(s, p),
        forall|w: int| from <= w < p ==> !is_sep_at(s, w),
    ensures
        find_sep_from(s, from) == Some(p),
    decreases p - from,
{
    if from < p {
        lemma_find_sep_first(s, from + 1, p);
    }
}

/// Without a separator at or after `from`, the search yields nothing.
proof fn lemma_find_sep_none(s: Seq<char>, from: int)
    requires
        0 <= from,
        forall|w: int| from <= w ==> !is_sep_at(s, w),
    ensures
        find_sep_from(s, from) is None,
    decreases s.len() - from,
{
    if from + 3 <= s.len() {
        lemma_find_sep_none(s, from + 1);
    }
}

impl Video {
    /// Parses a URI into a video definition. The screen sentinel and v4l2
    /// devices are taken as they are; any other URI must contain `://`
    /// between a protocol and a location, and a file URI must carry an
    /// absolute path.
    pub fn new(uri: String) -> (r: Result<Video, VideoConfigError>)
        requires
            !file_uri_without_absolute_path(uri@),
        ensures
            match spec_parse_video(uri@) {
                Some(parts) => r is Ok && r->Ok_0@ == (VideoModel {
                    protocol: parts.0,
                    location: parts.1,
                    uri: uri@,
                }),
                None => r is Err,
            },
    {
        proof {
            reveal_strlit("screen");
            reveal_strlit("v4l2");
            assert("screen"@ =~= screen_uri());
            assert("v4l2"@ =~= v4l2_prefix());
        }
        let protocol: String;
        let location: String;
        if crate::text::str_eq(uri.as_str(), "screen") {
            protocol = String::from_str("screen");
            location = String::from_str("screen");
        } else if !str_starts_with(uri.as_str(), "v4l2") {
            let p = match find_sep(uri.as_str(), 0) {
                Some(p) => p,
                None => {
                    return Err(
                        VideoConfigError::new(
                            "Unable to get location from URI. Ensure it contains the protocol followed by '://'. Example: file:///home/user/file.mp4",
                        ),
                    );
                },
            };
            let len = uri.as_str().unicode_len();
            let loc_end = match find_sep(uri.as_str(), p + 3) {
                Some(q) => q,
                None => len,
            };
            protocol = uri.as_str().substring_char(0, p).to_owned();
            location = uri.as_str().substring_char(p + 3, loc_end).to_owned();
            proof {
                assert(uri@.take(p as int) =~= uri@.subrange(0, p as int));
            }
        } else {
            protocol = String::from_str("v4l2");
            location = String::from_str("v4l2");
        }

        Ok(Video { protocol, location, uri })
    }

    /// The protocol side of the URI.
    pub fn get_protocol(&self) -> (r: &str)
        ensures
            r@ == self@.protocol,
    {
        self.protocol.as_str()
    }

    /// The location side of the URI.
    pub fn get_location(&self) -> (r: &str)
        ensures
            r@ == self@.location,
    {
        self.location.as_str()
    }

    /// The URI as given.
    pub fn get_uri(&self) -> (r: &str)
        ensures
            r@ == self@.uri,
    {
        self.uri.as_str()
    }
}

} // verus!
