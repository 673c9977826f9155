//! The message unit that flows through the relay, and topic normalisation.
use vstd::prelude::*;
use vstd::string::StringExecFns;

verus! {

/// One published change: the topic it is addressed to and the text payload
/// that every subscriber of that topic receives as one frame.
#[derive(Debug)]
pub struct Update {
    pub url: String,
    pub body: String,
}

impl Update {
    /// Builds an update for `url` carrying `body`.
    pub fn new(url: String, body: String) -> (r: Update)
        ensures
            r.url@ == url@,
            r.body@ == body@,
    {
        Update { url, body }
    }
}

/// The canonical form of a requested path: the path itself when it already
/// starts with `/`, otherwise the path with `/` put in front.
pub open spec fn canonical_topic_of(path: Seq<char>) -> Seq<char> {
    if path.len() > 0 && path[0] == '/' {
        path
    } else {
        seq!['/'] + path
    }
}

/// Normalises a resource path (from a handshake or a content route) into the
/// topic it subscribes or publishes to.
pub fn canonical_topic(path: &str) -> (r: String)
    ensures
        r@ == canonical_topic_of(path@),
{
    let n = path.unicode_len();
    if n > 0 && path.get_char(0) == '/' {
        path.to_owned()
    } else {
        let slash = "/";
        proof {
            reveal_strlit("/");
        }
        let mut r = String::from_str(slash);
        r.append(path);
        assert(r@ =~= seq!['/'] + path@);
        r
    }
}

} // verus!
