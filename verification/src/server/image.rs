//! An image status that carries the reason of a fault, stored as the text
//! `faulted(<reason>)`.
use vstd::prelude::*;
use vstd::string::*;
use crate::text::{
    to_lowercase, unicode_lowercase, all_ascii, ascii_lowercase, ascii_lower_char, push_str,
};

verus! {

/// The lifecycle status of an image; a fault keeps its reason.
#[derive(Debug)]
pub enum ImageStatus {
    Empty,
    Capturing,
    Ready,
    Faulted(String),
}

/// The mathematical value of an [`ImageStatus`].
pub enum ImageStatusView {
    Empty,
    Capturing,
    Ready,
    Faulted(Seq<char>),
}

impl View for ImageStatus {
    type V = ImageStatusView;

    open spec fn view(&self) -> ImageStatusView {
        match self {
            ImageStatus::Empty => ImageStatusView::Empty,
            ImageStatus::Capturing => ImageStatusView::Capturing,
            ImageStatus::Ready => ImageStatusView::Ready,
            ImageStatus::Faulted(m) => ImageStatusView::Faulted(m@),
        }
    }
}

/// The stored name of a status and its separately stored fault reason.
pub open spec fn parts(s: ImageStatusView) -> (Seq<char>, Option<Seq<char>>) {
    match s {
        ImageStatusView::Empty => ("empty"@, None),
        ImageStatusView::Capturing => ("capturing"@, None),
        ImageStatusView::Ready => ("ready"@, None),
        ImageStatusView::Faulted(m) => ("faulted"@, Some(m)),
    }
}

/// The text a status is displayed as: its name, or `faulted(<reason>)`.
pub open spec fn status_text(s: ImageStatusView) -> Seq<char> {
    match s {
        ImageStatusView::Empty => "empty"@,
        ImageStatusView::Capturing => "capturing"@,
        ImageStatusView::Ready => "ready"@,
        ImageStatusView::Faulted(m) => "faulted("@ + m + ")"@,
    }
}

/// The status a lowercased stored text denotes: one of the three names,
/// `faulted(<reason>)`, or else a fault with reason `invalid status`.
pub open spec fn status_of(lower: Seq<char>) -> ImageStatusView {
    if lower == "empty"@ {
        ImageStatusView::Empty
    } else if lower == "capturing"@ {
        ImageStatusView::Capturing
    } else if lower == "ready"@ {
        ImageStatusView::Ready
    } else if "faulted("@.is_prefix_of(lower) && lower.len() >= 9 && lower.last() == ')' {
        ImageStatusView::Faulted(lower.subrange(8, lower.len() - 1))
    } else {
        ImageStatusView::Faulted("invalid status"@)
    }
}

fn is(s: &String, lit: &str) -> (b: bool)
    ensures
        b == (s@ == lit@),
{
    *s == String::from_str(lit)
}

fn is_fault_text(s: &str) -> (b: bool)
    ensures
        b == ("faulted("@.is_prefix_of(s@) && s@.len() >= 9 && s@.last() == ')'),
{
    let n = s.unicode_len();
    proof {
        reveal_strlit("faulted(");
    }
    if n < 9 {
        return false;
    }
    let prefix = "faulted(";
    let mut i: usize = 0;
    while i < 8
        invariant
            n == s@.len(),
            n >= 9,
            i <= 8,
            prefix@ == "faulted("@,
            prefix@.len() == 8,
            forall|k: int| 0 <= k < i ==> s@[k] == prefix@[k],
        decreases 8 - i,
    {
        if s.get_char(i) != prefix.get_char(i) {
            return false;
        }
        i = i + 1;
    }
    assert(prefix@ =~= s@.subrange(0, 8));
    s.get_char(n - 1) == ')'
}

impl ImageStatus {
    /// The stored name of the status and, for a fault, its reason.
    pub fn into_parts(self) -> (r: (String, Option<String>))
        ensures
            (r.0@, match r.1 {
                Some(m) => Some(m@),
                None => None,
            }) == parts(self@),
    {
        match self {
            ImageStatus::Empty => (String::from_str("empty"), None),
            ImageStatus::Capturing => (String::from_str("capturing"), None),
            ImageStatus::Ready => (String::from_str("ready"), None),
            ImageStatus::Faulted(msg) => (String::from_str("faulted"), Some(msg)),
        }
    }

    /// Renders the status: its name, or `faulted(<reason>)`.
    pub fn to_string(&self) -> (s: String)
        ensures
            s@ == status_text(self@),
    {
        match self {
            ImageStatus::Empty => String::from_str("empty"),
            ImageStatus::Capturing => String::from_str("capturing"),
            ImageStatus::Ready => String::from_str("ready"),
            ImageStatus::Faulted(msg) => {
                let mut s = String::from_str("faulted(");
                push_str(&mut s, msg.as_str());
                push_str(&mut s, ")");
                s
            },
        }
    }

    /// Reads a stored status text, ignoring case: the text is lowercased
    /// (including a fault's reason) and then read as by `status_of`.
    pub fn from_text(value: String) -> (s: ImageStatus)
        ensures
            s@ == status_of(unicode_lowercase(value@)),
            all_ascii(value@) ==> unicode_lowercase(value@) == ascii_lowercase(value@),
    {
        let lower = to_lowercase(value.as_str());
        if is(&lower, "empty") {
            ImageStatus::Empty
        } else if is(&lower, "capturing") {
            ImageStatus::Capturing
        } else if is(&lower, "ready") {
            ImageStatus::Ready
        } else if is_fault_text(lower.as_str()) {
            let n = lower.as_str().unicode_len();
            let msg = lower.as_str().substring_char(8, n - 1);
            ImageStatus::Faulted(String::from_str(msg))
        } else {
            ImageStatus::Faulted(String::from_str("invalid status"))
        }
    }
}

/// Displaying a status and reading it back gives the same status, except that
/// a fault's reason comes back lowercased (stated here for ASCII reasons).
pub proof fn lemma_status_text_round_trip(s: ImageStatusView)
    ensures
        !(s is Faulted) ==> all_ascii(status_text(s)) && status_of(ascii_lowercase(status_text(s))) == s,
        s is Faulted && all_ascii(s->Faulted_0) ==> all_ascii(status_text(s)) && status_of(
            ascii_lowercase(status_text(s)),
        ) == ImageStatusView::Faulted(ascii_lowercase(s->Faulted_0)),
{
    reveal_strlit("empty");
    reveal_strlit("capturing");
    reveal_strlit("ready");
    reveal_strlit("faulted(");
    reveal_strlit(")");
    assert("empty"@.len() != "capturing"@.len());
    assert("empty"@[0] != "ready"@[0]);
    assert("capturing"@.len() != "ready"@.len());
    match s {
        ImageStatusView::Faulted(m) => {
            if all_ascii(m) {
                let t = status_text(s);
                let l = ascii_lowercase(t);
                assert(all_ascii(t));
                assert(l =~= "faulted("@ + ascii_lowercase(m) + ")"@);
                assert("faulted("@.is_prefix_of(l)) by {
                    assert(l.subrange(0, 8) =~= "faulted("@);
                }
                assert(l.subrange(8, l.len() - 1) =~= ascii_lowercase(m));
                assert(l != "empty"@) by {
                    assert(l[0] == 'f');
                }
                assert(l != "capturing"@) by {
                    assert(l[0] == 'f');
                }
                assert(l != "ready"@) by {
                    assert(l[0] == 'f');
                }
            }
        },
        _ => {
            assert(ascii_lowercase(status_text(s)) =~= status_text(s));
        },
    }
}

} // verus!
