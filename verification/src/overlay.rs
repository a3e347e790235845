//! Text that overlays hand to FFmpeg filtergraphs.

use vstd::prelude::*;
use crate::text::{chars_of, owned, string_from};

verus! {

/// How one character of a path is written inside a filtergraph option:
/// backslashes become slashes, a colon is escaped, a quote closes, escapes
/// and reopens the quoting.
pub open spec fn escape_char(c: char) -> Seq<char> {
    if c == '\\' {
        seq!['/']
    } else if c == ':' {
        seq!['\\', ':']
    } else if c == '\'' {
        seq!['\'', '\\', '\'', '\'']
    } else {
        seq![c]
    }
}

/// Every character of `s` escaped, in order.
pub open spec fn escaped(s: Seq<char>) -> Seq<char>
    decreases s.len(),
{
    if s.len() == 0 {
        seq![]
    } else {
        escaped(s.drop_last()) + escape_char(s.last())
    }
}

/// Escape a filesystem path (given as its text) for use inside an FFmpeg
/// filtergraph option.
pub fn escape_filter_path(path: &str) -> (r: String)
    ensures
        r@ == escaped(path@),
{
    let cs = chars_of(path);
    let mut out: Vec<char> = Vec::new();
    let mut i: usize = 0;
    proof {
        assert(cs@.take(0) =~= Seq::<char>::empty());
    }
    while i < cs.len()
        invariant
            i <= cs@.len(),
            cs@ == path@,
            out@ == escaped(cs@.take(i as int)),
        decreases cs@.len() - i,
    {
        let c = cs[i];
        let ghost before = out@;
        if c == '\\' {
            out.push('/');
        } else if c == ':' {
            out.push('\\');
            out.push(':');
        } else if c == '\'' {
            out.push('\'');
            out.push('\\');
            out.push('\'');
            out.push('\'');
        } else {
            out.push(c);
        }
        proof {
            let t = cs@.take(i + 1);
            assert(t.drop_last() == cs@.take(i as int));
            assert(t.last() == c);
            assert(out@ =~= before + escape_char(c));
        }
        i = i + 1;
    }
    proof {
        assert(cs@.take(cs@.len() as int) == cs@);
    }
    string_from(out.as_slice())
}

/// Characters other than backslash, colon and quote pass through unchanged.
pub proof fn lemma_plain_text_unchanged(s: Seq<char>)
    requires
        forall|i: int| 0 <= i < s.len() ==> s[i] != '\\' && s[i] != ':' && s[i] != '\'',
    ensures
        escaped(s) == s,
    decreases s.len(),
{
    if s.len() > 0 {
        lemma_plain_text_unchanged(s.drop_last());
        assert(s.drop_last().push(s.last()) == s);
    }
}

/// Every colon of the escaped text is escaped: a backslash precedes it.
pub proof fn lemma_escaped_colons(s: Seq<char>, j: int)
    requires
        0 <= j < escaped(s).len(),
        escaped(s)[j] == ':',
    ensures
        j > 0 && escaped(s)[j - 1] == '\\',
    decreases s.len(),
{
    let init = escaped(s.drop_last());
    if j < init.len() {
        lemma_escaped_colons(s.drop_last(), j);
    } else {
        assert(s.last() == ':');
    }
}

/// Where an overlay is anchored on the frame.
#[derive(Debug, Clone, Copy, PartialEq, Eq, Structural)]
pub enum OverlayAnchor {
    TopLeft,
    TopRight,
    BottomLeft,
    BottomRight,
    Center,
    Custom,
}

/// Circles drawn under the cursor on clicks, one colour per button.
#[derive(Debug)]
pub struct MouseClickOverlay {
    pub enabled: bool,
    pub left_color: String,
    pub right_color: String,
    pub middle_color: String,
    pub radius: u32,
}

impl Default for MouseClickOverlay {
    /// Shown, red for the left button, blue for the right, green for the
    /// middle, 18 pixels across.
    fn default() -> (r: Self)
        ensures
            r.enabled,
            r.left_color@ == "#FF5252"@,
            r.right_color@ == "#448AFF"@,
            r.middle_color@ == "#69F0AE"@,
            r.radius == 18,
    {
        MouseClickOverlay {
            enabled: true,
            left_color: owned("#FF5252"),
            right_color: owned("#448AFF"),
            middle_color: owned("#69F0AE"),
            radius: 18,
        }
    }
}

} // verus!
