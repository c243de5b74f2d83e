//! Plain text helpers: markup escaping, commit titles and short hashes.

use vstd::prelude::*;

verus! {

/// What one character becomes once escaped for chat markup.
pub open spec fn escape_char(c: char) -> Seq<char> {
    if c == '&' {
        "&amp;"@
    } else if c == '<' {
        "&lt;"@
    } else if c == '>' {
        "&gt;"@
    } else {
        seq![c]
    }
}

/// `s` with `&`, `<` and `>` replaced by their entities.
pub open spec fn escaped(s: Seq<char>) -> Seq<char>
    decreases s.len(),
{
    if s.len() == 0 {
        Seq::empty()
    } else {
        escaped(s.drop_last()) + escape_char(s.last())
    }
}

/// Relies on `String::push`: the character is appended at the end.
#[verifier::external_body]
pub(crate) fn push_char(s: &mut String, c: char)
    ensures
        final(s)@ == old(s)@.push(c),
{
    s.push(c)
}

/// Escapes text for chat markup: `&`, `<` and `>` become `&amp;`, `&lt;` and `&gt;`.
pub fn escape_mrkdwn(text: &str) -> (r: String)
    ensures
        r@ == escaped(text@),
{
    let n = text.unicode_len();
    let mut out = String::new();
    let mut i: usize = 0;
    while i < n
        invariant
            n == text@.len(),
            i <= n,
            out@ == escaped(text@.take(i as int)),
        decreases n - i,
    {
        let c = text.get_char(i);
        proof {
            assert(text@.take(i + 1).drop_last() == text@.take(i as int));
        }
        if c == '&' {
            out.append("&amp;");
        } else if c == '<' {
            out.append("&lt;");
        } else if c == '>' {
            out.append("&gt;");
        } else {
            push_char(&mut out, c);
        }
        i = i + 1;
    }
    proof {
        assert(text@.take(n as int) == text@);
    }
    out
}

/// Index of the first newline of `m`, or its length where it holds none.
pub open spec fn line_end(m: Seq<char>) -> int
    decreases m.len(),
{
    if m.len() == 0 {
        0
    } else if m[0] == '\n' {
        0
    } else {
        1 + line_end(m.drop_first())
    }
}

/// The title of a commit message: the text before its first newline, or the
/// whole message where it holds none.
pub open spec fn title_of(message: Seq<char>) -> Seq<char> {
    message.take(line_end(message))
}

/// The number of characters of an abbreviated commit hash.
pub const SHORT_SHA_LEN: usize = 7;

proof fn lemma_line_end(m: Seq<char>, i: int)
    requires
        0 <= i <= m.len(),
        forall|j: int| 0 <= j < i ==> m[j] != '\n',
        i == m.len() || m[i] == '\n',
    ensures
        line_end(m) == i,
    decreases m.len(),
{
    if m.len() > 0 && i > 0 {
        lemma_line_end(m.drop_first(), i - 1);
    }
}

/// The title of a commit message.
pub fn commit_title(message: &str) -> (r: String)
    ensures
        r@ == title_of(message@),
{
    let n = message.unicode_len();
    let mut i: usize = 0;
    while i < n && message.get_char(i) != '\n'
        invariant
            n == message@.len(),
            i <= n,
            forall|j: int| 0 <= j < i ==> message@[j] != '\n',
        decreases n - i,
    {
        i = i + 1;
    }
    proof {
        lemma_line_end(message@, i as int);
    }
    String::from_str(message.substring_char(0, i))
}

/// The abbreviated form of a commit hash: its first seven characters, or
/// `None` where it is shorter than that.
pub fn short_sha(sha: &str) -> (r: Option<String>)
    ensures
        sha@.len() < SHORT_SHA_LEN ==> r is None,
        sha@.len() >= SHORT_SHA_LEN ==> (r matches Some(s) && s@ == sha@.take(SHORT_SHA_LEN as int)),
{
    if sha.unicode_len() < SHORT_SHA_LEN {
        None
    } else {
        Some(String::from_str(sha.substring_char(0, SHORT_SHA_LEN)))
    }
}

/// Whether two texts are equal.
pub fn same_text(a: &str, b: &str) -> (r: bool)
    ensures
        r == (a@ == b@),
{
    let n = a.unicode_len();
    if n != b.unicode_len() {
        return false;
    }
    let mut i: usize = 0;
    while i < n
        invariant
            n == a@.len(),
            n == b@.len(),
            i <= n,
            forall|j: int| 0 <= j < i ==> a@[j] == b@[j],
        decreases n - i,
    {
        if a.get_char(i) != b.get_char(i) {
            return false;
        }
        i = i + 1;
    }
    assert(a@ =~= b@);
    true
}

} // verus!
