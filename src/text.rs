//! Text rules of the protocol: line framing and the validity of names and
//! chat messages.
use vstd::prelude::*;
use vstd::utf8::is_ascii_chars;

verus! {

/// Longest name a member may take.
pub const MAX_NAME_LEN: usize = 50;

/// A character is a carriage return or a line feed.
pub open spec fn is_crlf(c: char) -> bool {
    c == '\r' || c == '\n'
}

/// `s` with every carriage return and line feed at its end removed.
pub open spec fn trim_crlf(s: Seq<char>) -> Seq<char>
    decreases s.len(),
{
    if s.len() > 0 && is_crlf(s.last()) {
        trim_crlf(s.drop_last())
    } else {
        s
    }
}

/// A character is an ASCII letter or an ASCII digit.
pub open spec fn is_ascii_alnum(c: char) -> bool {
    ('0' <= c && c <= '9') || ('a' <= c && c <= 'z') || ('A' <= c && c <= 'Z')
}

/// A name is 1 to 50 characters long, each an ASCII letter or digit.
pub open spec fn valid_name(s: Seq<char>) -> bool {
    &&& 1 <= s.len() <= MAX_NAME_LEN
    &&& forall|i: int| 0 <= i < s.len() ==> is_ascii_alnum(#[trigger] s[i])
}

/// A chat message is non-empty and made of ASCII characters only.
pub open spec fn valid_message(s: Seq<char>) -> bool {
    s.len() >= 1 && is_ascii_chars(s)
}

/// Removes the line terminator (any run of `\r` and `\n`) from the end of a
/// received line.
pub fn trim_line(line: &str) -> (r: &str)
    ensures
        r@ == trim_crlf(line@),
{
    let n = line.unicode_len();
    let mut j: usize = n;
    assert(line@.subrange(0, n as int) =~= line@);
    while j > 0
        invariant
            n == line@.len(),
            j <= n,
            trim_crlf(line@.subrange(0, j as int)) == trim_crlf(line@),
        ensures
            j == 0 || !is_crlf(line@[j - 1]),
            trim_crlf(line@.subrange(0, j as int)) == trim_crlf(line@),
        decreases j,
    {
        let c = line.get_char(j - 1);
        if c != '\r' && c != '\n' {
            break;
        }
        assert(line@.subrange(0, j as int).drop_last() =~= line@.subrange(0, j - 1));
        j = j - 1;
    }
    let r = line.substring_char(0, j);
    r
}

/// `line` as it is written to the wire: followed by a line feed.
pub fn frame(line: &str) -> (r: String)
    ensures
        r@ == line@ + "\n"@,
{
    let mut r = String::from_str(line);
    r.append("\n");
    r
}

/// Whether `c` is an ASCII letter or digit.
fn ascii_alnum(c: char) -> (r: bool)
    ensures
        r == is_ascii_alnum(c),
{
    ('0' <= c && c <= '9') || ('a' <= c && c <= 'z') || ('A' <= c && c <= 'Z')
}

/// Whether `username` may be taken as a member's name.
pub fn is_valid_username(username: &str) -> (r: bool)
    ensures
        r == valid_name(username@),
{
    let n = username.unicode_len();
    if n < 1 || n > MAX_NAME_LEN {
        return false;
    }
    let mut i: usize = 0;
    while i < n
        invariant
            n == username@.len(),
            i <= n,
            forall|k: int| 0 <= k < i ==> is_ascii_alnum(#[trigger] username@[k]),
        decreases n - i,
    {
        if !ascii_alnum(username.get_char(i)) {
            return false;
        }
        i = i + 1;
    }
    true
}

/// Whether `message` may be broadcast as a chat line.
pub fn is_valid_message(message: &str) -> (r: bool)
    ensures
        r == valid_message(message@),
{
    message.is_ascii() && !message.is_empty()
}

} // verus!
