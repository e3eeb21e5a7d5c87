//! The `DISPLAY` string: `[transport/]host:[:]server[.screen]`.
//!
//! A transport may stand in front of the first `/`. The host is what stands
//! before the first `:`; a `::` anywhere after the transport means DECnet. The
//! server number follows the last `:`, and a screen number may follow it after
//! a `.`.

use crate::decimal::{chars_of, parse_usize, parse_usize_spec};
use vstd::prelude::*;
use vstd::slice::slice_subrange;
use vstd::string::StrSliceExecFns;

verus! {

/// How a display is reached.
#[derive(Debug, Copy, Clone, Eq, PartialEq, Hash, Structural)]
pub enum X11ConnectionType {
    Local,
    TCP,
    DECnet,
}

/// What a `DISPLAY` string says.
#[derive(Debug, Clone, Eq, PartialEq, Hash)]
pub struct X11ConnectionDescriptor {
    pub connection_type: X11ConnectionType,
    pub host_name: Option<String>,
    pub server_num: usize,
    pub screen_num: usize,
}

/// A descriptor with its host name as a sequence of characters.
pub struct X11ConnectionDescriptorView {
    pub connection_type: X11ConnectionType,
    pub host_name: Option<Seq<char>>,
    pub server_num: usize,
    pub screen_num: usize,
}

impl View for X11ConnectionDescriptor {
    type V = X11ConnectionDescriptorView;

    open spec fn view(&self) -> X11ConnectionDescriptorView {
        X11ConnectionDescriptorView {
            connection_type: self.connection_type,
            host_name: match self.host_name {
                Some(host) => Some(host@),
                None => None,
            },
            server_num: self.server_num,
            screen_num: self.screen_num,
        }
    }
}

impl X11ConnectionDescriptor {
    /// Whether the display is reached through a Unix-domain socket.
    pub fn is_unix_socket(&self) -> (b: bool)
        ensures
            b == (self.connection_type == X11ConnectionType::Local),
    {
        self.connection_type == X11ConnectionType::Local
    }

    /// The number of the X server.
    pub fn server_num(&self) -> (n: usize)
        ensures
            n == self.server_num,
    {
        self.server_num
    }

    /// The number of the screen on that server.
    pub fn screen_num(&self) -> (n: usize)
        ensures
            n == self.screen_num,
    {
        self.screen_num
    }
}

/// The word `tcp`, in any mix of upper and lower case.
pub open spec fn is_tcp_word(t: Seq<char>) -> bool {
    &&& t.len() == 3
    &&& (t[0] == 't' || t[0] == 'T')
    &&& (t[1] == 'c' || t[1] == 'C')
    &&& (t[2] == 'p' || t[2] == 'P')
}

/// Whether the string names the transport `tcp` in front of its first `/`.
pub open spec fn transport_is_tcp(d: Seq<char>) -> bool {
    match d.index_of_first('/') {
        Some(i) => is_tcp_word(d.take(i)),
        None => false,
    }
}

/// What follows the transport: all of the string where it names none.
pub open spec fn remainder_of(d: Seq<char>) -> Seq<char> {
    match d.index_of_first('/') {
        Some(i) => d.skip(i + 1),
        None => d,
    }
}

/// Two colons stand side by side somewhere in `r`.
pub open spec fn has_double_colon(r: Seq<char>) -> bool {
    exists|i: int| 0 <= i && i + 1 < r.len() && #[trigger] r[i] == ':' && r[i + 1] == ':'
}

/// The text of the server number: what follows the last `:`, up to the first
/// `.` after it.
pub open spec fn server_text(r: Seq<char>) -> Seq<char>
    recommends
        r.contains(':'),
{
    let tail = r.skip(r.index_of_last(':').unwrap() + 1);
    match tail.index_of_first('.') {
        Some(i) => tail.take(i),
        None => tail,
    }
}

/// The text of the screen number, where a `.` follows the server number.
pub open spec fn screen_text(r: Seq<char>) -> Option<Seq<char>>
    recommends
        r.contains(':'),
{
    let tail = r.skip(r.index_of_last(':').unwrap() + 1);
    match tail.index_of_first('.') {
        Some(i) => Some(tail.skip(i + 1)),
        None => None,
    }
}

/// The kind of connection that a display string asks for.
pub open spec fn connection_type_of(d: Seq<char>) -> X11ConnectionType
    recommends
        remainder_of(d).contains(':'),
{
    let r = remainder_of(d);
    if has_double_colon(r) {
        X11ConnectionType::DECnet
    } else if r.index_of_first(':').unwrap() > 0 || transport_is_tcp(d) {
        X11ConnectionType::TCP
    } else {
        X11ConnectionType::Local
    }
}

/// What a display string says, if it names a server number.
///
/// It does so when a `:` follows the transport, the text after the last `:`
/// up to a `.` reads as a number, and so does the text after that `.`, if
/// there is one. Without a `.` the screen is 0.
pub open spec fn parse_display_spec(d: Seq<char>) -> Option<X11ConnectionDescriptorView> {
    let r = remainder_of(d);
    if !r.contains(':') {
        None
    } else {
        let host = r.take(r.index_of_first(':').unwrap());
        let screen = match screen_text(r) {
            Some(text) => parse_usize_spec(text),
            None => Some(0usize),
        };
        match (parse_usize_spec(server_text(r)), screen) {
            (Some(server_num), Some(screen_num)) => Some(
                X11ConnectionDescriptorView {
                    connection_type: connection_type_of(d),
                    host_name: if host.len() == 0 {
                        None
                    } else {
                        Some(host)
                    },
                    server_num,
                    screen_num,
                },
            ),
            _ => None,
        }
    }
}

/// The first place at which `c` stands in `s`.
fn find_first(s: &[char], c: char) -> (r: Option<usize>)
    ensures
        match r {
            Some(i) => s@.index_of_first(c) == Some(i as int) && i < s@.len() && s@[i as int] == c,
            None => s@.index_of_first(c) is None && !s@.contains(c),
        },
{
    let n: usize = s.len();
    let mut i: usize = 0;
    while i < n
        invariant
            i <= n,
            n == s@.len(),
            forall|j: int| 0 <= j < i ==> s@[j] != c,
        decreases n - i,
    {
        if s[i] == c {
            proof {
                assert(s@.contains(c));
                s@.index_of_first_ensures(c);
                let k = s@.index_of_first(c).unwrap();
                assert(k == i) by {
                    if i < k {
                        assert(s@[i as int] != c);
                    }
                }
            }
            return Some(i);
        }
        i = i + 1;
    }
    proof {
        s@.index_of_first_ensures(c);
        if s@.contains(c) {
            let k = s@.index_of_first(c).unwrap();
            assert(s@[k] != c);
        }
    }
    None
}

/// The last place at which `c` stands in `s`.
fn find_last(s: &[char], c: char) -> (r: Option<usize>)
    ensures
        match r {
            Some(i) => s@.index_of_last(c) == Some(i as int) && i < s@.len() && s@[i as int] == c,
            None => s@.index_of_last(c) is None && !s@.contains(c),
        },
{
    let n: usize = s.len();
    let mut i: usize = n;
    while i > 0
        invariant
            i <= n,
            n == s@.len(),
            forall|j: int| i <= j < n ==> s@[j] != c,
        decreases i,
    {
        i = i - 1;
        if s[i] == c {
            proof {
                assert(s@.contains(c));
                s@.index_of_last_ensures(c);
                let k = s@.index_of_last(c).unwrap();
                assert(k == i) by {
                    if k < i {
                        assert(s@[i as int] != c);
                    }
                }
            }
            return Some(i);
        }
    }
    proof {
        s@.index_of_last_ensures(c);
        if s@.contains(c) {
            let k = s@.index_of_last(c).unwrap();
            assert(s@[k] != c);
        }
    }
    None
}

/// Whether two colons stand side by side in `s`.
fn contains_double_colon(s: &[char]) -> (b: bool)
    ensures
        b == has_double_colon(s@),
{
    let n: usize = s.len();
    let mut i: usize = 1;
    while i < n
        invariant
            1 <= i,
            n == s@.len(),
            forall|j: int| 0 <= j && j + 1 < i ==> !(#[trigger] s@[j] == ':' && s@[j + 1] == ':'),
        decreases n - i,
    {
        if s[i - 1] == ':' && s[i] == ':' {
            assert(s@[i - 1] == ':' && s@[i - 1 + 1] == ':');
            return true;
        }
        i = i + 1;
    }
    false
}

/// Whether `t` is the word `tcp` in any mix of case.
fn is_tcp(t: &[char]) -> (b: bool)
    ensures
        b == is_tcp_word(t@),
{
    t.len() == 3 && (t[0] == 't' || t[0] == 'T') && (t[1] == 'c' || t[1] == 'C') && (t[2] == 'p'
        || t[2] == 'P')
}

/// Reads a `DISPLAY` string, or says that it names no server number.
pub fn try_parse_x11_display(display: &str) -> (r: Option<X11ConnectionDescriptor>)
    ensures
        match parse_display_spec(display@) {
            Some(v) => r matches Some(c) && c@ == v,
            None => r is None,
        },
{
    let chars: Vec<char> = chars_of(display);
    let all: &[char] = chars.as_slice();
    let n: usize = all.len();
    // See if a transport is named.
    let (start, tcp): (usize, bool) = match find_first(all, '/') {
        Some(idx) => (idx + 1, is_tcp(slice_subrange(all, 0, idx))),
        None => (0, false),
    };
    let remainder: &[char] = slice_subrange(all, start, n);
    proof {
        assert(remainder@ =~= remainder_of(display@));
        if start > 0 {
            assert(all@.subrange(0, start - 1) =~= display@.take(start - 1));
        }
    }
    let host_len: usize = find_first(remainder, ':')?;
    let connection_type = if contains_double_colon(remainder) {
        X11ConnectionType::DECnet
    } else if host_len > 0 || tcp {
        X11ConnectionType::TCP
    } else {
        X11ConnectionType::Local
    };
    let last_colon: usize = find_last(remainder, ':')?;
    let server_screen: &[char] = slice_subrange(remainder, last_colon + 1, remainder.len());
    let screen_idx: Option<usize> = find_first(server_screen, '.');
    proof {
        let tail = remainder@.skip(last_colon + 1);
        assert(server_screen@ =~= tail);
        match screen_idx {
            Some(idx) => {
                assert(server_screen@.subrange(0, idx as int) =~= tail.take(idx as int));
                assert(server_screen@.subrange(idx + 1, server_screen@.len() as int) =~= tail.skip(
                    idx + 1,
                ));
            },
            None => {},
        }
    }
    // The server number must always be present.
    let server: Option<usize> = match screen_idx {
        Some(idx) => parse_usize(slice_subrange(server_screen, 0, idx)),
        None => parse_usize(server_screen),
    };
    // The screen number is optional.
    let screen: Option<usize> = match screen_idx {
        Some(idx) => parse_usize(slice_subrange(server_screen, idx + 1, server_screen.len())),
        None => Some(0),
    };
    let server_num: usize = server?;
    let screen_num: usize = screen?;
    let host_name: Option<String> = if host_len == 0 {
        None
    } else {
        let host: &str = display.substring_char(start, start + host_len);
        assert(host@ =~= remainder@.take(host_len as int));
        Some(host.to_owned())
    };
    Some(X11ConnectionDescriptor { connection_type, host_name, server_num, screen_num })
}

/// Reads a `DISPLAY` string that names a server number.
pub fn parse_x11_display(display: &str) -> (c: X11ConnectionDescriptor)
    requires
        parse_display_spec(display@) is Some,
    ensures
        Some(c@) == parse_display_spec(display@),
{
    try_parse_x11_display(display).unwrap()
}

} // verus!
