//! The shadow display: which server number is free, where its socket lies,
//! and how the sockets of earlier runs are told from those still in use.

use crate::decimal::{
    chars_of, decimal_text, is_digit, lemma_decimal_text_value, lemma_parse_i32_of_signed_text,
    lemma_parse_usize_of_decimal_text, parse_i32, parse_i32_spec, parse_usize, parse_usize_spec,
    push_decimal, push_signed_decimal, signed_text,
};
use crate::display::{
    has_double_colon, parse_display_spec, remainder_of, X11ConnectionDescriptor,
    X11ConnectionDescriptorView, X11ConnectionType,
};
use vstd::prelude::*;
use vstd::slice::slice_subrange;
use vstd::string::{StrSliceExecFns, StringExecFns};

verus! {

/// The directory of the Unix-domain sockets of X servers. The socket of
/// display number n is the file `X`n in it.
pub const X11_SOCKET_DIR: &'static str = "/tmp/.X11-unix/";

/// The file in the user's home directory that lists the sockets made here,
/// one line `pid socket_path` for each.
pub const X11_SOCKET_LIST: &'static str = ".rustywin_sockets";

/// The path of the socket of display number `n`.
pub open spec fn socket_path_text(n: nat) -> Seq<char> {
    "/tmp/.X11-unix/"@ + "X"@ + decimal_text(n)
}

/// The `DISPLAY` string of the local display number `n`.
pub open spec fn display_text(n: nat) -> Seq<char> {
    ":"@ + decimal_text(n)
}

/// The names that one run of the proxy works with.
pub struct SocketConnection {
    client_display_name: String,
    client_socket_name: String,
    server_socket_name: String,
}

/// The names of a `SocketConnection` as sequences of characters.
pub struct SocketConnectionView {
    /// The `DISPLAY` string handed to clients.
    pub client_display_name: Seq<char>,
    /// The path of the shadow socket, on which clients are accepted.
    pub client_socket_name: Seq<char>,
    /// The path of the socket of the real X server.
    pub server_socket_name: Seq<char>,
}

impl View for SocketConnection {
    type V = SocketConnectionView;

    closed spec fn view(&self) -> SocketConnectionView {
        SocketConnectionView {
            client_display_name: self.client_display_name@,
            client_socket_name: self.client_socket_name@,
            server_socket_name: self.server_socket_name@,
        }
    }
}

impl SocketConnection {
    /// The `DISPLAY` string for clients of the shadow display.
    pub fn get_display(&self) -> (s: &str)
        ensures
            s@ == self@.client_display_name,
    {
        self.client_display_name.as_str()
    }

    /// The path at which the shadow socket listens.
    pub fn client_socket_name(&self) -> (s: &str)
        ensures
            s@ == self@.client_socket_name,
    {
        self.client_socket_name.as_str()
    }

    /// The path of the real X server's socket.
    pub fn server_socket_name(&self) -> (s: &str)
        ensures
            s@ == self@.server_socket_name,
    {
        self.server_socket_name.as_str()
    }
}

/// The highest of the numbers, or -1 where there is none.
pub open spec fn highest(servers: Seq<usize>) -> int
    decreases servers.len(),
{
    if servers.len() == 0 {
        -1
    } else if servers.last() > highest(servers.drop_last()) {
        servers.last() as int
    } else {
        highest(servers.drop_last())
    }
}

/// The server number to use next: one above the highest in use, and 0 where
/// none is in use.
pub open spec fn next_free_spec(servers: Seq<usize>) -> int {
    highest(servers) + 1
}

/// No number in use is above the highest, and the highest is one of them.
pub proof fn lemma_highest(servers: Seq<usize>)
    ensures
        forall|i: int| 0 <= i < servers.len() ==> #[trigger] servers[i] <= highest(servers),
        servers.len() > 0 ==> exists|i: int|
            0 <= i < servers.len() && #[trigger] servers[i] == highest(servers),
        servers.len() == 0 ==> highest(servers) == -1,
    decreases servers.len(),
{
    if servers.len() > 0 {
        let rest = servers.drop_last();
        lemma_highest(rest);
        assert forall|i: int| 0 <= i < servers.len() implies #[trigger] servers[i] <= highest(
            servers,
        ) by {
            if i < rest.len() {
                assert(rest[i] == servers[i]);
            }
        }
        if servers.last() > highest(rest) {
            assert(servers[servers.len() - 1] == highest(servers));
        } else {
            let i = choose|i: int| 0 <= i < rest.len() && #[trigger] rest[i] == highest(rest);
            assert(servers[i] == highest(servers));
        }
    }
}

/// The next server number is fresh: no server in use has it.
pub proof fn lemma_next_free_is_unused(servers: Seq<usize>)
    ensures
        next_free_spec(servers) >= 0,
        forall|i: int| 0 <= i < servers.len() ==> #[trigger] servers[i] != next_free_spec(servers),
{
    lemma_highest(servers);
}

/// The server number to use next, unless the highest one in use is the
/// largest number there is.
pub fn next_free_server(existing_servers: &[usize]) -> (r: Option<usize>)
    ensures
        r == if next_free_spec(existing_servers@) <= usize::MAX {
            Some(next_free_spec(existing_servers@) as usize)
        } else {
            None
        },
{
    let n: usize = existing_servers.len();
    let mut max: Option<usize> = None;
    let mut i: usize = 0;
    while i < n
        invariant
            i <= n,
            n == existing_servers@.len(),
            match max {
                Some(m) => m == highest(existing_servers@.take(i as int)),
                None => highest(existing_servers@.take(i as int)) == -1,
            },
        decreases n - i,
    {
        proof {
            assert(existing_servers@.take(i + 1).drop_last() =~= existing_servers@.take(i as int));
        }
        let idx: usize = existing_servers[i];
        max = match max {
            Some(m) => if idx > m {
                Some(idx)
            } else {
                Some(m)
            },
            None => Some(idx),
        };
        i = i + 1;
    }
    proof {
        assert(existing_servers@.take(n as int) =~= existing_servers@);
    }
    match max {
        // Next available from max
        Some(idx) => idx.checked_add(1),
        // Anything is free where no server was found.
        None => Some(0),
    }
}

/// The path of the socket of display number `n`.
fn socket_path(n: usize) -> (path: String)
    ensures
        path@ == socket_path_text(n as nat),
{
    let mut path: String = X11_SOCKET_DIR.to_owned();
    path.append("X");
    push_decimal(&mut path, n);
    path
}

/// Lays out the shadow display beside the servers that exist: it gets the
/// next free server number, and the connection to forward to is the socket of
/// the display that `x11_conn` names.
pub fn setup_unix_socket(
    x11_conn: &X11ConnectionDescriptor,
    existing_servers: &[usize],
) -> (c: SocketConnection)
    requires
        next_free_spec(existing_servers@) <= usize::MAX,
    ensures
        c@.client_display_name == display_text(next_free_spec(existing_servers@) as nat),
        c@.client_socket_name == socket_path_text(next_free_spec(existing_servers@) as nat),
        c@.server_socket_name == socket_path_text(x11_conn.server_num as nat),
{
    let real_server_num: usize = x11_conn.server_num();
    let free_server_num: usize = next_free_server(existing_servers).unwrap();
    proof {
        lemma_highest(existing_servers@);
    }
    let new_unix_socket_name: String = socket_path(free_server_num);
    // The DISPLAY for clients of the shadow socket.
    let mut client_display_name: String = ":".to_owned();
    push_decimal(&mut client_display_name, free_server_num);
    // The path of the socket of the real X server.
    let target_unix_socket_name: String = socket_path(real_server_num);
    SocketConnection {
        client_display_name,
        client_socket_name: new_unix_socket_name,
        server_socket_name: target_unix_socket_name,
    }
}

/// The server number in the name of a socket file: the name is `X` and then
/// the number.
pub open spec fn socket_server_num_spec(file_name: Seq<char>) -> Option<usize> {
    if file_name.len() > 0 && file_name[0] == 'X' {
        parse_usize_spec(file_name.skip(1))
    } else {
        None
    }
}

/// Reads the server number from the name of a socket file.
pub fn socket_server_num(file_name: &str) -> (r: Option<usize>)
    ensures
        r == socket_server_num_spec(file_name@),
{
    let chars: Vec<char> = chars_of(file_name);
    let name: &[char] = chars.as_slice();
    if name.len() == 0 || name[0] != 'X' {
        return None;
    }
    let screen_num: &[char] = slice_subrange(name, 1, name.len());
    assert(screen_num@ =~= file_name@.skip(1));
    parse_usize(screen_num)
}

/// The server numbers among the first `upto` file names, in their order.
pub open spec fn server_nums_spec(file_names: Seq<String>, upto: int) -> Seq<usize>
    decreases upto,
{
    if upto <= 0 {
        Seq::empty()
    } else {
        match socket_server_num_spec(file_names[upto - 1]@) {
            Some(n) => server_nums_spec(file_names, upto - 1).push(n),
            None => server_nums_spec(file_names, upto - 1),
        }
    }
}

/// The server numbers in use, from the names of the files in the socket
/// directory. Names that are not of the form `X`n are passed over.
pub fn enumerate_unix_x11_sockets(file_names: &Vec<String>) -> (existing_sockets: Vec<usize>)
    ensures
        existing_sockets@ == server_nums_spec(file_names@, file_names@.len() as int),
{
    let mut existing_sockets: Vec<usize> = Vec::new();
    let n: usize = file_names.len();
    let mut i: usize = 0;
    while i < n
        invariant
            i <= n,
            n == file_names@.len(),
            existing_sockets@ == server_nums_spec(file_names@, i as int),
        decreases n - i,
    {
        match socket_server_num(file_names[i].as_str()) {
            Some(screen_num) => {
                existing_sockets.push(screen_num);
            },
            None => {},
        }
        i = i + 1;
    }
    existing_sockets
}

/// White space, as Unicode has it.
pub open spec fn is_space(c: char) -> bool {
    let n = c as u32;
    ||| 0x09 <= n <= 0x0d
    ||| n == 0x20
    ||| n == 0x85
    ||| n == 0xa0
    ||| n == 0x1680
    ||| 0x2000 <= n <= 0x200a
    ||| n == 0x2028
    ||| n == 0x2029
    ||| n == 0x202f
    ||| n == 0x205f
    ||| n == 0x3000
}

/// Whether a character is white space.
pub fn is_whitespace(c: char) -> (b: bool)
    ensures
        b == is_space(c),
{
    let n: u32 = c as u32;
    (0x09 <= n && n <= 0x0d) || n == 0x20 || n == 0x85 || n == 0xa0 || n == 0x1680 || (0x2000 <= n
        && n <= 0x200a) || n == 0x2028 || n == 0x2029 || n == 0x202f || n == 0x205f || n == 0x3000
}

/// Where the run of white space that starts at `from` ends.
pub open spec fn spaces_end(s: Seq<char>, from: int) -> int
    decreases s.len() - from,
{
    if 0 <= from < s.len() && is_space(s[from]) {
        spaces_end(s, from + 1)
    } else {
        from
    }
}

/// Where the run of other characters that starts at `from` ends.
pub open spec fn word_end(s: Seq<char>, from: int) -> int
    decreases s.len() - from,
{
    if 0 <= from < s.len() && !is_space(s[from]) {
        word_end(s, from + 1)
    } else {
        from
    }
}

/// The first two fields of a line: runs of characters that white space
/// surrounds. A line of fewer than two fields has none.
pub open spec fn first_two_fields(line: Seq<char>) -> Option<(Seq<char>, Seq<char>)> {
    let a = spaces_end(line, 0);
    let b = word_end(line, a);
    let c = spaces_end(line, b);
    let d = word_end(line, c);
    if a < b && c < d {
        Some((line.subrange(a, b), line.subrange(c, d)))
    } else {
        None
    }
}

/// Passes over the white space that starts at `from`.
fn skip_spaces(s: &[char], from: usize) -> (to: usize)
    requires
        from <= s@.len(),
    ensures
        to == spaces_end(s@, from as int),
        from <= to <= s@.len(),
{
    let n: usize = s.len();
    let mut i: usize = from;
    while i < n && is_whitespace(s[i])
        invariant
            from <= i <= n,
            n == s@.len(),
            spaces_end(s@, from as int) == spaces_end(s@, i as int),
        decreases n - i,
    {
        i = i + 1;
    }
    i
}

/// Passes over the field that starts at `from`.
fn skip_word(s: &[char], from: usize) -> (to: usize)
    requires
        from <= s@.len(),
    ensures
        to == word_end(s@, from as int),
        from <= to <= s@.len(),
{
    let n: usize = s.len();
    let mut i: usize = from;
    while i < n && !is_whitespace(s[i])
        invariant
            from <= i <= n,
            n == s@.len(),
            word_end(s@, from as int) == word_end(s@, i as int),
        decreases n - i,
    {
        i = i + 1;
    }
    i
}

/// What one line of the list of sockets says.
#[derive(Clone, Debug, PartialEq, Eq)]
pub enum RegistryLine {
    /// A process and the socket that it made.
    Entry { pid: i32, socket_path: String },
    /// The first field is no process id.
    UnreadablePid,
    /// The line has fewer than two fields.
    Truncated,
}

/// Reads one line of the list of sockets: a process id, white space, and the
/// path of a socket. What follows the path is ignored.
pub fn parse_registry_line(line: &str) -> (r: RegistryLine)
    ensures
        match first_two_fields(line@) {
            None => r is Truncated,
            Some((pid_text, path_text)) => match parse_i32_spec(pid_text) {
                None => r is UnreadablePid,
                Some(p) => r matches RegistryLine::Entry { pid, socket_path } && pid == p
                    && socket_path@ == path_text,
            },
        },
{
    let chars: Vec<char> = chars_of(line);
    let s: &[char] = chars.as_slice();
    let pid_start: usize = skip_spaces(s, 0);
    let pid_end: usize = skip_word(s, pid_start);
    let path_start: usize = skip_spaces(s, pid_end);
    let path_end: usize = skip_word(s, path_start);
    if pid_start == pid_end || path_start == path_end {
        return RegistryLine::Truncated;
    }
    match parse_i32(slice_subrange(s, pid_start, pid_end)) {
        Some(pid) => {
            let socket_path: String = line.substring_char(path_start, path_end).to_owned();
            RegistryLine::Entry { pid, socket_path }
        },
        None => RegistryLine::UnreadablePid,
    }
}

/// The line that records that process `pid` made the socket at `filename`.
pub open spec fn registry_record_text(pid: i32, filename: Seq<char>) -> Seq<char> {
    signed_text(pid as int) + " "@ + filename
}

/// Writes the line, without its line end, that records that process `pid`
/// made the socket at `filename`.
pub fn registry_record(pid: i32, filename: &str) -> (line: String)
    ensures
        line@ == registry_record_text(pid, filename@),
{
    let mut line: String = String::new();
    push_signed_decimal(&mut line, pid);
    line.append(" ");
    line.append(filename);
    proof {
        assert(line@ =~= registry_record_text(pid, filename@));
    }
    line
}

/// What became of an attempt to remove a socket file.
#[derive(Clone, Copy, Debug, PartialEq, Eq, Structural)]
pub enum UnlinkOutcome {
    /// The file is gone now.
    Removed,
    /// There was no such file.
    NotFound,
    /// The file could not be removed.
    Failed,
}

/// What to do with a line once its process was probed.
#[derive(Clone, Copy, Debug, PartialEq, Eq, Structural)]
pub enum ProbeStep {
    /// The process lives: the line stays and the socket is left alone.
    KeepLine,
    /// The process is gone: its socket is to be removed.
    Unlink,
}

/// Decides on a line from what sending the null signal to its process
/// returned: 0 means that the process is alive.
pub fn after_probe(kill_result: i32) -> (step: ProbeStep)
    ensures
        step == if kill_result == 0 {
            ProbeStep::KeepLine
        } else {
            ProbeStep::Unlink
        },
{
    if kill_result == 0 {
        ProbeStep::KeepLine
    } else {
        ProbeStep::Unlink
    }
}

/// Whether the line of a dead process stays in the list: only where its
/// socket is still there because it could not be removed.
pub fn keep_after_unlink(outcome: UnlinkOutcome) -> (keep: bool)
    ensures
        keep == (outcome == UnlinkOutcome::Failed),
{
    match outcome {
        UnlinkOutcome::Removed => false,
        UnlinkOutcome::NotFound => false,
        UnlinkOutcome::Failed => true,
    }
}

/// A run of characters that are not white space, with white space or the
/// end of the line behind it, is passed over as one field.
proof fn lemma_word_run(s: Seq<char>, from: int, to: int)
    requires
        0 <= from <= to <= s.len(),
        forall|j: int| from <= j < to ==> !is_space(#[trigger] s[j]),
        to == s.len() || is_space(s[to]),
    ensures
        word_end(s, from) == to,
    decreases to - from,
{
    if from < to {
        lemma_word_run(s, from + 1, to);
    }
}

/// No character of a signed decimal text is white space, and there is at
/// least one.
proof fn lemma_signed_text_has_no_space(n: int)
    ensures
        signed_text(n).len() > 0,
        forall|j: int| 0 <= j < signed_text(n).len() ==> !is_space(#[trigger] signed_text(n)[j]),
{
    let t = signed_text(n);
    if n < 0 {
        let digits = decimal_text((-n) as nat);
        lemma_decimal_text_value((-n) as nat);
        assert forall|j: int| 0 <= j < t.len() implies !is_space(#[trigger] t[j]) by {
            if j > 0 {
                assert(t[j] == digits[j - 1]);
                assert(is_digit(digits[j - 1]));
            }
        }
    } else {
        lemma_decimal_text_value(n as nat);
        assert forall|j: int| 0 <= j < t.len() implies !is_space(#[trigger] t[j]) by {
            assert(is_digit(t[j]));
        }
    }
}

/// A recorded line reads back as the process id and the path that were
/// recorded, as long as the path is not empty and holds no white space.
pub proof fn lemma_registry_record_reads_back(pid: i32, filename: Seq<char>)
    requires
        filename.len() > 0,
        forall|j: int| 0 <= j < filename.len() ==> !is_space(#[trigger] filename[j]),
    ensures
        first_two_fields(registry_record_text(pid, filename)) == Some(
            (signed_text(pid as int), filename),
        ),
        parse_i32_spec(signed_text(pid as int)) == Some(pid),
{
    reveal_strlit(" ");
    let number = signed_text(pid as int);
    let line = registry_record_text(pid, filename);
    let n = number.len() as int;
    lemma_signed_text_has_no_space(pid as int);
    lemma_parse_i32_of_signed_text(pid);
    assert(" "@ =~= seq![' ']);
    assert(line.len() == n + 1 + filename.len());
    assert forall|j: int| 0 <= j < n implies !is_space(#[trigger] line[j]) by {
        assert(line[j] == number[j]);
    }
    assert(line[n] == ' ');
    assert forall|j: int| n + 1 <= j < line.len() implies !is_space(#[trigger] line[j]) by {
        assert(line[j] == filename[j - n - 1]);
    }
    assert(spaces_end(line, 0) == 0);
    lemma_word_run(line, 0, n);
    assert(spaces_end(line, n + 1) == n + 1);
    assert(spaces_end(line, n) == n + 1);
    lemma_word_run(line, n + 1, line.len() as int);
    assert(line.subrange(0, n) =~= number);
    assert(line.subrange(n + 1, line.len() as int) =~= filename);
}

/// The file name of the socket of display number `n`, read as a socket file,
/// gives `n`.
pub proof fn lemma_socket_file_name_reads_back(n: usize)
    ensures
        socket_server_num_spec("X"@ + decimal_text(n as nat)) == Some(n),
{
    reveal_strlit("X");
    let name = "X"@ + decimal_text(n as nat);
    lemma_parse_usize_of_decimal_text(n);
    assert(name.skip(1) =~= decimal_text(n as nat));
}

/// The `DISPLAY` string of the shadow display is a local one: it names no
/// host, the display number that was picked, and screen 0.
pub proof fn lemma_shadow_display_is_local(n: usize)
    ensures
        parse_display_spec(display_text(n as nat)) == Some(
            X11ConnectionDescriptorView {
                connection_type: X11ConnectionType::Local,
                host_name: None,
                server_num: n,
                screen_num: 0,
            },
        ),
{
    reveal_strlit(":");
    let digits = decimal_text(n as nat);
    let d = display_text(n as nat);
    lemma_decimal_text_value(n as nat);
    lemma_parse_usize_of_decimal_text(n);
    assert(d.len() == 1 + digits.len());
    assert(d[0] == ':');
    assert forall|j: int| 1 <= j < d.len() implies is_digit(#[trigger] d[j]) by {
        assert(d[j] == digits[j - 1]);
    }
    d.index_of_first_ensures('/');
    assert(!d.contains('/')) by {
        if d.contains('/') {
            let j = choose|j: int| 0 <= j < d.len() && d[j] == '/';
            assert(j == 0 || is_digit(d[j]));
        }
    }
    assert(remainder_of(d) == d);
    assert(d.contains(':'));
    d.index_of_first_ensures(':');
    d.index_of_last_ensures(':');
    let first = d.index_of_first(':').unwrap();
    let last = d.index_of_last(':').unwrap();
    assert(first == 0);
    assert(last == 0) by {
        assert(last == 0 || is_digit(d[last]));
    }
    let tail = d.skip(1);
    assert(tail =~= digits);
    tail.index_of_first_ensures('.');
    assert(!tail.contains('.')) by {
        if tail.contains('.') {
            let j = choose|j: int| 0 <= j < tail.len() && tail[j] == '.';
            assert(is_digit(tail[j]));
        }
    }
    assert(!has_double_colon(d)) by {
        if has_double_colon(d) {
            let j = choose|j: int| 0 <= j && j + 1 < d.len() && #[trigger] d[j] == ':' && d[j + 1]
                == ':';
            assert(is_digit(d[j + 1]));
        }
    }
    assert(d.take(0).len() == 0);
}

} // verus!
