//! The text that the OCI runtime exchanges with the container engine: the
//! arguments of `docker run`, the names it chooses, the port that `docker
//! port` reports, and the messages of failed engine commands.
use vstd::prelude::*;

use crate::protocol::DEFAULT_AGENT_PORT;
use crate::session::{chars_from, last_index_of, lines_of, rfind_char, split_lines, trim, trim_chars};
use crate::text::{
    chars_of, decimal, owned, push_text, texts, parse_unsigned, parse_unsigned_chars, push_char, push_decimal,
    push_str, string_from_chars, lossy_utf8, utf8_lossy,
};

verus! {

broadcast use vstd::string::group_string_axioms;

/// Longest engine error message kept, in characters.
pub const MAX_MESSAGE_CHARS: usize = 2000;

/// `s` without the `c` characters that start it (`str::trim_start_matches`).
pub open spec fn trim_leading(s: Seq<char>, c: char) -> Seq<char>
    decreases s.len(),
{
    if s.len() > 0 && s[0] == c {
        trim_leading(s.drop_first(), c)
    } else {
        s
    }
}

/// The path of the X11 socket of display `display_name` (`:42` gives
/// `/tmp/.X11-unix/X42`): the only part of the host that a container sees.
pub fn x11_socket_path(display_name: &str) -> (path: String)
    ensures
        path@ == "/tmp/.X11-unix/X"@ + trim_leading(display_name@, ':'),
{
    let chars = chars_of(display_name);
    let mut start: usize = 0;
    assert(chars@.skip(0) =~= chars@);
    while start < chars.len() && chars[start] == ':'
        invariant
            start <= chars@.len(),
            trim_leading(chars@, ':') == trim_leading(chars@.skip(start as int), ':'),
        decreases chars.len() - start,
    {
        assert(chars@.skip(start as int).drop_first() =~= chars@.skip(start + 1));
        start = start + 1;
    }
    let rest = chars_from(&chars, start);
    assert(trim_leading(rest@, ':') == rest@);
    let mut path = owned("/tmp/.X11-unix/X");
    push_str(&mut path, string_from_chars(rest.as_slice()).as_str());
    path
}

/// The port of one line of `docker port`: the number after the last `:` of
/// the trimmed line (`127.0.0.1:49153`, `[::1]:49154`).
pub open spec fn line_port(line: Seq<char>) -> Option<nat> {
    let t = trim(line);
    match last_index_of(t, ':') {
        None => None,
        Some(colon) => parse_unsigned(t.skip(colon + 1), u16::MAX as nat),
    }
}

/// The first line that names a port.
pub open spec fn first_port(lines: Seq<Seq<char>>) -> Option<nat>
    decreases lines.len(),
{
    if lines.len() == 0 {
        None
    } else {
        match line_port(lines[0]) {
            Some(port) => Some(port),
            None => first_port(lines.drop_first()),
        }
    }
}

fn line_port_exec(line: &Vec<char>) -> (port: Option<u16>)
    ensures
        match port {
            Some(p) => line_port(line@) == Some(p as nat),
            None => line_port(line@) is None,
        },
{
    let t = trim_chars(line);
    match rfind_char(&t, ':') {
        None => None,
        Some(colon) => {
            let digits = chars_from(&t, colon + 1);
            match parse_unsigned_chars(&digits, 0xffff) {
                Some(v) => Some(v as u16),
                None => None,
            }
        },
    }
}

/// The host port that `docker port` reports, from its output.
pub fn parse_published_port(value: &str) -> (port: Option<u16>)
    ensures
        match port {
            Some(p) => first_port(lines_of(value@)) == Some(p as nat),
            None => first_port(lines_of(value@)) is None,
        },
{
    let chars = chars_of(value);
    let lines = split_lines(&chars);
    let ghost all = lines.deep_view();
    assert(all.skip(0) =~= all);
    let mut k: usize = 0;
    while k < lines.len()
        invariant
            k <= lines@.len(),
            all == lines.deep_view(),
            all == lines_of(chars@),
            chars@ == value@,
            first_port(all) == first_port(all.skip(k as int)),
        decreases lines.len() - k,
    {
        assert(all.skip(k as int)[0] == lines@[k as int]@);
        match line_port_exec(&lines[k]) {
            Some(p) => {
                return Some(p);
            },
            None => {
                assert(all.skip(k as int).drop_first() =~= all.skip(k + 1));
            },
        }
        k = k + 1;
    }
    assert(all.skip(k as int) =~= Seq::<Seq<char>>::empty());
    None
}

/// The message of a failed engine command, from its standard error: the
/// trimmed text, at most 2000 characters of it, or a fixed text when empty.
pub open spec fn command_message(stderr: Seq<u8>) -> Seq<char> {
    let text = trim(lossy_utf8(stderr));
    if text.len() == 0 {
        "command failed without an error message"@
    } else if text.len() > MAX_MESSAGE_CHARS {
        text.take(MAX_MESSAGE_CHARS as int)
    } else {
        text
    }
}

/// The message of a failed engine command.
pub fn output_message(stderr: &[u8]) -> (message: String)
    ensures
        message@ == command_message(stderr@),
{
    let text = utf8_lossy(stderr);
    let chars = chars_of(text.as_str());
    let trimmed = trim_chars(&chars);
    if trimmed.len() == 0 {
        return owned("command failed without an error message");
    }
    let mut kept: Vec<char> = Vec::new();
    let limit = if trimmed.len() > MAX_MESSAGE_CHARS {
        MAX_MESSAGE_CHARS
    } else {
        trimmed.len()
    };
    let mut i: usize = 0;
    while i < limit
        invariant
            i <= limit <= trimmed@.len(),
            kept@ == trimmed@.take(i as int),
        decreases limit - i,
    {
        kept.push(trimmed[i]);
        i = i + 1;
        assert(trimmed@.take(i as int) =~= trimmed@.take(i - 1).push(trimmed@[i - 1]));
    }
    if limit == trimmed.len() {
        assert(trimmed@.take(limit as int) =~= trimmed@);
    }
    string_from_chars(kept.as_slice())
}

/// The container name for the `sequence`-th container of process `pid`.
pub fn container_name_for(pid: u32, sequence: u64) -> (name: String)
    ensures
        name@ == "microbox-"@ + decimal(pid as nat) + "-"@ + decimal(sequence as nat),
{
    let mut name = owned("microbox-");
    push_decimal(&mut name, pid as u64);
    push_str(&mut name, "-");
    push_decimal(&mut name, sequence);
    name
}

/// The loopback endpoint of a published port.
pub fn loopback_endpoint(port: u16) -> (endpoint: String)
    ensures
        endpoint@ == "127.0.0.1:"@ + decimal(port as nat),
{
    let mut endpoint = owned("127.0.0.1:");
    push_decimal(&mut endpoint, port as u64);
    endpoint
}

/// The arguments of `docker port` that ask for the agent's published port.
pub fn port_query_arguments(name: &str) -> (arguments: Vec<String>)
    ensures
        texts(arguments@) == seq!["port"@, name@, decimal(DEFAULT_AGENT_PORT as nat) + "/tcp"@],
{
    let mut arguments: Vec<String> = Vec::new();
    push_text(&mut arguments, owned("port"));
    push_text(&mut arguments, owned(name));
    let mut port = String::new();
    push_decimal(&mut port, DEFAULT_AGENT_PORT as u64);
    push_str(&mut port, "/tcp");
    push_text(&mut arguments, port);
    assert(texts(arguments@) =~= seq!["port"@, name@, decimal(DEFAULT_AGENT_PORT as nat) + "/tcp"@]);
    arguments
}

/// Why the agent's port could not be resolved, from the last message seen.
pub fn port_failure_message(last_message: String) -> (message: String)
    ensures
        last_message@.len() == 0 ==> message@ == "Docker did not publish the guest agent port"@,
        last_message@.len() > 0 ==> message@ == last_message@,
{
    if last_message.as_str().unicode_len() == 0 {
        owned("Docker did not publish the guest agent port")
    } else {
        last_message
    }
}

/// The arguments of `docker run` that start an agent image detached, with
/// the token in its environment and the agent port published on loopback
/// only; `--` follows when the application has arguments of its own.
pub fn agent_run_arguments(name: &str, token: &str, image: &str, has_arguments: bool) -> (arguments:
    Vec<String>)
    ensures
        texts(arguments@) == seq![
            "run"@,
            "--detach"@,
            "--rm"@,
            "--name"@,
            name@,
            "--env"@,
            "MICROBOX_AGENT_TOKEN="@ + token@,
            "--publish"@,
            "127.0.0.1::"@ + decimal(DEFAULT_AGENT_PORT as nat),
            "--security-opt"@,
            "no-new-privileges"@,
            image@,
        ] + if has_arguments {
            seq!["--"@]
        } else {
            Seq::<Seq<char>>::empty()
        },
{
    let mut arguments: Vec<String> = Vec::new();
    push_text(&mut arguments, owned("run"));
    push_text(&mut arguments, owned("--detach"));
    push_text(&mut arguments, owned("--rm"));
    push_text(&mut arguments, owned("--name"));
    push_text(&mut arguments, owned(name));
    push_text(&mut arguments, owned("--env"));
    let mut env = owned("MICROBOX_AGENT_TOKEN=");
    push_str(&mut env, token);
    push_text(&mut arguments, env);
    push_text(&mut arguments, owned("--publish"));
    let mut publish = owned("127.0.0.1::");
    push_decimal(&mut publish, DEFAULT_AGENT_PORT as u64);
    push_text(&mut arguments, publish);
    push_text(&mut arguments, owned("--security-opt"));
    push_text(&mut arguments, owned("no-new-privileges"));
    push_text(&mut arguments, owned(image));
    if has_arguments {
        push_text(&mut arguments, owned("--"));
    }
    proof {
        let fixed = seq![
            "run"@,
            "--detach"@,
            "--rm"@,
            "--name"@,
            name@,
            "--env"@,
            "MICROBOX_AGENT_TOKEN="@ + token@,
            "--publish"@,
            "127.0.0.1::"@ + decimal(DEFAULT_AGENT_PORT as nat),
            "--security-opt"@,
            "no-new-privileges"@,
            image@,
        ];
        if has_arguments {
            assert(texts(arguments@) =~= fixed + seq!["--"@]);
        } else {
            assert(texts(arguments@) =~= fixed + Seq::<Seq<char>>::empty());
        }
    }
    arguments
}

/// The arguments of `docker run` that start an image on the host's private
/// X11 display: only that display's socket is mounted, and privileges
/// cannot grow.
pub fn display_run_arguments(name: &str, display_name: &str, image: &str) -> (arguments: Vec<
    String,
>)
    ensures
        texts(arguments@) == seq![
            "run"@,
            "--rm"@,
            "--name"@,
            name@,
            "--env"@,
            "DISPLAY="@ + display_name@,
            "--env"@,
            "GDK_BACKEND=x11"@,
            "--volume"@,
            "/tmp/.X11-unix/X"@ + trim_leading(display_name@, ':') + ":"@ + "/tmp/.X11-unix/X"@
                + trim_leading(display_name@, ':') + ":rw"@,
            "--security-opt"@,
            "no-new-privileges"@,
            image@,
        ],
{
    let socket = x11_socket_path(display_name);
    let mut arguments: Vec<String> = Vec::new();
    push_text(&mut arguments, owned("run"));
    push_text(&mut arguments, owned("--rm"));
    push_text(&mut arguments, owned("--name"));
    push_text(&mut arguments, owned(name));
    push_text(&mut arguments, owned("--env"));
    let mut display = owned("DISPLAY=");
    push_str(&mut display, display_name);
    push_text(&mut arguments, display);
    push_text(&mut arguments, owned("--env"));
    push_text(&mut arguments, owned("GDK_BACKEND=x11"));
    push_text(&mut arguments, owned("--volume"));
    let mut volume = owned(socket.as_str());
    push_str(&mut volume, ":");
    push_str(&mut volume, socket.as_str());
    push_str(&mut volume, ":rw");
    assert(volume@ =~= "/tmp/.X11-unix/X"@ + trim_leading(display_name@, ':') + ":"@
        + "/tmp/.X11-unix/X"@ + trim_leading(display_name@, ':') + ":rw"@);
    push_text(&mut arguments, volume);
    push_text(&mut arguments, owned("--security-opt"));
    push_text(&mut arguments, owned("no-new-privileges"));
    push_text(&mut arguments, owned(image));
    assert(texts(arguments@) =~= seq![
        "run"@,
        "--rm"@,
        "--name"@,
        name@,
        "--env"@,
        "DISPLAY="@ + display_name@,
        "--env"@,
        "GDK_BACKEND=x11"@,
        "--volume"@,
        "/tmp/.X11-unix/X"@ + trim_leading(display_name@, ':') + ":"@ + "/tmp/.X11-unix/X"@
            + trim_leading(display_name@, ':') + ":rw"@,
        "--security-opt"@,
        "no-new-privileges"@,
        image@,
    ]);
    arguments
}

} // verus!
