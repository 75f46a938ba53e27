//! The web server: where it listens, what its pages hold, and what it answers for the alarm system.

use vstd::prelude::*;
use vstd::string::*;

use crate::environment::{Environment, Setting};
use crate::text::{
    decimal, digits, lemma_written_is_read, read_unsigned, replace, replaced, unsigned_value,
    write_digits,
};
use crate::transport::{HttpReply, HttpView};

verus! {

/// What stands in the pages for the path that the server is mounted at.
pub const PLACEHOLDER: &'static str = "{{APP_CONTEXT_PATH}}";

pub const ALARM_STATUS_URL: &'static str = "http://192.168.178.11:8081/get_status";

/// The port that the server listens on: the one that is set where it is a port, and 8080 otherwise.
pub open spec fn port_of(env: &Environment) -> nat {
    match env.value(Setting::WebPort) {
        Some(s) => match unsigned_value(s@) {
            Some(n) if n <= 65_535 => n,
            _ => 8080,
        },
        None => 8080,
    }
}

/// Reads the port that the server listens on.
pub fn web_port(env: &Environment) -> (r: u16)
    ensures
        r == port_of(env),
{
    match env.get(Setting::WebPort) {
        Some(s) => match read_unsigned(s.as_str(), 65_535) {
            Ok(n) => n as u16,
            Err(_) => 8080,
        },
        None => 8080,
    }
}

/// The address that the server listens on.
pub open spec fn listen_text(port: u16) -> Seq<char> {
    "0.0.0.0:"@ + digits(port as nat, 10)
}

/// Writes the address that the server listens on.
pub fn listen_address(port: u16) -> (r: String)
    ensures
        r@ == listen_text(port),
{
    "0.0.0.0:".to_owned().concat(write_digits(port as u64, 10).as_str())
}

/// A path with a slash in front, unless it is empty.
pub open spec fn rooted(path: Seq<char>) -> Seq<char> {
    if path.len() > 0 && path[0] != '/' {
        "/"@ + path
    } else {
        path
    }
}

/// A path without a slash at its end.
pub open spec fn without_slash(path: Seq<char>) -> Seq<char> {
    if path.len() > 0 && path.last() == '/' {
        path.drop_last()
    } else {
        path
    }
}

/// The path that the server is mounted at, as it is used: with a slash in front and without one at
/// its end, or empty.
pub open spec fn mount_path(path: Seq<char>) -> Seq<char> {
    without_slash(rooted(path))
}

/// The path that is used is empty or begins with a slash.
pub proof fn lemma_mount_path_is_rooted(path: Seq<char>)
    ensures
        mount_path(path).len() > 0 ==> mount_path(path)[0] == '/',
{
    reveal_strlit("/");
}

/// The path that is used ends in a slash only where the path that is set ends in two.
pub proof fn lemma_mount_path_end(path: Seq<char>)
    requires
        !(path.len() >= 2 && path[path.len() - 1] == '/' && path[path.len() - 2] == '/'),
    ensures
        mount_path(path).len() > 0 ==> mount_path(path).last() != '/',
{
    reveal_strlit("/");
}

/// Brings the path that the server is mounted at into the form that is used.
pub fn context_path(env: &Environment) -> (r: String)
    ensures
        r@ == mount_path(env.text_or(Setting::AppContextPath, ""@)),
{
    let set: String = env.get_or(Setting::AppContextPath, "");
    let n: usize = set.as_str().unicode_len();
    let path: String = if n > 0 && set.as_str().get_char(0) != '/' {
        "/".to_owned().concat(set.as_str())
    } else {
        set
    };
    let m: usize = path.as_str().unicode_len();
    if m > 0 && path.as_str().get_char(m - 1) == '/' {
        let shorter: String = path.as_str().substring_char(0, m - 1).to_owned();
        assert(shorter@ == path@.drop_last());
        shorter
    } else {
        path
    }
}

/// Fills the path into a page.
pub fn fill_page(page: &str, path: &str) -> (r: String)
    ensures
        r@ == replaced(page@, PLACEHOLDER@, path@),
        r@ == replaced(page@, "{{APP_CONTEXT_PATH}}"@, path@),
{
    proof {
        reveal_strlit("{{APP_CONTEXT_PATH}}");
    }
    replace(page, PLACEHOLDER, path)
}

/// What the alarm system answered.
#[derive(Debug)]
pub enum AlarmReply {
    Unreachable,
    Unreadable,
    Text(String),
}

impl AlarmReply {
    /// What is passed on.
    pub open spec fn passed_on(&self) -> HttpView {
        match self {
            AlarmReply::Unreachable => HttpView {
                status: 502,
                body: "Error connecting to alarm system"@,
            },
            AlarmReply::Unreadable => HttpView { status: 500, body: "Error reading response"@ },
            AlarmReply::Text(text) => HttpView { status: 200, body: text@ },
        }
    }

    /// Passes the answer on.
    pub fn pass_on(self) -> (r: HttpReply)
        ensures
            r@ == self.passed_on(),
            self is Unreachable <==> r.status == 502,
            self is Unreadable <==> r.status == 500,
            self matches AlarmReply::Text(text) ==> r.status == 200 && r.body@ == text@,
    {
        match self {
            AlarmReply::Unreachable => HttpReply {
                status: 502,
                body: "Error connecting to alarm system".to_owned(),
            },
            AlarmReply::Unreadable => HttpReply {
                status: 500,
                body: "Error reading response".to_owned(),
            },
            AlarmReply::Text(text) => HttpReply { status: 200, body: text },
        }
    }
}

/// Writes the address that a code is sent to.
pub fn alarm_code_url(pin: &str) -> (r: String)
    ensures
        r@ == "http://192.168.178.11:8081/code/"@ + pin@,
{
    "http://192.168.178.11:8081/code/".to_owned().concat(pin)
}

/// A path is used with one slash in front and none behind, however it is set, and is not changed
/// otherwise.
pub proof fn lemma_mount_path_keeps(path: Seq<char>)
    requires
        path.len() > 0,
        path[0] != '/',
        path.last() != '/',
    ensures
        mount_path(path) == seq!['/'] + path,
        mount_path(seq!['/'] + path) == seq!['/'] + path,
        mount_path(path + seq!['/']) == seq!['/'] + path,
        mount_path(seq!['/'] + path + seq!['/']) == seq!['/'] + path,
        mount_path(seq![]) == Seq::<char>::empty(),
        mount_path(seq!['/']) == Seq::<char>::empty(),
{
    reveal_strlit("/");
    assert("/"@ =~= seq!['/']);
    let rooted_path = seq!['/'] + path;
    let closed_path = path + seq!['/'];
    let both = seq!['/'] + path + seq!['/'];
    assert(rooted_path.last() == path.last());
    assert(("/"@ + closed_path).drop_last() =~= rooted_path);
    assert(both.drop_last() =~= rooted_path);
    assert(closed_path[0] == path[0]);
    assert(seq!['/'].drop_last() =~= Seq::<char>::empty());
}

/// The port that is set is used where it is one, and 8080 where none is set or it cannot be a port.
pub proof fn lemma_port(env: &Environment, n: int)
    ensures
        env.value(Setting::WebPort) is None ==> port_of(env) == 8_080,
        0 <= n <= 65_535 ==> (env.value(Setting::WebPort) matches Some(s) ==> (s@ == decimal(n)
            ==> port_of(env) == n)),
        n < 0 || n > 65_535 ==> (env.value(Setting::WebPort) matches Some(s) ==> (s@ == decimal(n)
            ==> port_of(env) == 8_080)),
        Setting::WebPort.label() == "WEB_PORT"@,
        Setting::AppContextPath.label() == "APP_CONTEXT_PATH"@,
{
    lemma_written_is_read(n);
}

} // verus!
