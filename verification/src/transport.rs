//! The sessions that messages belong to, and what each message is acknowledged with.

use vstd::prelude::*;
use vstd::string::*;

use crate::json::{parse_json, parsed_json, Json};
use crate::mcp::{handle_jsonrpc, reply_to, state_seen, Reply};
use crate::moment::Moment;
use crate::prices::in_calendar_times;
use crate::state::AppState;
use crate::text::{digits, lemma_digits_differ, lemma_digits_have_no_dash, same, write_digits};

verus! {

/// A status code and a text.
#[derive(Debug)]
pub struct HttpReply {
    pub status: u16,
    pub body: String,
}

/// A status code and the contents of a text.
pub struct HttpView {
    pub status: u16,
    pub body: Seq<char>,
}

impl View for HttpReply {
    type V = HttpView;

    open spec fn view(&self) -> HttpView {
        HttpView { status: self.status, body: self.body@ }
    }
}

/// What becomes of a message: it is refused, or it is taken and its reply, if any, is to be
/// delivered.
#[derive(Debug)]
pub enum Received {
    Refused(HttpReply),
    Taken(Option<Reply>),
}

/// How the delivery of a reply went.
#[derive(Clone, Copy, Debug, PartialEq, Eq, Structural)]
pub enum Delivery {
    /// There was nothing to deliver.
    Nothing,
    Delivered,
    /// The session is not known.
    UnknownSession,
    /// The session's stream is gone.
    Closed,
}

/// Nanoseconds since 1970-01-01 where 64 bits hold them, and 0 elsewhere.
pub open spec fn nanos_of(now: Moment) -> i64 {
    if i64::MIN <= now.since_epoch() <= i64::MAX {
        now.since_epoch() as i64
    } else {
        0
    }
}

/// A 64-bit integer in two's complement.
pub open spec fn unsigned_bits(n: i64) -> nat {
    if n < 0 {
        (n + 0x1_0000_0000_0000_0000) as nat
    } else {
        n as nat
    }
}

/// The name of the session that is opened as number `seq` at `now`.
pub open spec fn session_name(now: Moment, seq: u64) -> Seq<char> {
    digits(unsigned_bits(nanos_of(now)), 16) + "-"@ + digits(seq as nat, 16)
}

/// Sessions with different numbers have different names, whenever they are opened.
pub proof fn lemma_session_names_differ(a: Moment, m: u64, b: Moment, n: u64)
    requires
        m != n,
    ensures
        session_name(a, m) != session_name(b, n),
{
    let x = digits(unsigned_bits(nanos_of(a)), 16);
    let y = digits(unsigned_bits(nanos_of(b)), 16);
    let p = digits(m as nat, 16);
    let q = digits(n as nat, 16);
    lemma_digits_have_no_dash(unsigned_bits(nanos_of(a)), 16);
    lemma_digits_have_no_dash(unsigned_bits(nanos_of(b)), 16);
    reveal_strlit("-");
    let s = session_name(a, m);
    let t = session_name(b, n);
    if s == t {
        assert(s[x.len() as int] == '-');
        assert(t[y.len() as int] == '-');
        if x.len() < y.len() {
            assert(t[x.len() as int] == y[x.len() as int]);
        }
        if y.len() < x.len() {
            assert(s[y.len() as int] == x[y.len() as int]);
        }
        assert(p == s.skip(x.len() as int + 1));
        assert(q == t.skip(y.len() as int + 1));
        lemma_digits_differ(m as nat, n as nat, 16);
    }
}

/// Names the session that is opened as number `seq` at `now`.
pub fn new_session_id(now: Moment, seq: u64) -> (r: String)
    ensures
        r@ == session_name(now, seq),
{
    let exact: i128 = now.nanos_since(Moment { secs: 0, nanos: 0 });
    let bits: u64 = if exact < -0x8000_0000_0000_0000 || exact > 0x7fff_ffff_ffff_ffff {
        0
    } else if exact < 0 {
        (exact + 0x1_0000_0000_0000_0000) as u64
    } else {
        exact as u64
    };
    write_digits(bits, 16).concat("-").concat(write_digits(seq, 16).as_str())
}

/// Where the messages of a session are to be sent, below the path that the server is mounted at.
pub open spec fn endpoint_of(base_path: Seq<char>, session: Seq<char>) -> Seq<char> {
    base_path + "/mcp/messages?sessionId="@ + session
}

/// Writes where the messages of a session are to be sent.
pub fn message_endpoint(base_path: &str, session: &str) -> (r: String)
    ensures
        r@ == endpoint_of(base_path@, session@),
        r@ == base_path@ + "/mcp/messages?sessionId="@ + session@,
{
    base_path.to_owned().concat("/mcp/messages?sessionId=").concat(session)
}

/// A session that has been opened, and where its messages are to be sent, which is what its client
/// is told first.
#[derive(Debug)]
pub struct Opened {
    pub session: String,
    pub endpoint: String,
}

/// The open sessions, each with what feeds its stream.
#[derive(Debug)]
pub struct Sessions<T> {
    /// How many sessions have ever been opened.
    count: u64,
    list: Vec<(String, T)>,
}

/// The position of a session in a list.
pub open spec fn is_at<T>(list: Seq<(String, T)>, session: Seq<char>, i: int) -> bool {
    0 <= i < list.len() && list[i].0@ == session
}

/// The session is in the list.
pub open spec fn is_listed<T>(list: Seq<(String, T)>, session: Seq<char>) -> bool {
    exists|i: int| is_at(list, session, i)
}

/// What feeds the stream of a session in the list.
pub open spec fn listed<T>(list: Seq<(String, T)>, session: Seq<char>) -> T {
    list[choose|i: int| is_at(list, session, i)].1
}

/// The session was opened as one of the first `count`.
pub open spec fn was_opened(session: Seq<char>, count: u64) -> bool {
    exists|at: Moment, n: u64| n < count && session == #[trigger] session_name(at, n)
}

/// A session that was opened stays so, however many more are: its name is not given again.
pub proof fn lemma_opened_stays(session: Seq<char>, count: u64, later: u64)
    requires
        was_opened(session, count),
        count <= later,
    ensures
        was_opened(session, later),
{
    let (at, n) = choose|at: Moment, n: u64|
        n < count && session == #[trigger] session_name(at, n);
    assert(n < later && session == session_name(at, n));
}

impl<T> View for Sessions<T> {
    type V = Map<Seq<char>, T>;

    closed spec fn view(&self) -> Map<Seq<char>, T> {
        Map::new(
            |session: Seq<char>| is_listed(self.list@, session),
            |session: Seq<char>| listed(self.list@, session),
        )
    }
}

impl<T> Sessions<T> {
    /// How many sessions have ever been opened.
    pub closed spec fn opened(&self) -> u64 {
        self.count
    }

    /// No session is listed twice, and all of them have been opened.
    pub closed spec fn wf(&self) -> bool {
        &&& forall|i: int, j: int|
            0 <= i < j < self.list@.len() ==> (#[trigger] self.list@[i]).0@ != (
            #[trigger] self.list@[j]).0@
        &&& forall|i: int|
            0 <= i < self.list@.len() ==> was_opened((#[trigger] self.list@[i]).0@, self.count)
    }

    /// No sessions.
    pub fn new() -> (r: Sessions<T>)
        ensures
            r.wf(),
            r@ == Map::<Seq<char>, T>::empty(),
            r.opened() == 0,
    {
        let r: Sessions<T> = Sessions { count: 0, list: Vec::new() };
        assert(r@ =~= Map::<Seq<char>, T>::empty());
        r
    }

    /// Whether there are numbers left for more sessions.
    pub fn has_room(&self) -> (r: bool)
        ensures
            r == (self.opened() < u64::MAX),
    {
        self.count < u64::MAX
    }

    /// Opens a session whose stream is fed by `feed`. Its name is that of no other session, be that
    /// open or not.
    pub fn open(&mut self, now: Moment, base_path: &str, feed: T) -> (r: Opened)
        requires
            old(self).wf(),
            old(self).opened() < u64::MAX,
        ensures
            final(self).wf(),
            final(self).opened() == old(self).opened() + 1,
            r.session@ == session_name(now, old(self).opened()),
            r.endpoint@ == endpoint_of(base_path@, r.session@),
            !was_opened(r.session@, old(self).opened()),
            was_opened(r.session@, final(self).opened()),
            !old(self)@.contains_key(r.session@),
            final(self)@ == old(self)@.insert(r.session@, feed),
    {
        let ghost before = *self;
        let session: String = new_session_id(now, self.count);
        let endpoint: String = message_endpoint(base_path, session.as_str());
        let key: String = session.as_str().to_owned();
        let ghost name = session@;
        proof {
            if was_opened(name, before.count) {
                let (at, n) = choose|at: Moment, n: u64|
                    n < before.count && name == #[trigger] session_name(at, n);
                lemma_session_names_differ(at, n, now, before.count);
            }
            assert forall|i: int| 0 <= i < before.list@.len() implies (
            #[trigger] before.list@[i]).0@ != name by {
                assert(was_opened(before.list@[i].0@, before.count));
            }
        }
        self.list.push((key, feed));
        self.count = self.count + 1;
        proof {
            let count = self.count;
            assert forall|i: int| 0 <= i < self.list@.len() implies was_opened(
                (#[trigger] self.list@[i]).0@,
                count,
            ) by {
                if i < before.list@.len() {
                    assert(was_opened(before.list@[i].0@, before.count));
                    let (at, n) = choose|at: Moment, n: u64|
                        n < before.count && before.list@[i].0@ == #[trigger] session_name(at, n);
                    assert(n < count && self.list@[i].0@ == session_name(at, n));
                } else {
                    assert(before.count < count && self.list@[i].0@ == session_name(
                        now,
                        before.count,
                    ));
                }
            }
            assert(self.wf());
            assert forall|x: Seq<char>| #[trigger] is_listed(self.list@, x) == (is_listed(
                before.list@,
                x,
            ) || x == name) by {
                if is_listed(before.list@, x) {
                    let i = choose|i: int| is_at(before.list@, x, i);
                    assert(is_at(self.list@, x, i));
                }
                if x == name {
                    assert(is_at(self.list@, x, before.list@.len() as int));
                }
                if is_listed(self.list@, x) && x != name {
                    let i = choose|i: int| is_at(self.list@, x, i);
                    assert(is_at(before.list@, x, i));
                }
            }
            assert forall|x: Seq<char>| is_listed(self.list@, x) implies #[trigger] listed(
                self.list@,
                x,
            ) == (if x == name {
                feed
            } else {
                listed(before.list@, x)
            }) by {
                let i = choose|i: int| is_at(self.list@, x, i);
                if x != name {
                    assert(is_at(before.list@, x, i));
                    let j = choose|j: int| is_at(before.list@, x, j);
                    assert(i == j);
                }
            }
            assert(self@ =~= before@.insert(name, feed));
        }
        Opened { session, endpoint }
    }

    /// The position of a session.
    fn position(&self, session: &str) -> (r: Option<usize>)
        requires
            self.wf(),
        ensures
            match r {
                Some(i) => is_at(self.list@, session@, i as int) && self@.contains_key(session@)
                    && self@[session@] == self.list@[i as int].1,
                None => !self@.contains_key(session@),
            },
    {
        let mut i: usize = 0;
        while i < self.list.len()
            invariant
                i <= self.list.len(),
                self.wf(),
                forall|j: int| 0 <= j < i ==> (#[trigger] self.list@[j]).0@ != session@,
            decreases self.list.len() - i,
        {
            if same(self.list[i].0.as_str(), session) {
                proof {
                    assert(is_at(self.list@, session@, i as int));
                    let j = choose|j: int| is_at(self.list@, session@, j);
                    assert(i == j);
                }
                return Some(i);
            }
            i = i + 1;
        }
        None
    }

    /// Finds what feeds the stream of a session.
    pub fn find(&self, session: &str) -> (r: Option<&T>)
        requires
            self.wf(),
        ensures
            r == (if self@.contains_key(session@) {
                Some(&self@[session@])
            } else {
                None
            }),
    {
        match self.position(session) {
            Some(i) => Some(&self.list[i].1),
            None => None,
        }
    }

    /// Notes how a reply was sent over the stream of a session: not at all where the session is not
    /// known, and else whether the stream took it. A session whose stream is gone is closed.
    pub fn note_sent(&mut self, session: &str, sent: Option<bool>) -> (r: Delivery)
        requires
            old(self).wf(),
        ensures
            final(self).wf(),
            final(self).opened() == old(self).opened(),
            r == (match sent {
                None => Delivery::UnknownSession,
                Some(true) => Delivery::Delivered,
                Some(false) => Delivery::Closed,
            }),
            final(self)@ == (if sent == Some(false) {
                old(self)@.remove(session@)
            } else {
                old(self)@
            }),
    {
        match sent {
            None => Delivery::UnknownSession,
            Some(true) => Delivery::Delivered,
            Some(false) => {
                self.close(session);
                Delivery::Closed
            },
        }
    }

    /// Closes a session, if it is open.
    fn close(&mut self, session: &str)
        requires
            old(self).wf(),
        ensures
            final(self).wf(),
            final(self).opened() == old(self).opened(),
            final(self)@ == old(self)@.remove(session@),
    {
        let ghost before = *self;
        match self.position(session) {
            Some(k) => {
                let _ = self.list.remove(k);
                proof {
                    let count = self.count;
                    assert(self.list@ == before.list@.remove(k as int));
                    assert forall|i: int| 0 <= i < self.list@.len() implies was_opened(
                        (#[trigger] self.list@[i]).0@,
                        count,
                    ) by {
                        let j = if i < k {
                            i
                        } else {
                            i + 1
                        };
                        assert(self.list@[i] == before.list@[j]);
                    }
                    assert forall|x: Seq<char>| #[trigger] is_listed(self.list@, x) == (is_listed(
                        before.list@,
                        x,
                    ) && x != session@) by {
                        if is_listed(self.list@, x) {
                            let i = choose|i: int| is_at(self.list@, x, i);
                            let j = if i < k {
                                i
                            } else {
                                i + 1
                            };
                            assert(is_at(before.list@, x, j));
                            assert(before.list@[j].0@ != before.list@[k as int].0@);
                        }
                        if is_listed(before.list@, x) && x != session@ {
                            let j = choose|j: int| is_at(before.list@, x, j);
                            let i = if j < k {
                                j
                            } else {
                                j - 1
                            };
                            assert(is_at(self.list@, x, i));
                        }
                    }
                    assert forall|x: Seq<char>| is_listed(self.list@, x) implies #[trigger] listed(
                        self.list@,
                        x,
                    ) == listed(before.list@, x) by {
                        let i = choose|i: int| is_at(self.list@, x, i);
                        let j = if i < k {
                            i
                        } else {
                            i + 1
                        };
                        assert(is_at(before.list@, x, j));
                        let m = choose|m: int| is_at(before.list@, x, m);
                        assert(m == j);
                    }
                    assert(self@ =~= before@.remove(session@));
                }
            },
            None => {
                assert(self@ =~= before@.remove(session@));
            },
        }
    }
}

/// Takes a message, which belongs to a session and has been read as JSON or could not be.
pub fn receive_message(
    session: Option<&str>,
    message: Result<&Json, &str>,
    snapshot: Option<&AppState>,
) -> (r: Received)
    requires
        snapshot matches Some(s) ==> in_calendar_times(s@.prices),
    ensures
        match (session, message) {
            (None, _) => r matches Received::Refused(h) && h@ == (HttpView {
                status: 400,
                body: "missing sessionId query parameter"@,
            }),
            (Some(_), Err(e)) => r matches Received::Refused(h) && h@ == (HttpView {
                status: 400,
                body: "invalid JSON: "@ + e@,
            }),
            (Some(_), Ok(request)) => r matches Received::Taken(reply) && reply_to(
                request@,
                state_seen(snapshot),
            ) == (match reply {
                Some(x) => Some(x@),
                None => None,
            }),
        },
{
    if session.is_none() {
        return Received::Refused(
            HttpReply { status: 400, body: "missing sessionId query parameter".to_owned() },
        );
    }
    match message {
        Err(e) => Received::Refused(
            HttpReply { status: 400, body: "invalid JSON: ".to_owned().concat(e) },
        ),
        Ok(request) => Received::Taken(handle_jsonrpc(request, snapshot)),
    }
}

/// Reads the body of a message and takes the message.
pub fn receive_body(session: Option<&str>, body: &str, snapshot: Option<&AppState>) -> (r: Received)
    requires
        snapshot matches Some(s) ==> in_calendar_times(s@.prices),
    ensures
        match (session, parsed_json(body@)) {
            (None, _) => r matches Received::Refused(h) && h@ == (HttpView {
                status: 400,
                body: "missing sessionId query parameter"@,
            }),
            (Some(_), Err(e)) => r matches Received::Refused(h) && h@ == (HttpView {
                status: 400,
                body: "invalid JSON: "@ + e,
            }),
            (Some(_), Ok(request)) => r matches Received::Taken(reply) && reply_to(
                request,
                state_seen(snapshot),
            ) == (match reply {
                Some(x) => Some(x@),
                None => None,
            }),
        },
{
    match parse_json(body) {
        Ok(json) => receive_message(session, Ok(&json), snapshot),
        Err(e) => receive_message(session, Err(e.as_str()), snapshot),
    }
}

/// What a message that was taken is acknowledged with.
pub open spec fn acknowledgement(delivery: Delivery) -> HttpView {
    match delivery {
        Delivery::Nothing => HttpView { status: 202, body: ""@ },
        Delivery::Delivered => HttpView { status: 202, body: ""@ },
        Delivery::UnknownSession => HttpView { status: 404, body: "unknown sessionId"@ },
        Delivery::Closed => HttpView { status: 410, body: "session stream closed"@ },
    }
}

/// Acknowledges a message that was taken.
pub fn acknowledge(delivery: Delivery) -> (r: HttpReply)
    ensures
        r@ == acknowledgement(delivery),
        r.status == 202 <==> delivery is Nothing || delivery is Delivered,
        r.status == 404 <==> delivery is UnknownSession,
        r.status == 410 <==> delivery is Closed,
        r.status == 202 ==> r.body@.len() == 0,
        delivery is UnknownSession ==> r.body@ == "unknown sessionId"@,
        delivery is Closed ==> r.body@ == "session stream closed"@,
{
    proof {
        reveal_strlit("");
    }
    match delivery {
        Delivery::Nothing => HttpReply { status: 202, body: "".to_owned() },
        Delivery::Delivered => HttpReply { status: 202, body: "".to_owned() },
        Delivery::UnknownSession => HttpReply { status: 404, body: "unknown sessionId".to_owned() },
        Delivery::Closed => HttpReply { status: 410, body: "session stream closed".to_owned() },
    }
}

/// A session is named by the nanoseconds since 1970-01-01 and by its number, both in base sixteen.
pub proof fn lemma_session_name(now: Moment, seq: u64)
    requires
        0 <= now.since_epoch() <= i64::MAX,
    ensures
        session_name(now, seq) == digits(now.since_epoch() as nat, 16) + "-"@ + digits(
            seq as nat,
            16,
        ),
{
}

} // verus!
