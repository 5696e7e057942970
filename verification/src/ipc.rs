//! The control channel: the capability set both backends implement, and
//! the production backend's wire protocol — one JSON object per line,
//! `{"action": ..., "param": ...}` outbound and `{"response": ...}`
//! inbound, in strict request/response alternation over one channel pair.

use vstd::prelude::*;
use crate::codec::{
    quoted, quote_string, parse_quoted, parse_quoted_at, str_to_chars, chars_to_string,
    dec_digits, u32_dec_chars,
};
use crate::error::Error;
use crate::flag::flag_text;
use crate::CheckerResult;

verus! {

/// The capability set of a backend. Selected once per process; there is
/// no fallback between the two implementing variants.
///
/// Two ghost models make a backend's effects visible through dispatch:
/// `store`, the data held for this run, and `results`, every outcome
/// reported so far. Each method fixes how it moves them; what a method
/// additionally promises of its result is the implementor's own `..._ens`
/// predicate, so a caller on a concrete backend sees that backend's exact
/// behaviour.
pub trait ControlInterface: Sized {
    /// The backend's own well-formedness, established at construction and
    /// kept across every call.
    spec fn inv(&self) -> bool;

    /// The data the backend holds for this run, key to serialized value.
    spec fn store(&self) -> Map<Seq<char>, Seq<char>>;

    /// Every outcome reported so far, in order.
    spec fn results(&self) -> Seq<CheckerResult>;

    /// What this backend additionally promises of one `get_flag` call.
    spec fn flag_ens(pre: Self, post: Self, tick: u32, payload: Seq<u8>, r: Result<
        String,
        Error,
    >) -> bool;

    /// What this backend additionally promises of one `store_data` call.
    spec fn store_ens(pre: Self, post: Self, key: Seq<char>, data: Seq<char>, r: Result<
        (),
        Error,
    >) -> bool;

    /// What this backend additionally promises of one `load_data` call.
    spec fn load_ens(pre: Self, post: Self, key: Seq<char>, r: Result<String, Error>) -> bool;

    /// What this backend additionally promises of one `send_log` call.
    spec fn log_ens(pre: Self, post: Self) -> bool;

    /// What this backend additionally promises of one `store_result` call.
    spec fn result_ens(pre: Self, post: Self, result: CheckerResult, r: Result<(), Error>) -> bool;

    /// Whether reporting an outcome on this backend cannot fail.
    spec fn reporting_infallible(&self) -> bool;

    /// Construction-time setup; both variants are immediately ready.
    fn setup() -> Result<(), Error>;

    /// Obtains the flag for this run's tick and the given payload.
    /// Neither the held data nor the reported outcomes change.
    fn get_flag(&mut self, tick: u32, payload: &Vec<u8>) -> (r: Result<String, Error>)
        requires
            old(self).inv(),
        ensures
            final(self).inv(),
            final(self).store() == old(self).store(),
            final(self).results() == old(self).results(),
            Self::flag_ens(*old(self), *final(self), tick, payload@, r),
    ;

    /// Persists an already-serialized value under a key: on success the
    /// held data gains exactly that binding, on failure it is unchanged.
    fn store_data(&mut self, key: &str, data: &str) -> (r: Result<(), Error>)
        requires
            old(self).inv(),
        ensures
            final(self).inv(),
            (r is Ok ==> final(self).store() == old(self).store().insert(key@, data@)),
            (r is Err ==> final(self).store() == old(self).store()),
            final(self).results() == old(self).results(),
            Self::store_ens(*old(self), *final(self), key@, data@, r),
    ;

    /// Retrieves the serialized value stored under a key; the held data
    /// and the reported outcomes are unchanged.
    fn load_data(&mut self, key: &str) -> (r: Result<String, Error>)
        requires
            old(self).inv(),
        ensures
            final(self).inv(),
            final(self).store() == old(self).store(),
            final(self).results() == old(self).results(),
            Self::load_ens(*old(self), *final(self), key@, r),
    ;

    /// Forwards one rendered log line; side-effecting, no result; never
    /// touches the held data or the reported outcomes.
    fn send_log(&mut self, message: &str)
        requires
            old(self).inv(),
        ensures
            final(self).inv(),
            final(self).store() == old(self).store(),
            final(self).results() == old(self).results(),
            Self::log_ens(*old(self), *final(self)),
    ;

    /// Reports one outcome of the run: on success the reported outcomes
    /// grow by exactly that outcome, on failure they are unchanged.
    fn store_result(&mut self, result: &CheckerResult) -> (r: Result<(), Error>)
        requires
            old(self).inv(),
        ensures
            final(self).inv(),
            final(self).store() == old(self).store(),
            (r is Ok ==> final(self).results() == old(self).results().push(*result)),
            (r is Err ==> final(self).results() == old(self).results()),
            old(self).reporting_infallible() ==> r is Ok,
            Self::result_ens(*old(self), *final(self), *result, r),
    ;
}

/// One pair of pre-opened byte channels to the controller, line-oriented.
/// The process inherits them already open; opening and closing are outside
/// this library's scope, and a hung channel blocks indefinitely.
///
/// Its ghost model: `sent`, every line written so far, and `inbound`, the
/// lines that remain to be read, next first.
pub trait Transport {
    /// Every line written so far, in order.
    spec fn sent(&self) -> Seq<Seq<char>>;

    /// The lines that remain to be read, next first.
    spec fn inbound(&self) -> Seq<Seq<char>>;

    /// Writes one request line: on success exactly that line is appended
    /// to the channel, on failure nothing is; nothing is ever read.
    fn write_line(&mut self, line: &str) -> (r: Result<(), Error>)
        ensures
            (r is Ok ==> final(self).sent() == old(self).sent().push(line@)),
            (r is Err ==> final(self).sent() == old(self).sent()),
            final(self).inbound() == old(self).inbound(),
    ;

    /// Blocks until one response line arrives; nothing is written. Where
    /// the pending lines are known (a scripted channel), a successful
    /// read consumes and returns exactly the next one; a channel that
    /// models no pending lines promises nothing of the line's content.
    fn read_line(&mut self) -> (r: Result<String, Error>)
        ensures
            final(self).sent() == old(self).sent(),
            (match r {
                Ok(l) => (old(self).inbound().len() > 0 ==> l@ == old(self).inbound()[0]
                    && final(self).inbound() == old(self).inbound().drop_first()) && (old(
                    self,
                ).inbound().len() == 0 ==> final(self).inbound().len() == 0),
                Err(_) => final(self).inbound() == old(self).inbound(),
            }),
    ;
}

/// The raw line calls of an inherited channel pair: the same operations
/// as `Transport`, with no model, so the process edge can provide them
/// from outside the verified world.
pub trait RawTransport {
    /// Writes one request line.
    fn write_raw(&mut self, line: &str) -> Result<(), Error>;

    /// Blocks until one response line arrives.
    fn read_raw(&mut self) -> Result<String, Error>;
}

/// Adapts a raw channel pair to the modelled `Transport`: the written
/// lines are recorded as the channel's history, and no pending inbound
/// lines are claimed, since a raw channel's future is unknowable here.
pub struct Channel<R: RawTransport> {
    pub raw: R,
    /// The lines successfully written so far.
    pub log: Ghost<Seq<Seq<char>>>,
}

impl<R: RawTransport> Channel<R> {
    /// Wraps a raw channel pair.
    pub fn new(raw: R) -> (r: Self)
        ensures
            r.sent() == Seq::<Seq<char>>::empty(),
    {
        Channel { raw, log: Ghost(Seq::empty()) }
    }
}

impl<R: RawTransport> Transport for Channel<R> {
    open spec fn sent(&self) -> Seq<Seq<char>> {
        self.log@
    }

    open spec fn inbound(&self) -> Seq<Seq<char>> {
        Seq::empty()
    }

    fn write_line(&mut self, line: &str) -> (r: Result<(), Error>) {
        let r = self.raw.write_raw(line);
        if r.is_ok() {
            self.log = Ghost(self.log@.push(line@));
        }
        r
    }

    fn read_line(&mut self) -> (r: Result<String, Error>) {
        self.raw.read_raw()
    }
}

// ---------------------------------------------------------------------------
// A scripted channel pair
// ---------------------------------------------------------------------------

/// The views of a sequence of strings.
pub open spec fn line_views(v: Seq<String>) -> Seq<Seq<char>> {
    v.map_values(|s: String| s@)
}

/// Length and pointwise content of `line_views`.
pub proof fn lemma_line_views_index(v: Seq<String>)
    ensures
        line_views(v).len() == v.len(),
        forall|a: int| 0 <= a < v.len() ==> #[trigger] line_views(v)[a] == v[a]@,
{
}

/// A scripted channel pair for offline harnesses: it records every line
/// written and answers reads from a fixed script of inbound lines. A
/// drained script reads as a transport failure, and writes can be made to
/// fail to script a dead channel.
pub struct ScriptedTransport {
    pub written: Vec<String>,
    pub script: Vec<String>,
    pub fail_writes: bool,
}

impl ScriptedTransport {
    /// A fresh channel pair that will answer reads with these lines.
    pub fn new(script: Vec<String>) -> (r: Self)
        ensures
            r.sent() == Seq::<Seq<char>>::empty(),
            r.inbound() == line_views(script@),
            !r.fail_writes,
            r.written@ == Seq::<String>::empty(),
    {
        let r = ScriptedTransport { written: Vec::new(), script, fail_writes: false };
        proof {
            assert(line_views(r.written@) =~= Seq::<Seq<char>>::empty());
        }
        r
    }

    /// A dead channel: every write and every read fails.
    pub fn failing() -> (r: Self)
        ensures
            r.sent() == Seq::<Seq<char>>::empty(),
            r.inbound() == Seq::<Seq<char>>::empty(),
            r.fail_writes,
    {
        let r = ScriptedTransport { written: Vec::new(), script: Vec::new(), fail_writes: true };
        proof {
            assert(line_views(r.written@) =~= Seq::<Seq<char>>::empty());
            assert(line_views(r.script@) =~= Seq::<Seq<char>>::empty());
        }
        r
    }
}

impl Transport for ScriptedTransport {
    open spec fn sent(&self) -> Seq<Seq<char>> {
        line_views(self.written@)
    }

    open spec fn inbound(&self) -> Seq<Seq<char>> {
        line_views(self.script@)
    }

    fn write_line(&mut self, line: &str) -> (r: Result<(), Error>) {
        if self.fail_writes {
            return Err(Error::IoError);
        }
        self.written.push(line.to_owned());
        proof {
            lemma_line_views_index(self.written@);
            lemma_line_views_index(old(self).written@);
            assert(line_views(self.written@) =~= line_views(old(self).written@).push(line@));
        }
        Ok(())
    }

    fn read_line(&mut self) -> (r: Result<String, Error>) {
        if self.script.len() == 0 {
            return Err(Error::IoError);
        }
        let line = self.script.remove(0);
        proof {
            lemma_line_views_index(self.script@);
            lemma_line_views_index(old(self).script@);
            assert(line_views(self.script@) =~= line_views(old(self).script@).drop_first());
        }
        Ok(line)
    }
}

// ---------------------------------------------------------------------------
// Outbound envelopes
// ---------------------------------------------------------------------------

/// What `base64::encode` returns for these bytes.
pub uninterp spec fn base64_of(bytes: Seq<u8>) -> Seq<char>;

/// Relies on `base64::encode`: the standard-alphabet, padded encoding,
/// a function of the input bytes alone; an empty input encodes to an
/// empty string.
#[verifier::external_body]
fn base64_encode(payload: &Vec<u8>) -> (r: String)
    ensures
        r@ == base64_of(payload@),
        payload@.len() == 0 ==> r@.len() == 0,
{
    base64::encode(payload.as_slice())
}

/// The wire name of an outcome: the bare variant name, quoted.
pub open spec fn wire_name(r: CheckerResult) -> Seq<char> {
    match r {
        CheckerResult::Okay => "Ok"@,
        CheckerResult::Down => "Down"@,
        CheckerResult::Faulty => "Faulty"@,
        CheckerResult::FlagNotFound => "FlagNotFound"@,
        CheckerResult::Recovering => "Recovering"@,
    }
}

/// The FLAG request: tick and base64-encoded payload.
pub open spec fn flag_request_text(tick: nat, payload_b64: Seq<char>) -> Seq<char> {
    "{\"action\":\"FLAG\",\"param\":{\"payload\":"@ + quoted(payload_b64) + ",\"tick\":"@
        + dec_digits(tick) + "}}"@
}

/// The STORE request: key and the serialized value, carried as a string.
pub open spec fn store_request_text(key: Seq<char>, data: Seq<char>) -> Seq<char> {
    "{\"action\":\"STORE\",\"param\":{\"key\":"@ + quoted(key) + ",\"data\":"@ + quoted(data)
        + "}}"@
}

/// The LOAD request: the bare key as the parameter.
pub open spec fn load_request_text(key: Seq<char>) -> Seq<char> {
    "{\"action\":\"LOAD\",\"param\":"@ + quoted(key) + "}"@
}

/// The RESULT request: the outcome under its wire name.
pub open spec fn result_request_text(r: CheckerResult) -> Seq<char> {
    "{\"action\":\"RESULT\",\"param\":"@ + quoted(wire_name(r)) + "}"@
}

/// Builds the FLAG request line.
pub fn flag_request(tick: u32, payload: &Vec<u8>) -> (r: String)
    ensures
        r@ == flag_request_text(tick as nat, base64_of(payload@)),
{
    let b64 = base64_encode(payload);
    let mut out = String::from_str("{\"action\":\"FLAG\",\"param\":{\"payload\":");
    let q = quote_string(b64.as_str());
    out.append(q.as_str());
    out.append(",\"tick\":");
    let dec = chars_to_string(&u32_dec_chars(tick));
    out.append(dec.as_str());
    out.append("}}");
    proof { assert(out@ =~= flag_request_text(tick as nat, base64_of(payload@))); }
    out
}

/// Builds the STORE request line.
pub fn store_request(key: &str, data: &str) -> (r: String)
    ensures
        r@ == store_request_text(key@, data@),
{
    let mut out = String::from_str("{\"action\":\"STORE\",\"param\":{\"key\":");
    let qk = quote_string(key);
    out.append(qk.as_str());
    out.append(",\"data\":");
    let qd = quote_string(data);
    out.append(qd.as_str());
    out.append("}}");
    proof { assert(out@ =~= store_request_text(key@, data@)); }
    out
}

/// Builds the LOAD request line.
pub fn load_request(key: &str) -> (r: String)
    ensures
        r@ == load_request_text(key@),
{
    let mut out = String::from_str("{\"action\":\"LOAD\",\"param\":");
    let qk = quote_string(key);
    out.append(qk.as_str());
    out.append("}");
    proof { assert(out@ =~= load_request_text(key@)); }
    out
}

/// Builds the RESULT request line.
pub fn result_request(result: &CheckerResult) -> (r: String)
    ensures
        r@ == result_request_text(*result),
{
    let name = match result {
        CheckerResult::Okay => "Ok",
        CheckerResult::Down => "Down",
        CheckerResult::Faulty => "Faulty",
        CheckerResult::FlagNotFound => "FlagNotFound",
        CheckerResult::Recovering => "Recovering",
    };
    let mut out = String::from_str("{\"action\":\"RESULT\",\"param\":");
    let qn = quote_string(name);
    out.append(qn.as_str());
    out.append("}");
    proof { assert(out@ =~= result_request_text(*result)); }
    out
}

// ---------------------------------------------------------------------------
// Inbound envelope
// ---------------------------------------------------------------------------

/// JSON whitespace.
pub open spec fn is_ws(c: char) -> bool {
    c == ' ' || c == '\t' || c == '\n' || c == '\r'
}

/// The first position at or after `i` holding no whitespace.
pub open spec fn skip_ws(s: Seq<char>, i: int) -> int
    decreases s.len() - i,
{
    if 0 <= i && i < s.len() && is_ws(s[i]) {
        skip_ws(s, i + 1)
    } else {
        i
    }
}

pub proof fn lemma_skip_ws_bounds(s: Seq<char>, i: int)
    requires
        0 <= i <= s.len(),
    ensures
        i <= skip_ws(s, i) <= s.len(),
    decreases s.len() - i,
{
    if i < s.len() && is_ws(s[i]) {
        lemma_skip_ws_bounds(s, i + 1);
    }
}

/// Parses one `{"response": <string>}` envelope, whitespace-tolerant;
/// anything else is no envelope.
pub open spec fn response_text(s: Seq<char>) -> Option<Seq<char>> {
    let i0 = skip_ws(s, 0);
    if !(i0 < s.len() && s[i0] == '{') {
        None
    } else {
        let i1 = skip_ws(s, i0 + 1);
        match parse_quoted(s, i1) {
            None => None,
            Some((name, j)) => if name != "response"@ {
                None
            } else {
                let j1 = skip_ws(s, j);
                if !(j1 < s.len() && s[j1] == ':') {
                    None
                } else {
                    let j2 = skip_ws(s, j1 + 1);
                    match parse_quoted(s, j2) {
                        None => None,
                        Some((val, m)) => {
                            let m1 = skip_ws(s, m);
                            if m1 < s.len() && s[m1] == '}' && skip_ws(s, m1 + 1) == s.len() {
                                Some(val)
                            } else {
                                None
                            }
                        },
                    }
                }
            },
        }
    }
}

fn skip_ws_at(s: &Vec<char>, i: usize) -> (r: usize)
    requires
        i <= s@.len(),
    ensures
        r as int == skip_ws(s@, i as int),
        i <= r <= s@.len(),
{
    let mut j = i;
    while j < s.len() && (s[j] == ' ' || s[j] == '\t' || s[j] == '\n' || s[j] == '\r')
        invariant
            i <= j <= s@.len(),
            skip_ws(s@, i as int) == skip_ws(s@, j as int),
        decreases s@.len() - j,
    {
        j = j + 1;
    }
    proof { lemma_skip_ws_bounds(s@, j as int); }
    j
}

/// Decodes one response line into the string it carries, exactly when it
/// is a well-formed `{"response": <string>}` envelope.
pub fn parse_response(line: &str) -> (r: Result<String, Error>)
    ensures
        (match r {
            Ok(v) => response_text(line@) == Some(v@),
            Err(e) => e == Error::SerdeError && response_text(line@) is None,
        }),
{
    let cs = str_to_chars(line);
    let i0 = skip_ws_at(&cs, 0);
    if !(i0 < cs.len() && cs[i0] == '{') {
        return Err(Error::SerdeError);
    }
    let i1 = skip_ws_at(&cs, i0 + 1);
    match parse_quoted_at(&cs, i1) {
        None => Err(Error::SerdeError),
        Some((name, j)) => {
            let name_s = chars_to_string(&name);
            if !name_s.eq(&String::from_str("response")) {
                return Err(Error::SerdeError);
            }
            let j1 = skip_ws_at(&cs, j);
            if !(j1 < cs.len() && cs[j1] == ':') {
                return Err(Error::SerdeError);
            }
            let j2 = skip_ws_at(&cs, j1 + 1);
            match parse_quoted_at(&cs, j2) {
                None => Err(Error::SerdeError),
                Some((val, m)) => {
                    let m1 = skip_ws_at(&cs, m);
                    if m1 < cs.len() && cs[m1] == '}' {
                        let e = skip_ws_at(&cs, m1 + 1);
                        if e == cs.len() {
                            return Ok(chars_to_string(&val));
                        }
                    }
                    Err(Error::SerdeError)
                },
            }
        },
    }
}

// ---------------------------------------------------------------------------
// The production backend
// ---------------------------------------------------------------------------

/// Talks to the real controller over an inherited channel pair. Calls
/// that expect a reply write one line and then block reading exactly one
/// line; calls with no structured reply only write. Its data model is
/// what this instance has successfully sent: the values whose STORE went
/// out, and the outcomes whose RESULT went out.
pub struct IpcControlInterface<T: Transport> {
    pub transport: T,
    /// The bindings whose STORE requests were successfully written.
    pub stored: Ghost<Map<Seq<char>, Seq<char>>>,
    /// The outcomes whose RESULT requests were successfully written.
    pub reported: Ghost<Seq<CheckerResult>>,
}

impl<T: Transport> IpcControlInterface<T> {
    /// Wraps the inherited channel pair.
    pub fn new(transport: T) -> (r: Self)
        ensures
            r.transport == transport,
            r.stored@ == Map::<Seq<char>, Seq<char>>::empty(),
            r.reported@ == Seq::<CheckerResult>::empty(),
    {
        IpcControlInterface {
            transport,
            stored: Ghost(Map::empty()),
            reported: Ghost(Seq::empty()),
        }
    }

    /// Fire-and-forget: writes one request line and reads nothing.
    fn send(&mut self, line: &str) -> (r: Result<(), Error>)
        ensures
            final(self).stored == old(self).stored,
            final(self).reported == old(self).reported,
            final(self).transport.inbound() == old(self).transport.inbound(),
            (r is Ok ==> final(self).transport.sent() == old(self).transport.sent().push(
                line@,
            )),
            (r is Err ==> final(self).transport.sent() == old(self).transport.sent()),
    {
        self.transport.write_line(line)
    }

    /// One request/response cycle: writes one request line, blocks
    /// reading exactly one line, and decodes it as a response envelope.
    /// On success the result is the string carried by the next pending
    /// inbound line; any write, read or decode failure is returned,
    /// never retried, with no resynchronization.
    fn communicate(&mut self, request: &str) -> (r: Result<String, Error>)
        ensures
            final(self).stored == old(self).stored,
            final(self).reported == old(self).reported,
            (match r {
                Ok(v) => final(self).transport.sent() == old(self).transport.sent().push(
                    request@,
                ) && (old(self).transport.inbound().len() > 0 ==> final(self).transport.inbound()
                    == old(self).transport.inbound().drop_first() && response_text(
                    old(self).transport.inbound()[0],
                ) == Some(v@)),
                Err(_) => (final(self).transport.sent() == old(self).transport.sent()
                    || final(self).transport.sent() == old(self).transport.sent().push(request@)),
            }),
    {
        match self.transport.write_line(request) {
            Err(e) => { return Err(e); },
            _ => {},
        }
        let line = match self.transport.read_line() {
            Err(e) => { return Err(e); },
            Ok(l) => l,
        };
        parse_response(line.as_str())
    }
}

impl<T: Transport> ControlInterface for IpcControlInterface<T> {
    open spec fn inv(&self) -> bool {
        true
    }

    open spec fn store(&self) -> Map<Seq<char>, Seq<char>> {
        self.stored@
    }

    open spec fn results(&self) -> Seq<CheckerResult> {
        self.reported@
    }

    /// One FLAG line goes out, one inbound line is consumed, and the
    /// result is the string that line carried.
    open spec fn flag_ens(pre: Self, post: Self, tick: u32, payload: Seq<u8>, r: Result<
        String,
        Error,
    >) -> bool {
        match r {
            Ok(f) => post.transport.sent() == pre.transport.sent().push(
                flag_request_text(tick as nat, base64_of(payload)),
            ) && (pre.transport.inbound().len() > 0 ==> post.transport.inbound()
                == pre.transport.inbound().drop_first() && response_text(
                pre.transport.inbound()[0],
            ) == Some(f@)),
            Err(_) => (post.transport.sent() == pre.transport.sent() || post.transport.sent()
                == pre.transport.sent().push(flag_request_text(tick as nat, base64_of(payload)))),
        }
    }

    /// Fire-and-forget: one STORE line on success, nothing read either way.
    open spec fn store_ens(pre: Self, post: Self, key: Seq<char>, data: Seq<char>, r: Result<
        (),
        Error,
    >) -> bool {
        &&& post.transport.inbound() == pre.transport.inbound()
        &&& (r is Ok ==> post.transport.sent() == pre.transport.sent().push(
            store_request_text(key, data),
        ))
        &&& (r is Err ==> post.transport.sent() == pre.transport.sent())
    }

    /// One LOAD line goes out, one inbound line is consumed, and the
    /// result is the string that line carried.
    open spec fn load_ens(pre: Self, post: Self, key: Seq<char>, r: Result<String, Error>) -> bool {
        match r {
            Ok(v) => post.transport.sent() == pre.transport.sent().push(load_request_text(key))
                && (pre.transport.inbound().len() > 0 ==> post.transport.inbound()
                == pre.transport.inbound().drop_first() && response_text(
                pre.transport.inbound()[0],
            ) == Some(v@)),
            Err(_) => (post.transport.sent() == pre.transport.sent() || post.transport.sent()
                == pre.transport.sent().push(load_request_text(key))),
        }
    }

    /// Production-mode logging is not transmitted: the backend is untouched.
    open spec fn log_ens(pre: Self, post: Self) -> bool {
        post == pre
    }

    /// Reporting goes over the channel, which can fail.
    open spec fn reporting_infallible(&self) -> bool {
        false
    }

    /// Fire-and-forget: one RESULT line on success, nothing read either way.
    open spec fn result_ens(pre: Self, post: Self, result: CheckerResult, r: Result<
        (),
        Error,
    >) -> bool {
        &&& post.transport.inbound() == pre.transport.inbound()
        &&& (r is Ok ==> post.transport.sent() == pre.transport.sent().push(
            result_request_text(result),
        ))
        &&& (r is Err ==> post.transport.sent() == pre.transport.sent())
    }

    fn setup() -> Result<(), Error> {
        Ok(())
    }

    fn get_flag(&mut self, tick: u32, payload: &Vec<u8>) -> (r: Result<String, Error>) {
        let req = flag_request(tick, payload);
        self.communicate(req.as_str())
    }

    fn store_data(&mut self, key: &str, data: &str) -> (r: Result<(), Error>) {
        let req = store_request(key, data);
        let r = self.send(req.as_str());
        if r.is_ok() {
            self.stored = Ghost(self.stored@.insert(key@, data@));
        }
        r
    }

    fn load_data(&mut self, key: &str) -> (r: Result<String, Error>) {
        let req = load_request(key);
        self.communicate(req.as_str())
    }

    fn send_log(&mut self, message: &str) {
        let _ = message;
    }

    fn store_result(&mut self, result: &CheckerResult) -> (r: Result<(), Error>) {
        let req = result_request(result);
        let r = self.send(req.as_str());
        if r.is_ok() {
            self.reported = Ghost(self.reported@.push(*result));
        }
        r
    }
}

} // verus!
