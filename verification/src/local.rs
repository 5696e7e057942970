//! The local backend: an in-memory key/value store with unique keys, and
//! the one-JSON-document file format it is persisted in. Values are kept
//! as already-JSON-encoded strings, and the document quotes them once
//! more, so a stored value appears double-serialized on disk — the same
//! convention the wire protocol uses for its string-carrying fields.

use vstd::prelude::*;
use vstd::map::*;
use crate::codec::{
    quoted, quote_string, parse_quoted, parse_quoted_at, str_to_chars, chars_to_string,
    lemma_parse_quoted_round_trip, lemma_parse_body_advances,
};
use crate::error::Error;
use crate::flag::{flag_text, gen_flag};

verus! {

// ---------------------------------------------------------------------------
// The store model
// ---------------------------------------------------------------------------

/// The text of the key/value pairs of a store, for the model below.
pub open spec fn entries_view(v: Seq<(String, String)>) -> Seq<(Seq<char>, Seq<char>)> {
    v.map_values(|e: (String, String)| (e.0@, e.1@))
}

/// Length and pointwise content of `entries_view`.
pub proof fn lemma_entries_view_index(v: Seq<(String, String)>)
    ensures
        entries_view(v).len() == v.len(),
        forall|a: int| 0 <= a < v.len() ==> #[trigger] entries_view(v)[a] == (v[a].0@, v[a].1@),
{
}

/// No key occurs twice.
pub open spec fn distinct_keys(es: Seq<(Seq<char>, Seq<char>)>) -> bool {
    forall|a: int, b: int| 0 <= a < b < es.len() ==> es[a].0 != es[b].0
}

/// The mapping a sequence of entries denotes; a later entry wins.
pub open spec fn map_of(es: Seq<(Seq<char>, Seq<char>)>) -> Map<Seq<char>, Seq<char>>
    decreases es.len(),
{
    if es.len() == 0 {
        Map::empty()
    } else {
        map_of(es.drop_last()).insert(es.last().0, es.last().1)
    }
}

/// A key is in the mapping exactly when some entry holds it.
pub proof fn lemma_map_of_contains(es: Seq<(Seq<char>, Seq<char>)>, k: Seq<char>)
    ensures
        map_of(es).dom().contains(k) <==> (exists|a: int| 0 <= a < es.len() && es[a].0 == k),
    decreases es.len(),
{
    if es.len() > 0 {
        let dl = es.drop_last();
        lemma_map_of_contains(dl, k);
        if es.last().0 == k {
            assert(0 <= es.len() - 1 < es.len() && es[es.len() - 1].0 == k);
        } else if map_of(dl).dom().contains(k) {
            let a = choose|a: int| 0 <= a < dl.len() && dl[a].0 == k;
            assert(es[a].0 == k);
        } else {
            if exists|a: int| 0 <= a < es.len() && es[a].0 == k {
                let a = choose|a: int| 0 <= a < es.len() && es[a].0 == k;
                assert(a < es.len() - 1);
                assert(dl[a].0 == k);
            }
        }
    }
}

/// Replacing the value at the unique entry holding a key updates the
/// mapping at that key and nothing else.
pub proof fn lemma_map_of_update(es: Seq<(Seq<char>, Seq<char>)>, i: int, v2: Seq<char>)
    requires
        distinct_keys(es),
        0 <= i < es.len(),
    ensures
        map_of(es.update(i, (es[i].0, v2))) == map_of(es).insert(es[i].0, v2),
    decreases es.len(),
{
    let k = es[i].0;
    let es2 = es.update(i, (k, v2));
    if i == es.len() - 1 {
        assert(es2.drop_last() =~= es.drop_last());
        assert(es2.last() == (k, v2));
        assert_maps_equal!(map_of(es2), map_of(es).insert(k, v2));
    } else {
        let dl = es.drop_last();
        assert(es2.drop_last() =~= dl.update(i, (k, v2)));
        assert(es2.last() == es.last());
        assert(distinct_keys(dl));
        assert(dl[i].0 == k);
        lemma_map_of_update(dl, i, v2);
        assert(es[i].0 != es[es.len() - 1].0);
        assert_maps_equal!(map_of(es2), map_of(es).insert(k, v2));
    }
}

/// Storing a value under a key and then loading that key yields exactly
/// the stored value, whatever the store held before.
pub proof fn lemma_store_then_load(m: Map<Seq<char>, Seq<char>>, k: Seq<char>, v: Seq<char>)
    ensures
        m.insert(k, v).dom().contains(k),
        m.insert(k, v)[k] == v,
{
}

// ---------------------------------------------------------------------------
// The backend
// ---------------------------------------------------------------------------

/// Stands in for the controller during offline runs: a key/value store
/// held as a list of entries with unique keys. Its persistent form is the
/// document written by `to_document` and read by `from_document`.
pub struct LocalControlInterface {
    pub entries: Vec<(String, String)>,
    /// The outcomes reported to this backend, in order; local runs report
    /// nothing outward, so this record is the terminal sink.
    pub reported: Ghost<Seq<crate::CheckerResult>>,
}

impl View for LocalControlInterface {
    type V = Map<Seq<char>, Seq<char>>;

    open spec fn view(&self) -> Map<Seq<char>, Seq<char>> {
        map_of(entries_view(self.entries@))
    }
}

impl LocalControlInterface {
    /// No key occurs twice among the entries.
    pub open spec fn wf(&self) -> bool {
        distinct_keys(entries_view(self.entries@))
    }

    /// An empty store.
    pub fn new() -> (r: Self)
        ensures
            r.wf(),
            r@ == Map::<Seq<char>, Seq<char>>::empty(),
            r.entries@.len() == 0,
            r.reported@ == Seq::<crate::CheckerResult>::empty(),
    {
        let r = LocalControlInterface { entries: Vec::new(), reported: Ghost(Seq::empty()) };
        proof { assert(entries_view(r.entries@) =~= Seq::<(Seq<char>, Seq<char>)>::empty()); }
        r
    }

    /// The number of stored entries.
    pub fn len(&self) -> (n: usize)
        ensures
            n == self.entries@.len(),
    {
        self.entries.len()
    }

    /// Computes the flag for a tick and payload; never goes to a controller.
    pub fn get_flag(&mut self, tick: u32, payload: &Vec<u8>) -> (r: Result<String, Error>)
        ensures
            *final(self) == *old(self),
            (match r {
                Ok(f) => f@ == flag_text(tick as nat, payload@),
                Err(_) => false,
            }),
    {
        Ok(gen_flag(tick, payload))
    }

    /// Upserts an already-serialized value under a key.
    pub fn store_data(&mut self, key: &str, data: &str) -> (r: Result<(), Error>)
        requires
            old(self).wf(),
        ensures
            final(self).wf(),
            r is Ok,
            final(self)@ == old(self)@.insert(key@, data@),
            final(self).entries@.len() == old(self).entries@.len()
                + (if old(self)@.dom().contains(key@) { 0int } else { 1int }),
            final(self).reported == old(self).reported,
    {
        let key_s = key.to_owned();
        let n = self.entries.len();
        let ghost es0 = entries_view(self.entries@);
        let mut i: usize = 0;
        while i < n
            invariant
                i <= n,
                n == self.entries@.len(),
                key_s@ == key@,
                self == old(self),
                es0 == entries_view(self.entries@),
                es0.len() == n,
                distinct_keys(es0),
                forall|a: int| 0 <= a < i ==> es0[a].0 != key@,
            decreases n - i,
        {
            if key_s.eq(&self.entries[i].0) {
                // replace in place: the unique entry with this key
                proof {
                    lemma_entries_view_index(self.entries@);
                    lemma_map_of_contains(es0, key@);
                    assert(es0[i as int].0 == key@);
                }
                self.entries[i].1 = data.to_owned();
                proof {
                    lemma_entries_view_index(self.entries@);
                    lemma_entries_view_index(old(self).entries@);
                    let es1 = entries_view(self.entries@);
                    assert(es1 =~= es0.update(i as int, (key@, data@)));
                    assert((es0[i as int].0, data@) == (key@, data@));
                    lemma_map_of_update(es0, i as int, data@);
                    assert(es1.len() == es0.len());
                    assert(forall|x: int| 0 <= x < es1.len() ==> #[trigger] es1[x].0 == es0[x].0);
                    assert forall|a: int, b: int| 0 <= a < b < es1.len() implies es1[a].0 != es1[b].0 by {
                        assert(es1[a].0 == es0[a].0);
                        assert(es1[b].0 == es0[b].0);
                        assert(es0[a].0 != es0[b].0);
                    }
                    assert(distinct_keys(es1));
                }
                return Ok(());
            }
            i = i + 1;
        }
        proof {
            lemma_entries_view_index(self.entries@);
            lemma_map_of_contains(es0, key@);
            assert(!old(self)@.dom().contains(key@));
        }
        self.entries.push((key.to_owned(), data.to_owned()));
        proof {
            lemma_entries_view_index(self.entries@);
            lemma_entries_view_index(old(self).entries@);
            let es1 = entries_view(self.entries@);
            assert(es1.drop_last() =~= es0);
            assert(es1.last() == (key@, data@));
            assert(es1 =~= es0.push((key@, data@)));
            assert forall|a: int, b: int| 0 <= a < b < es1.len() implies es1[a].0 != es1[b].0 by {
                assert(es1.len() == es0.len() + 1);
                assert(es1[a].0 == es0[a].0);
                if b < es1.len() - 1 {
                    assert(es1[b].0 == es0[b].0);
                    assert(es0[a].0 != es0[b].0);
                } else {
                    assert(es1[b].0 == key@);
                    assert(es0[a].0 != key@);
                }
            }
            assert(distinct_keys(es1));
        }
        Ok(())
    }

    /// Looks a key up; fails with the missing-key error exactly when the
    /// key was never stored, and never changes the store.
    pub fn load_data(&self, key: &str) -> (r: Result<String, Error>)
        ensures
            (match r {
                Ok(v) => self@.dom().contains(key@) && v@ == self@[key@],
                Err(e) => e == Error::NoSuchItem && !self@.dom().contains(key@),
            }),
    {
        let key_s = key.to_owned();
        let n = self.entries.len();
        let ghost ev = entries_view(self.entries@);
        proof {
            lemma_entries_view_index(self.entries@);
            assert(ev.subrange(0, n as int) =~= ev);
        }
        let mut j = n;
        while j > 0
            invariant
                j <= n,
                n == self.entries@.len(),
                key_s@ == key@,
                ev == entries_view(self.entries@),
                ev.len() == n,
                self@.dom().contains(key@) == map_of(ev.subrange(0, j as int)).dom().contains(key@),
                self@.dom().contains(key@)
                    ==> map_of(ev.subrange(0, j as int))[key@] == self@[key@],
            decreases j,
        {
            j = j - 1;
            proof {
                assert(ev.subrange(0, j as int + 1).drop_last() =~= ev.subrange(0, j as int));
                assert(ev.subrange(0, j as int + 1).last() == ev[j as int]);
            }
            if key_s.eq(&self.entries[j].0) {
                proof {
                    lemma_entries_view_index(self.entries@);
                    assert(ev[j as int].0 == key@);
                }
                return Ok(self.entries[j].1.clone());
            }
            proof { assert(ev[j as int].0 != key@); }
        }
        proof { assert(ev.subrange(0, 0) =~= Seq::<(Seq<char>, Seq<char>)>::empty()); }
        Err(Error::NoSuchItem)
    }

    /// The terminal sink for local runs: the outcome is recorded and
    /// nothing is reported outward; this call cannot fail.
    pub fn store_result(&mut self, result: &crate::CheckerResult) -> (r: Result<(), Error>)
        ensures
            r is Ok,
            final(self).entries == old(self).entries,
            final(self).reported@ == old(self).reported@.push(*result),
    {
        self.reported = Ghost(self.reported@.push(*result));
        Ok(())
    }

    /// Logging is not transmitted anywhere by this backend.
    pub fn send_log(&mut self, message: &str)
        ensures
            *final(self) == *old(self),
    {
        let _ = message;
    }
}

// ---------------------------------------------------------------------------
// The document format
// ---------------------------------------------------------------------------

/// One `"key":"value"` pair as it appears in the document.
pub open spec fn entry_text(k: Seq<char>, v: Seq<char>) -> Seq<char> {
    quoted(k) + seq![':'] + quoted(v)
}

/// The comma-joined entry list.
pub open spec fn entries_text(es: Seq<(Seq<char>, Seq<char>)>) -> Seq<char>
    decreases es.len(),
{
    if es.len() == 0 {
        Seq::empty()
    } else if es.len() == 1 {
        entry_text(es[0].0, es[0].1)
    } else {
        entry_text(es[0].0, es[0].1) + seq![','] + entries_text(es.drop_first())
    }
}

/// The whole persisted document.
pub open spec fn doc_text(es: Seq<(Seq<char>, Seq<char>)>) -> Seq<char> {
    "{\"data\":{"@ + entries_text(es) + "}}"@
}

pub proof fn lemma_entries_text_push(es: Seq<(Seq<char>, Seq<char>)>, e: (Seq<char>, Seq<char>))
    ensures
        entries_text(es.push(e)) == if es.len() == 0 {
            entry_text(e.0, e.1)
        } else {
            entries_text(es) + seq![','] + entry_text(e.0, e.1)
        },
    decreases es.len(),
{
    let esp = es.push(e);
    if es.len() == 0 {
        assert(esp.len() == 1);
        assert(esp[0] == e);
    } else {
        assert(esp[0] == es[0]);
        assert(esp.drop_first() =~= es.drop_first().push(e));
        lemma_entries_text_push(es.drop_first(), e);
        if es.len() == 1 {
            assert(es.drop_first().len() == 0);
            assert(entries_text(esp) =~= entries_text(es) + seq![','] + entry_text(e.0, e.1));
        } else {
            assert(entries_text(esp) =~= entries_text(es) + seq![','] + entry_text(e.0, e.1));
        }
    }
}

impl LocalControlInterface {
    /// Writes the whole store as one JSON document.
    pub fn to_document(&self) -> (r: String)
        ensures
            r@ == doc_text(entries_view(self.entries@)),
    {
        let ghost ev = entries_view(self.entries@);
        let mut out = String::from_str("{\"data\":{");
        let n = self.entries.len();
        let mut i: usize = 0;
        while i < n
            invariant
                i <= n,
                n == self.entries@.len(),
                ev == entries_view(self.entries@),
                ev.len() == n,
                out@ == "{\"data\":{"@ + entries_text(ev.subrange(0, i as int)),
            decreases n - i,
        {
            if i > 0 {
                out.append(",");
            }
            let qk = quote_string(self.entries[i].0.as_str());
            out.append(qk.as_str());
            out.append(":");
            let qv = quote_string(self.entries[i].1.as_str());
            out.append(qv.as_str());
            proof {
                lemma_entries_view_index(self.entries@);
                reveal_strlit(",");
                reveal_strlit(":");
                assert(","@ =~= seq![',']);
                assert(":"@ =~= seq![':']);
                let sub1 = ev.subrange(0, i as int + 1);
                assert(sub1.drop_last() =~= ev.subrange(0, i as int));
                assert(sub1.last() == ev[i as int]);
                assert(ev.subrange(0, i as int).push(ev[i as int]) =~= sub1);
                lemma_entries_text_push(ev.subrange(0, i as int), ev[i as int]);
                assert(ev[i as int].0 == self.entries@[i as int].0@);
                assert(ev[i as int].1 == self.entries@[i as int].1@);
                assert(out@ =~= "{\"data\":{"@ + entries_text(sub1));
            }
            i = i + 1;
        }
        out.append("}}");
        proof {
            assert(ev.subrange(0, n as int) =~= ev);
            assert(out@ =~= doc_text(ev));
        }
        out
    }
}

// ---------------------------------------------------------------------------
// Document parsing
// ---------------------------------------------------------------------------

/// Parses the entry list of a document, starting right after the inner
/// opening brace, up to and including the inner closing brace.
pub open spec fn parse_entries(s: Seq<char>, i: int) -> Option<(Seq<(Seq<char>, Seq<char>)>, int)>
    decreases s.len() - i,
{
    if i < 0 || i >= s.len() {
        None
    } else if s[i] == '}' {
        Some((Seq::empty(), i + 1))
    } else {
        match parse_quoted(s, i) {
            None => None,
            Some((k, j)) => if !(j < s.len() && s[j] == ':') {
                None
            } else {
                match parse_quoted(s, j + 1) {
                    None => None,
                    Some((v, m)) => if m >= s.len() {
                        None
                    } else if s[m] == ',' {
                        proof {
                            lemma_parse_body_advances(s, i + 1);
                            lemma_parse_body_advances(s, j + 2);
                        }
                        match parse_entries(s, m + 1) {
                            None => None,
                            Some((rest, e)) => Some((seq![(k, v)] + rest, e)),
                        }
                    } else if s[m] == '}' {
                        Some((seq![(k, v)], m + 1))
                    } else {
                        None
                    },
                }
            },
        }
    }
}

/// Parses a whole persisted document into its entries.
pub open spec fn parse_document(s: Seq<char>) -> Option<Seq<(Seq<char>, Seq<char>)>> {
    if s.len() >= 9 && s.subrange(0, 9) == "{\"data\":{"@ {
        match parse_entries(s, 9) {
            None => None,
            Some((es, j)) => if j < s.len() && s[j] == '}' && j + 1 == s.len() {
                Some(es)
            } else {
                None
            },
        }
    } else {
        None
    }
}

/// The mapping a document denotes, treating an empty text as an empty
/// store, as the store-rewriting path does.
pub open spec fn doc_map(s: Seq<char>) -> Option<Map<Seq<char>, Seq<char>>> {
    if s.len() == 0 {
        Some(Map::empty())
    } else {
        match parse_document(s) {
            Some(es) => Some(map_of(es)),
            None => None,
        }
    }
}

impl LocalControlInterface {
    /// Reads a whole document back into a store. A later duplicate key in
    /// the document wins, as in the mapping the document denotes.
    pub fn from_document(doc: &str) -> (r: Result<LocalControlInterface, Error>)
        ensures
            (match r {
                Ok(st) => parse_document(doc@) is Some && st.wf()
                    && st@ == map_of(parse_document(doc@).unwrap()),
                Err(e) => e == Error::SerdeError && parse_document(doc@) is None,
            }),
    {
        let cs = str_to_chars(doc);
        let n = cs.len();
        if n < 9 {
            return Err(Error::SerdeError);
        }
        if !(cs[0] == '{' && cs[1] == '"' && cs[2] == 'd' && cs[3] == 'a' && cs[4] == 't'
            && cs[5] == 'a' && cs[6] == '"' && cs[7] == ':' && cs[8] == '{') {
            proof {
                reveal_strlit("{\"data\":{");
                if cs@.subrange(0, 9) == "{\"data\":{"@ {
                    assert(forall|x: int| 0 <= x < 9 ==> cs@.subrange(0, 9)[x] == cs@[x]);
                    assert(false);
                }
            }
            return Err(Error::SerdeError);
        }
        proof {
            reveal_strlit("{\"data\":{");
            assert(cs@.subrange(0, 9) =~= "{\"data\":{"@);
        }
        let mut st = LocalControlInterface::new();
        let ghost mut acc: Seq<(Seq<char>, Seq<char>)> = Seq::empty();
        let mut i: usize = 9;
        loop
            invariant
                9 <= i,
                n == cs@.len(),
                cs@ == doc@,
                n >= 9,
                cs@.subrange(0, 9) == "{\"data\":{"@,
                st.wf(),
                st@ == map_of(acc),
                (parse_entries(cs@, 9) == (match parse_entries(cs@, i as int) {
                    Some((rest, e)) => Some((acc + rest, e)),
                    None => None::<(Seq<(Seq<char>, Seq<char>)>, int)>,
                })),
            decreases n - i,
        {
            if i >= n {
                return Err(Error::SerdeError);
            }
            let c = cs[i];
            if c == '}' {
                proof {
                    assert(parse_entries(cs@, i as int) == Some((
                        Seq::<(Seq<char>, Seq<char>)>::empty(),
                        i as int + 1,
                    )));
                    assert(acc + Seq::<(Seq<char>, Seq<char>)>::empty() =~= acc);
                    assert(parse_entries(cs@, 9) == Some((acc, i as int + 1)));
                }
                if n - i == 2 {
                    if cs[i + 1] == '}' {
                        return Ok(st);
                    }
                }
                return Err(Error::SerdeError);
            }
            match parse_quoted_at(&cs, i) {
                None => { return Err(Error::SerdeError); },
                Some((kv, j)) => {
                    if j >= n {
                        return Err(Error::SerdeError);
                    }
                    if cs[j] != ':' {
                        return Err(Error::SerdeError);
                    }
                    match parse_quoted_at(&cs, j + 1) {
                        None => { return Err(Error::SerdeError); },
                        Some((vv, m)) => {
                            if m >= n {
                                return Err(Error::SerdeError);
                            }
                            let ks = chars_to_string(&kv);
                            let vs = chars_to_string(&vv);
                            let cm = cs[m];
                            if cm == ',' {
                                let ghost acc_old = acc;
                                let _ = st.store_data(ks.as_str(), vs.as_str());
                                proof {
                                    acc = acc.push((kv@, vv@));
                                    assert(acc.drop_last() =~= acc_old);
                                    assert(st@ == map_of(acc));
                                    let rk = parse_entries(cs@, m as int + 1);
                                    if rk is Some {
                                        let rest = rk.unwrap().0;
                                        assert(acc_old + (seq![(kv@, vv@)] + rest) =~= acc + rest);
                                    }
                                }
                                i = m + 1;
                            } else if cm == '}' {
                                let ghost acc_old = acc;
                                let _ = st.store_data(ks.as_str(), vs.as_str());
                                proof {
                                    acc = acc.push((kv@, vv@));
                                    assert(acc.drop_last() =~= acc_old);
                                    assert(st@ == map_of(acc));
                                    assert(parse_entries(cs@, i as int)
                                        == Some((seq![(kv@, vv@)], m as int + 1)));
                                    assert(acc_old + seq![(kv@, vv@)] =~= acc);
                                    assert(parse_entries(cs@, 9) == Some((acc, m as int + 1)));
                                }
                                if n - m == 2 {
                                    if cs[m + 1] == '}' {
                                        return Ok(st);
                                    }
                                }
                                return Err(Error::SerdeError);
                            } else {
                                return Err(Error::SerdeError);
                            }
                        },
                    }
                },
            }
        }
    }

    /// The local store-and-rewrite cycle on one document: read the whole
    /// document (an absent or empty one is an empty store), upsert the
    /// already-serialized value under the key, and write the whole
    /// document back out.
    pub fn store_document(doc: &str, key: &str, data: &str) -> (r: Result<String, Error>)
        ensures
            (match r {
                Ok(out) => doc_map(doc@) is Some
                    && doc_map(out@) == Some(doc_map(doc@).unwrap().insert(key@, data@)),
                Err(e) => e == Error::SerdeError && doc_map(doc@) is None,
            }),
    {
        let mut st = if doc.unicode_len() == 0 {
            LocalControlInterface::new()
        } else {
            match LocalControlInterface::from_document(doc) {
                Ok(st) => st,
                Err(e) => { return Err(e); },
            }
        };
        let _ = st.store_data(key, data);
        let out = st.to_document();
        proof {
            lemma_parse_document_round_trip(entries_view(st.entries@));
            assert(out@.len() > 0) by {
                reveal_strlit("{\"data\":{");
                assert(doc_text(entries_view(st.entries@)).len() >= 9);
            }
        }
        Ok(out)
    }

    /// The local lookup cycle on one document: read the whole document and
    /// look the key up; a key never stored fails with the missing-key
    /// error, and an unreadable document with a serialization error.
    pub fn load_document(doc: &str, key: &str) -> (r: Result<String, Error>)
        ensures
            (match r {
                Ok(v) => parse_document(doc@) is Some
                    && map_of(parse_document(doc@).unwrap()).dom().contains(key@)
                    && v@ == map_of(parse_document(doc@).unwrap())[key@],
                Err(e) => (e == Error::SerdeError && parse_document(doc@) is None)
                    || (e == Error::NoSuchItem && parse_document(doc@) is Some
                        && !map_of(parse_document(doc@).unwrap()).dom().contains(key@)),
            }),
    {
        let st = match LocalControlInterface::from_document(doc) {
            Ok(st) => st,
            Err(e) => { return Err(e); },
        };
        st.load_data(key)
    }
}

// ---------------------------------------------------------------------------
// Round trip: a document written by `to_document` parses back unchanged
// ---------------------------------------------------------------------------

pub proof fn lemma_parse_entries_round_trip(
    es: Seq<(Seq<char>, Seq<char>)>,
    pre: Seq<char>,
    suf: Seq<char>,
)
    ensures
        parse_entries(pre + entries_text(es) + seq!['}'] + suf, pre.len() as int)
            == Some((es, (pre.len() + entries_text(es).len() + 1) as int)),
    decreases es.len(), 1int,
{
    let s = pre + entries_text(es) + seq!['}'] + suf;
    let i = pre.len() as int;
    if es.len() == 0 {
        assert(entries_text(es) =~= Seq::<char>::empty());
        assert(s[i] == '}');
        assert(parse_entries(s, i) == Some((Seq::<(Seq<char>, Seq<char>)>::empty(), i + 1)));
        assert(Seq::<(Seq<char>, Seq<char>)>::empty() =~= es);
    } else if es.len() == 1 {
        lemma_parse_entries_single(es, pre, suf);
    } else {
        lemma_parse_entries_cons(es, pre, suf);
    }
}

/// One `"key":"value"` pair at the head of the remaining text parses as
/// its two quoted strings with the colon between them.
#[verifier::rlimit(100)]
proof fn lemma_parse_entry_prefix(k: Seq<char>, v: Seq<char>, pre: Seq<char>, tail: Seq<char>)
    ensures
        ({
            let s = pre + entry_text(k, v) + tail;
            let j = pre.len() + quoted(k).len();
            let m = pre.len() + entry_text(k, v).len();
            parse_quoted(s, pre.len() as int) == Some((k, j as int)) && j < s.len() && s[j as int]
                == ':' && parse_quoted(s, j as int + 1) == Some((v, m as int))
        }),
{
    let s = pre + entry_text(k, v) + tail;
    assert(entry_text(k, v) == quoted(k) + seq![':'] + quoted(v));
    let suf1 = seq![':'] + quoted(v) + tail;
    assert(s =~= pre + quoted(k) + suf1);
    lemma_parse_quoted_round_trip(k, pre, suf1);
    let j = pre.len() + quoted(k).len();
    assert(s[j as int] == ':');
    let pre2 = pre + quoted(k) + seq![':'];
    assert(s =~= pre2 + quoted(v) + tail);
    lemma_parse_quoted_round_trip(v, pre2, tail);
}

/// The last entry of a document: `"key":"value"` followed by the brace.
#[verifier::rlimit(100)]
proof fn lemma_parse_entries_single(
    es: Seq<(Seq<char>, Seq<char>)>,
    pre: Seq<char>,
    suf: Seq<char>,
)
    requires
        es.len() == 1,
    ensures
        parse_entries(pre + entries_text(es) + seq!['}'] + suf, pre.len() as int)
            == Some((es, (pre.len() + entries_text(es).len() + 1) as int)),
{
    let k = es[0].0;
    let v = es[0].1;
    let i = pre.len() as int;
    let tail = seq!['}'] + suf;
    assert(entries_text(es) == entry_text(k, v));
    let s = pre + entries_text(es) + seq!['}'] + suf;
    assert(s =~= pre + entry_text(k, v) + tail);
    lemma_parse_entry_prefix(k, v, pre, tail);
    let m = pre.len() + entry_text(k, v).len();
    assert(s[m as int] == '}');
    assert(m < s.len());
    assert(s[i] == '"');
    assert(parse_entries(s, i) == Some((seq![(k, v)], m as int + 1)));
    assert(seq![(k, v)] =~= es);
}

/// An entry followed by a comma and further entries.
#[verifier::rlimit(100)]
proof fn lemma_parse_entries_cons(
    es: Seq<(Seq<char>, Seq<char>)>,
    pre: Seq<char>,
    suf: Seq<char>,
)
    requires
        es.len() >= 2,
    ensures
        parse_entries(pre + entries_text(es) + seq!['}'] + suf, pre.len() as int)
            == Some((es, (pre.len() + entries_text(es).len() + 1) as int)),
    decreases es.len(), 0int,
{
    let k = es[0].0;
    let v = es[0].1;
    let i = pre.len() as int;
    let rest_text = entries_text(es.drop_first());
    let tail = seq![','] + rest_text + seq!['}'] + suf;
    assert(entries_text(es) == entry_text(k, v) + seq![','] + rest_text);
    let s = pre + entries_text(es) + seq!['}'] + suf;
    assert(s =~= pre + entry_text(k, v) + tail);
    lemma_parse_entry_prefix(k, v, pre, tail);
    let m = pre.len() + entry_text(k, v).len();
    assert(s[m as int] == ',');
    assert(m < s.len());
    let pre3 = pre + entry_text(k, v) + seq![','];
    assert(s =~= pre3 + rest_text + seq!['}'] + suf);
    lemma_parse_entries_round_trip(es.drop_first(), pre3, suf);
    let e_end = pre3.len() + rest_text.len() + 1;
    assert(parse_entries(s, m as int + 1) == Some((es.drop_first(), e_end as int)));
    assert(s[i] == '"');
    assert(parse_entries(s, i) == Some((seq![(k, v)] + es.drop_first(), e_end as int)));
    assert(seq![(k, v)] + es.drop_first() =~= es);
    assert(e_end as int == pre.len() + entries_text(es).len() + 1);
}

/// Round trip: the document written for any entry list parses back to
/// exactly that entry list; with `to_document` and `from_document` this
/// says a store survives a write-and-reread cycle unchanged.
pub proof fn lemma_parse_document_round_trip(es: Seq<(Seq<char>, Seq<char>)>)
    ensures
        parse_document(doc_text(es)) == Some(es),
{
    let s = doc_text(es);
    let p = "{\"data\":{"@;
    reveal_strlit("{\"data\":{");
    reveal_strlit("}}");
    assert(p.len() == 9);
    assert("}}"@ =~= seq!['}'] + seq!['}']);
    assert(s =~= p + entries_text(es) + seq!['}'] + seq!['}']);
    lemma_parse_entries_round_trip(es, p, seq!['}']);
    let j = 9 + entries_text(es).len() + 1;
    assert(parse_entries(s, 9) == Some((es, j as int)));
    assert(s.subrange(0, 9) =~= p);
    assert(s[j as int] == '}');
    assert(j as int + 1 == s.len());
}


/// A store written out as a document and read back holds exactly the
/// same mapping: persistence loses nothing and invents nothing.
pub proof fn lemma_store_document_round_trip(st: LocalControlInterface)
    ensures
        parse_document(doc_text(entries_view(st.entries@))) == Some(entries_view(st.entries@)),
        doc_map(doc_text(entries_view(st.entries@))) == Some(st@),
{
    lemma_parse_document_round_trip(entries_view(st.entries@));
    reveal_strlit("{\"data\":{");
    assert(doc_text(entries_view(st.entries@)).len() >= 9);
}

/// The local variant of the capability set: every call is served from the
/// in-memory store, exactly; nothing is reported outward, nothing can
/// fail but a missing key, and the flag is the local derivation.
impl crate::ipc::ControlInterface for LocalControlInterface {
    open spec fn inv(&self) -> bool {
        self.wf()
    }

    open spec fn store(&self) -> Map<Seq<char>, Seq<char>> {
        self@
    }

    open spec fn results(&self) -> Seq<crate::CheckerResult> {
        self.reported@
    }

    /// The flag is computed locally: always the exact derivation.
    open spec fn flag_ens(pre: Self, post: Self, tick: u32, payload: Seq<u8>, r: Result<
        String,
        Error,
    >) -> bool {
        &&& post == pre
        &&& (r matches Ok(f) && f@ == flag_text(tick as nat, payload))
    }

    /// Storing locally cannot fail.
    open spec fn store_ens(pre: Self, post: Self, key: Seq<char>, data: Seq<char>, r: Result<
        (),
        Error,
    >) -> bool {
        r is Ok
    }

    /// Loading is exact: the stored value, or the missing-key error, and
    /// the backend is untouched.
    open spec fn load_ens(pre: Self, post: Self, key: Seq<char>, r: Result<String, Error>) -> bool {
        &&& post == pre
        &&& (match r {
            Ok(v) => pre@.dom().contains(key) && v@ == pre@[key],
            Err(e) => e == Error::NoSuchItem && !pre@.dom().contains(key),
        })
    }

    /// Local logging leaves the backend untouched.
    open spec fn log_ens(pre: Self, post: Self) -> bool {
        post == pre
    }

    /// Recording an outcome locally cannot fail.
    open spec fn reporting_infallible(&self) -> bool {
        true
    }

    /// Recording the outcome cannot fail and keeps the data intact.
    open spec fn result_ens(pre: Self, post: Self, result: crate::CheckerResult, r: Result<
        (),
        Error,
    >) -> bool {
        &&& r is Ok
        &&& post.entries == pre.entries
    }

    fn setup() -> Result<(), Error> {
        Ok(())
    }

    fn get_flag(&mut self, tick: u32, payload: &Vec<u8>) -> Result<String, Error> {
        LocalControlInterface::get_flag(self, tick, payload)
    }

    fn store_data(&mut self, key: &str, data: &str) -> Result<(), Error> {
        LocalControlInterface::store_data(self, key, data)
    }

    fn load_data(&mut self, key: &str) -> Result<String, Error> {
        LocalControlInterface::load_data(self, key)
    }

    fn send_log(&mut self, message: &str) {
        LocalControlInterface::send_log(self, message)
    }

    fn store_result(&mut self, result: &crate::CheckerResult) -> Result<(), Error> {
        LocalControlInterface::store_result(self, result)
    }
}


} // verus!
